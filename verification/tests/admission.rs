use exact_sni_relay::address::{canonical_source_ip, IpAddr};
use exact_sni_relay::admission::{AdmissionControl, Rejection, SourceAdmission};
use exact_sni_relay::config::Admission;
use exact_sni_relay::error::ErrorKind;

fn v4(a: u32, b: u32, c: u32, d: u32) -> IpAddr {
    IpAddr::V4(a << 24 | b << 16 | c << 8 | d)
}

fn limits(pre_parse: usize, routed: usize, per_source: usize, fallback: usize) -> Admission {
    Admission {
        pre_parse_max_connections: pre_parse,
        routed_max_connections: routed,
        routed_max_connections_per_source: per_source,
        fallback_max_connections: fallback,
    }
}

#[test]
fn source_admission_caps_canonical_ip_and_raii_releases() {
    let mut admission = SourceAdmission::new(1);
    let source = v4(192, 0, 2, 7);
    let mapped = canonical_source_ip(IpAddr::V6(0xffff_c000_0207));
    let other = v4(192, 0, 2, 8);

    assert!(admission.try_acquire(source));
    assert_eq!(mapped, source);
    assert!(!admission.try_acquire(mapped));
    assert!(admission.try_acquire(other));
    admission.release(source);
    assert!(admission.try_acquire(mapped));
    admission.release(mapped);
    admission.release(other);
    assert!(admission.try_acquire(other));
}

#[test]
fn only_mapped_addresses_are_taken_as_ipv4() {
    assert_eq!(
        canonical_source_ip(IpAddr::V6(0xffff_ffff_ffff)),
        IpAddr::V4(u32::MAX)
    );
    for bits in [0, 1, 0xfffe_ffff_ffff, 0x1_0000_0000_0000] {
        assert_eq!(canonical_source_ip(IpAddr::V6(bits)), IpAddr::V6(bits));
    }
    assert_eq!(canonical_source_ip(v4(1, 2, 3, 4)), v4(1, 2, 3, 4));
}

#[test]
fn sources_of_both_families_are_counted() {
    let mut admission = SourceAdmission::new(2);
    let six = IpAddr::V6(7);
    let four = IpAddr::V4(7);
    assert!(admission.try_acquire(six));
    assert!(admission.try_acquire(six));
    assert!(!admission.try_acquire(six));
    assert!(admission.try_acquire(four));
    admission.release(six);
    assert!(admission.try_acquire(six));
    let mut closed = SourceAdmission::new(0);
    assert!(!closed.try_acquire(four));
    assert!(!closed.try_acquire(four));
}

#[test]
fn budget_must_fit_the_process() {
    assert!(AdmissionControl::new(limits(8, 16, 4, 2), 26).is_ok());
    let error = AdmissionControl::new(limits(8, 16, 4, 2), 25).err().unwrap();
    assert_eq!(error.kind, ErrorKind::InvalidInput);
    assert_eq!(
        error.message,
        "scoped admission budget 26 exceeds --max-connections 25"
    );
    let error = AdmissionControl::new(limits(usize::MAX, 1, 1, 1), 25)
        .err()
        .unwrap();
    assert_eq!(error.kind, ErrorKind::InvalidInput);
    assert_eq!(error.message, "admission budget overflow");
    let control = AdmissionControl::new(limits(8, 16, 4, 2), 26).ok().unwrap();
    assert_eq!(control.configured(), limits(8, 16, 4, 2));
}

#[test]
fn pools_are_separate_and_give_their_places_back() {
    let source = v4(192, 0, 2, 7);
    let other = v4(192, 0, 2, 8);
    let mut control = AdmissionControl::new(limits(2, 2, 1, 1), 100).ok().unwrap();
    assert!(control.enter());
    assert!(control.enter());
    assert!(!control.enter());
    control.abandon();
    assert!(control.enter());

    assert_eq!(control.admit_fallback(), Ok(()));
    assert_eq!(control.admit_fallback(), Err(Rejection::Fallback));
    // The fallback is full; routes are not.
    assert!(control.enter());
    assert_eq!(control.admit_routed(source), Ok(()));
    assert!(control.enter());
    assert_eq!(control.admit_routed(source), Err(Rejection::RoutedSource));
    assert!(control.enter());
    assert_eq!(control.admit_routed(other), Ok(()));
    assert!(control.enter());
    assert_eq!(
        control.admit_routed(v4(192, 0, 2, 9)),
        Err(Rejection::Routed)
    );
    // Every place before the decision has been given back.
    assert!(control.enter());
    assert!(control.enter());
    assert!(!control.enter());
    control.finish_routed(source);
    assert_eq!(control.admit_routed(v4(192, 0, 2, 9)), Ok(()));
    control.finish_fallback();
    assert_eq!(control.admit_fallback(), Ok(()));
}

#[test]
fn rejections_have_an_error() {
    for (rejection, message) in [
        (
            Rejection::RoutedSource,
            "per-source routed admission limit reached",
        ),
        (Rejection::Routed, "routed admission limit reached"),
        (Rejection::Fallback, "fallback admission limit reached"),
    ] {
        let error = rejection.error();
        assert_eq!(error.kind, ErrorKind::WouldBlock);
        assert_eq!(error.message, message);
    }
}
