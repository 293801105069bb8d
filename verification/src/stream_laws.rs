//! What a client's first bytes are taken for: which server name is read out of
//! them, when they decide, and which of them are refused.

use vstd::prelude::*;
use vstd::string::StringSliceAdditionalSpecFns;

use crate::hello_laws::Hello;
use crate::tls::{ClassificationView, Outcome};

verus! {

/// The first server name extension of a ClientHello is the one at place `k`,
/// and the first host name in it, at place `m`, is this text.
pub open spec fn asks_for(
    hello: Hello,
    k: int,
    names: Seq<(u8, Seq<u8>)>,
    m: int,
    text: Seq<char>,
) -> bool {
    &&& hello.extensions matches Some(list) && {
        &&& 0 <= k < list.len()
        &&& list[k] == (0u16, crate::hello_laws::field16(crate::hello_laws::names_wire(names)))
        &&& forall|j: int| 0 <= j < k ==> (#[trigger] list[j]).0 != 0
    }
    &&& crate::hello_laws::names_wire(names).len() <= 65535
    &&& 0 <= m < names.len()
    &&& names[m] == (0u8, vstd::utf8::encode_utf8(text))
    &&& forall|j: int| 0 <= j < m ==> (#[trigger] names[j]).0 != 0
}

/// A ClientHello has no server name extension.
pub open spec fn asks_for_none(hello: Hello) -> bool {
    hello.extensions matches Some(list) ==> forall|j: int|
        0 <= j < list.len() ==> (#[trigger] list[j]).0 != 0
}

proof fn lemma_listed_sni(list: Seq<(u16, Seq<u8>)>, k: int)
    requires
        0 <= k < list.len(),
        list[k].0 == 0,
        forall|j: int| 0 <= j < k ==> (#[trigger] list[j]).0 != 0,
    ensures
        crate::hello_laws::listed_sni(list) == crate::client_hello::name_list_sni(list[k].1),
    decreases k,
{
    if k > 0 {
        let rest = list.drop_first();
        assert(list[0].0 != 0);
        assert forall|j: int| 0 <= j < k - 1 implies (#[trigger] rest[j]).0 != 0 by {
            assert(rest[j] == list[j + 1]);
        }
        lemma_listed_sni(rest, k - 1);
    }
}

proof fn lemma_unlisted_sni(list: Seq<(u16, Seq<u8>)>)
    requires
        forall|j: int| 0 <= j < list.len() ==> (#[trigger] list[j]).0 != 0,
    ensures
        crate::hello_laws::listed_sni(list) == Ok::<Option<Seq<char>>, Seq<char>>(None),
    decreases list.len(),
{
    if list.len() > 0 {
        let rest = list.drop_first();
        assert(list[0].0 != 0);
        assert forall|j: int| 0 <= j < rest.len() implies (#[trigger] rest[j]).0 != 0 by {
            assert(rest[j] == list[j + 1]);
        }
        lemma_unlisted_sni(rest);
    }
}

proof fn lemma_listed_host(names: Seq<(u8, Seq<u8>)>, m: int)
    requires
        0 <= m < names.len(),
        names[m].0 == 0,
        forall|j: int| 0 <= j < m ==> (#[trigger] names[j]).0 != 0,
    ensures
        crate::hello_laws::listed_host(names) == crate::client_hello::host_name_sni(names[m].1),
    decreases m,
{
    if m > 0 {
        let rest = names.drop_first();
        assert(names[0].0 != 0);
        assert forall|j: int| 0 <= j < m - 1 implies (#[trigger] rest[j]).0 != 0 by {
            assert(rest[j] == names[j + 1]);
        }
        lemma_listed_host(rest, m - 1);
    }
}

/// The host that a ClientHello asks for is read out of it in lower case and
/// without dots at its end, whatever other extensions and names stand beside
/// it, where it is spelled as a hostname is and not too long. Otherwise the
/// ClientHello is refused.
pub proof fn law_server_name_is_read(
    hello: Hello,
    k: int,
    names: Seq<(u8, Seq<u8>)>,
    m: int,
    name: Seq<char>,
    n: nat,
    lower: Seq<char>,
)
    requires
        hello.well_formed(),
        name.len() > 0 ==> name.last() != '.',
        asks_for(hello, k, names, m, name + crate::hostname_laws::dots(n)),
        crate::hostname_laws::is_small_of(lower, name),
    ensures
        crate::client_hello::hello_sni(hello.wire()) == if crate::hostname_laws::spelled(name)
            && name.len() + n <= 253 {
            Ok::<Option<Seq<char>>, Seq<char>>(Some(lower))
        } else {
            Err("invalid SNI hostname"@)
        },
{
    let text = name + crate::hostname_laws::dots(n);
    crate::hello_laws::law_written_hello_is_read(hello);
    lemma_listed_sni(hello.extensions->0, k);
    crate::hello_laws::law_written_names_are_read(names);
    lemma_listed_host(names, m);
    vstd::utf8::encode_utf8_valid_utf8(text);
    vstd::utf8::encode_utf8_decode_utf8(text);
    crate::hostname_laws::law_server_names_are_taken(name, n, lower);
}

/// A ClientHello without a server name extension asks for no host.
pub proof fn law_missing_server_name_is_read(hello: Hello)
    requires
        hello.well_formed(),
        asks_for_none(hello),
    ensures
        crate::client_hello::hello_sni(hello.wire()) == Ok::<Option<Seq<char>>, Seq<char>>(None),
{
    crate::hello_laws::law_written_hello_is_read(hello);
    if let Some(list) = hello.extensions {
        lemma_unlisted_sni(list);
    }
}

/// Bytes that stand in handshake records of a known version, each with one to
/// 18432 bytes of payload.
pub open spec fn in_records(bytes: Seq<u8>, records: Seq<(u8, Seq<u8>)>) -> bool {
    &&& bytes.is_prefix_of(crate::hello_laws::payloads(records))
    &&& forall|i: int|
        0 <= i < records.len() ==> 1 <= (#[trigger] records[i]).0 <= 4 && 1 <= records[i].1.len()
            <= 18_432
}

/// A ClientHello as a handshake message.
pub open spec fn hello_message(hello: Hello) -> Seq<u8> {
    crate::hello_laws::message_wire(1, hello.wire())
}

/// A client that asks for a host over TLS is known by that host, however its
/// ClientHello is cut into records and whatever follows it.
pub proof fn law_stream_tells_its_server_name(
    hello: Hello,
    k: int,
    names: Seq<(u8, Seq<u8>)>,
    m: int,
    name: Seq<char>,
    n: nat,
    lower: Seq<char>,
    records: Seq<(u8, Seq<u8>)>,
    more: Seq<u8>,
)
    requires
        hello.well_formed(),
        asks_for(hello, k, names, m, name + crate::hostname_laws::dots(n)),
        crate::hostname_laws::spelled(name),
        name.len() + n <= 253,
        crate::hostname_laws::is_small_of(lower, name),
        in_records(hello_message(hello), records),
    ensures
        crate::tls::stream_outcome(crate::hello_laws::records_wire(records) + more)
            == Outcome::Complete(ClassificationView::Tls { sni: Some(lower) }),
{
    law_server_name_is_read(hello, k, names, m, name, n, lower);
    crate::hello_laws::law_written_hello_is_read(hello);
    lemma_in_records(hello_message(hello), records);
    crate::hello_laws::law_cut_hello_is_read(hello, records);
    crate::tls_laws::law_stable(crate::hello_laws::records_wire(records), more);
}

/// A client that asks for no host over TLS is known to ask for none.
pub proof fn law_stream_tells_no_server_name(
    hello: Hello,
    records: Seq<(u8, Seq<u8>)>,
    more: Seq<u8>,
)
    requires
        hello.well_formed(),
        asks_for_none(hello),
        in_records(hello_message(hello), records),
    ensures
        crate::tls::stream_outcome(crate::hello_laws::records_wire(records) + more)
            == Outcome::Complete(ClassificationView::Tls { sni: None }),
{
    law_missing_server_name_is_read(hello);
    crate::hello_laws::law_written_hello_is_read(hello);
    lemma_in_records(hello_message(hello), records);
    crate::hello_laws::law_cut_hello_is_read(hello, records);
    crate::tls_laws::law_stable(crate::hello_laws::records_wire(records), more);
}

proof fn lemma_in_records(bytes: Seq<u8>, records: Seq<(u8, Seq<u8>)>)
    requires
        in_records(bytes, records),
    ensures
        bytes.is_prefix_of(crate::hello_laws::payloads(records)),
        forall|i: int|
            0 <= i < records.len() ==> crate::hello_laws::fits_record(
                (#[trigger] records[i]).0,
                records[i].1,
            ),
{
}

proof fn lemma_undecided(
    body: Seq<u8>,
    before: Seq<u8>,
    records: Seq<(u8, Seq<u8>)>,
    n: int,
)
    requires
        1 <= body.len() <= 0xff_ffff,
        records.len() > 0,
        before.len() + crate::hello_laws::payloads(records.drop_last()).len() < body.len() + 4,
        (before + crate::hello_laws::payloads(records.drop_last())).is_prefix_of(
            crate::hello_laws::message_wire(1, body),
        ),
        forall|i: int|
            0 <= i < records.len() ==> crate::hello_laws::fits_record(
                (#[trigger] records[i]).0,
                records[i].1,
            ),
        0 <= n < crate::hello_laws::records_wire(records).len(),
    ensures
        crate::tls::records_outcome(before, crate::hello_laws::records_wire(records).take(n))
            is NeedMore,
    decreases records.len(),
{
    let stream = crate::hello_laws::records_wire(records);
    let cut = stream.take(n);
    let payload = records[0].1;
    let len = payload.len() as int;
    crate::hello_laws::lemma_first_record(records);
    if n >= 5 {
        assert(cut.take(5) =~= stream.take(5));
    }
    if n >= 5 + len {
        let rest = records.drop_first();
        let after = before + payload;
        assert(cut.subrange(5, 5 + len) =~= payload);
        assert(stream.skip(5 + len) == crate::hello_laws::records_wire(rest));
        assert(cut.skip(5 + len) =~= crate::hello_laws::records_wire(rest).take(n - 5 - len));
        assert(rest.len() > 0);
        assert(records.drop_last().drop_first() =~= rest.drop_last());
        assert(records.drop_last().first() == records[0]);
        let whole = before + crate::hello_laws::payloads(records.drop_last());
        assert(after + crate::hello_laws::payloads(rest.drop_last()) =~= whole);
        let message = crate::hello_laws::message_wire(1, body);
        assert(whole =~= message.subrange(0, whole.len() as int));
        assert(after =~= message.subrange(0, after.len() as int));
        crate::hello_laws::lemma_prefix_undecided(body, after);
        assert forall|i: int| 0 <= i < rest.len() implies crate::hello_laws::fits_record(
            (#[trigger] rest[i]).0,
            rest[i].1,
        ) by {
            assert(rest[i] == records[i + 1]);
        }
        lemma_undecided(body, after, rest, n - 5 - len);
    }
}

/// Nothing is decided before the record that holds the last byte of the
/// ClientHello has arrived in full.
pub proof fn law_undecided_before_the_last_record(
    hello: Hello,
    records: Seq<(u8, Seq<u8>)>,
    n: int,
)
    requires
        hello.well_formed(),
        records.len() > 0,
        in_records(hello_message(hello), records),
        crate::hello_laws::payloads(records.drop_last()).len() < hello_message(hello).len(),
        0 <= n < crate::hello_laws::records_wire(records).len(),
    ensures
        crate::tls::stream_outcome(crate::hello_laws::records_wire(records).take(n)) is NeedMore,
{
    let stream = crate::hello_laws::records_wire(records);
    let message = hello_message(hello);
    let body = hello.wire();
    lemma_in_records(message, records);
    crate::hello_laws::lemma_hello_len(hello);
    let front = crate::hello_laws::payloads(records.drop_last());
    lemma_payloads_drop_last(records);
    assert(Seq::<u8>::empty() + front =~= front);
    let all = crate::hello_laws::payloads(records);
    assert(message =~= all.subrange(0, message.len() as int));
    assert(front =~= message.subrange(0, front.len() as int)) by {
        assert(all =~= front + records.last().1);
    }
    lemma_undecided(body, Seq::empty(), records, n);
    if n > 0 {
        assert(stream.take(n)[0] == stream[0]);
        assert(stream[0] == 22);
    }
}

proof fn lemma_payloads_drop_last(records: Seq<(u8, Seq<u8>)>)
    requires
        records.len() > 0,
    ensures
        crate::hello_laws::payloads(records) == crate::hello_laws::payloads(records.drop_last())
            + records.last().1,
    decreases records.len(),
{
    if records.len() > 1 {
        let rest = records.drop_first();
        lemma_payloads_drop_last(rest);
        assert(records.drop_last().drop_first() =~= rest.drop_last());
        assert(records.drop_last().first() == records.first());
        assert(crate::hello_laws::payloads(records) =~= records.first().1 + (
        crate::hello_laws::payloads(rest.drop_last()) + rest.last().1));
        assert(crate::hello_laws::payloads(records.drop_last()) == records.first().1
            + crate::hello_laws::payloads(rest.drop_last()));
    } else {
        assert(records.drop_first() =~= Seq::empty());
        assert(records.drop_last() =~= Seq::empty());
        assert(crate::hello_laws::payloads(Seq::<(u8, Seq<u8>)>::empty()) =~= Seq::empty());
        assert(crate::hello_laws::payloads(records) =~= records.last().1);
    }
}

/// A request method with the blank behind it.
pub open spec fn http_method(method: Seq<u8>) -> bool {
    ||| method == "GET ".spec_bytes()
    ||| method == "HEAD ".spec_bytes()
    ||| method == "POST ".spec_bytes()
    ||| method == "PUT ".spec_bytes()
    ||| method == "DELETE ".spec_bytes()
    ||| method == "OPTIONS ".spec_bytes()
    ||| method == "PATCH ".spec_bytes()
    ||| method == "CONNECT ".spec_bytes()
    ||| method == "TRACE ".spec_bytes()
}

proof fn lemma_methods(method: Seq<u8>)
    ensures
        http_method(method) <==> exists|i: int|
            0 <= i < crate::tls::methods().len() && #[trigger] crate::tls::methods()[i] == method,
{
    let list = crate::tls::methods();
    if http_method(method) {
        assert(list[0] == method || list[1] == method || list[2] == method || list[3] == method
            || list[4] == method || list[5] == method || list[6] == method || list[7] == method
            || list[8] == method);
    }
}

proof fn lemma_method_bytes(method: Seq<u8>)
    requires
        http_method(method),
    ensures
        4 <= method.len() <= 8,
        method[0] != 22,
{
    lemma_methods(method);
    let i = choose|i: int|
        0 <= i < crate::tls::methods().len() && #[trigger] crate::tls::methods()[i] == method;
    crate::tls_laws::lemma_method_len(i);
    reveal_strlit("GET ");
    reveal_strlit("HEAD ");
    reveal_strlit("POST ");
    reveal_strlit("PUT ");
    reveal_strlit("DELETE ");
    reveal_strlit("OPTIONS ");
    reveal_strlit("PATCH ");
    reveal_strlit("CONNECT ");
    reveal_strlit("TRACE ");
    vstd::utf8::is_ascii_chars_encode_utf8("GET "@);
    vstd::utf8::is_ascii_chars_encode_utf8("HEAD "@);
    vstd::utf8::is_ascii_chars_encode_utf8("POST "@);
    vstd::utf8::is_ascii_chars_encode_utf8("PUT "@);
    vstd::utf8::is_ascii_chars_encode_utf8("DELETE "@);
    vstd::utf8::is_ascii_chars_encode_utf8("OPTIONS "@);
    vstd::utf8::is_ascii_chars_encode_utf8("PATCH "@);
    vstd::utf8::is_ascii_chars_encode_utf8("CONNECT "@);
    vstd::utf8::is_ascii_chars_encode_utf8("TRACE "@);
}

/// A stream that starts with a request method is plain HTTP, whatever comes
/// after it, and until the method is complete more is needed.
pub proof fn law_requests_are_plain_http(method: Seq<u8>, rest: Seq<u8>, n: int)
    requires
        http_method(method),
        0 <= n < method.len(),
    ensures
        crate::tls::stream_outcome(method + rest) == Outcome::Complete(
            ClassificationView::PlainHttp,
        ),
        crate::tls::stream_outcome(method.take(n)) is NeedMore,
{
    lemma_methods(method);
    lemma_method_bytes(method);
    let i = choose|i: int|
        0 <= i < crate::tls::methods().len() && #[trigger] crate::tls::methods()[i] == method;
    let stream = method + rest;
    assert(method =~= stream.subrange(0, method.len() as int));
    assert(crate::tls::methods()[i].is_prefix_of(stream));
    assert(stream[0] == method[0]);
    let cut = method.take(n);
    assert(cut =~= method.subrange(0, cut.len() as int));
    assert(cut.is_prefix_of(crate::tls::methods()[i]));
    if n > 0 {
        assert(cut[0] == method[0]);
        if crate::tls::starts_with_method(cut) {
            let j = choose|j: int|
                0 <= j < crate::tls::methods().len() && (
                #[trigger] crate::tls::methods()[j]).is_prefix_of(cut);
            let other = crate::tls::methods()[j];
            lemma_methods(other);
            lemma_one_blank(method);
            lemma_one_blank(other);
            let at = other.len() - 1;
            assert(other[at] == cut[at]);
            assert(cut[at] == method[at]);
        }
    }
}

pub proof fn lemma_one_blank(method: Seq<u8>)
    requires
        http_method(method),
    ensures
        method.len() > 0,
        method.last() == 32,
        forall|i: int| 0 <= i < method.len() - 1 ==> #[trigger] method[i] != 32,
{
    reveal_strlit("GET ");
    reveal_strlit("HEAD ");
    reveal_strlit("POST ");
    reveal_strlit("PUT ");
    reveal_strlit("DELETE ");
    reveal_strlit("OPTIONS ");
    reveal_strlit("PATCH ");
    reveal_strlit("CONNECT ");
    reveal_strlit("TRACE ");
    vstd::utf8::is_ascii_chars_encode_utf8("GET "@);
    vstd::utf8::is_ascii_chars_encode_utf8("HEAD "@);
    vstd::utf8::is_ascii_chars_encode_utf8("POST "@);
    vstd::utf8::is_ascii_chars_encode_utf8("PUT "@);
    vstd::utf8::is_ascii_chars_encode_utf8("DELETE "@);
    vstd::utf8::is_ascii_chars_encode_utf8("OPTIONS "@);
    vstd::utf8::is_ascii_chars_encode_utf8("PATCH "@);
    vstd::utf8::is_ascii_chars_encode_utf8("CONNECT "@);
    vstd::utf8::is_ascii_chars_encode_utf8("TRACE "@);
}

/// A stream that is not TLS is plain HTTP only if it starts with a request
/// method, and is waited for only while it may still come to start with one.
/// Any other is refused.
pub proof fn law_other_streams_are_refused(stream: Seq<u8>)
    requires
        stream.len() > 0,
        stream[0] != 22,
        forall|method: Seq<u8>| #[trigger]
            http_method(method) ==> !method.is_prefix_of(stream) && !stream.is_prefix_of(method),
    ensures
        crate::tls::stream_outcome(stream) == Outcome::Invalid(
            "neither TLS nor supported plain HTTP"@,
        ),
{
    assert forall|i: int| 0 <= i < crate::tls::methods().len() implies !(
    #[trigger] crate::tls::methods()[i]).is_prefix_of(stream) && !stream.is_prefix_of(
        crate::tls::methods()[i],
    ) by {
        lemma_methods(crate::tls::methods()[i]);
        assert(http_method(crate::tls::methods()[i]));
    }
}

/// What is wrong with the header of a record.
pub open spec fn header_problem(header: Seq<u8>) -> Option<Seq<char>> {
    let len = header[3] * 256 + header[4];
    if header[0] != 22 {
        Some("unexpected TLS record type"@)
    } else if header[1] != 3 || header[2] == 0 || header[2] > 4 {
        Some("unsupported TLS record version"@)
    } else if len < 1 || len > 18_432 {
        Some("invalid TLS record length"@)
    } else {
        None
    }
}

proof fn lemma_bad_record(
    body: Seq<u8>,
    before: Seq<u8>,
    records: Seq<(u8, Seq<u8>)>,
    bad: Seq<u8>,
)
    requires
        1 <= body.len() <= 0xff_ffff,
        before.len() + crate::hello_laws::payloads(records).len() < body.len() + 4,
        (before + crate::hello_laws::payloads(records)).is_prefix_of(
            crate::hello_laws::message_wire(1, body),
        ),
        forall|i: int|
            0 <= i < records.len() ==> crate::hello_laws::fits_record(
                (#[trigger] records[i]).0,
                records[i].1,
            ),
        bad.len() >= 5,
        header_problem(bad) is Some,
    ensures
        crate::tls::records_outcome(before, crate::hello_laws::records_wire(records) + bad)
            == Outcome::Invalid(header_problem(bad)->0),
    decreases records.len(),
{
    let stream = crate::hello_laws::records_wire(records) + bad;
    if records.len() == 0 {
        assert(stream =~= bad);
        assert(bad.take(5)[3] == bad[3]);
    } else {
        let wire = crate::hello_laws::records_wire(records);
        let payload = records[0].1;
        let len = payload.len() as int;
        let rest = records.drop_first();
        let after = before + payload;
        crate::hello_laws::lemma_first_record(records);
        assert(stream.take(5) =~= wire.take(5));
        assert(stream.subrange(5, 5 + len) =~= payload);
        assert(stream.skip(5 + len) =~= crate::hello_laws::records_wire(rest) + bad);
        let whole = before + crate::hello_laws::payloads(records);
        assert(after + crate::hello_laws::payloads(rest) =~= whole);
        let message = crate::hello_laws::message_wire(1, body);
        assert(whole =~= message.subrange(0, whole.len() as int));
        assert(after =~= message.subrange(0, after.len() as int));
        crate::hello_laws::lemma_prefix_undecided(body, after);
        assert forall|i: int| 0 <= i < rest.len() implies crate::hello_laws::fits_record(
            (#[trigger] rest[i]).0,
            rest[i].1,
        ) by {
            assert(rest[i] == records[i + 1]);
        }
        lemma_bad_record(body, after, rest, bad);
    }
}

/// A record that is none of a handshake, of a known version and with one to
/// 18432 bytes of payload is refused, wherever in the ClientHello it comes.
pub proof fn law_bad_records_are_refused(
    hello: Hello,
    records: Seq<(u8, Seq<u8>)>,
    bad: Seq<u8>,
)
    requires
        hello.well_formed(),
        in_records(Seq::empty(), records),
        crate::hello_laws::payloads(records).is_prefix_of(hello_message(hello)),
        crate::hello_laws::payloads(records).len() < hello_message(hello).len(),
        bad.len() >= 5,
        header_problem(bad) is Some,
        records.len() > 0 || bad[0] == 22,
    ensures
        crate::tls::stream_outcome(crate::hello_laws::records_wire(records) + bad)
            == Outcome::Invalid(header_problem(bad)->0),
{
    let front = crate::hello_laws::payloads(records);
    let stream = crate::hello_laws::records_wire(records) + bad;
    lemma_in_records(Seq::empty(), records);
    crate::hello_laws::lemma_hello_len(hello);
    assert(Seq::<u8>::empty() + front =~= front);
    lemma_bad_record(hello.wire(), Seq::empty(), records, bad);
    if records.len() > 0 {
        assert(stream[0] == crate::hello_laws::records_wire(records)[0]);
    } else {
        assert(stream =~= bad);
    }
}

/// A first handshake message that is no ClientHello, or an empty one, is
/// refused as soon as its record is there.
pub proof fn law_other_messages_are_refused(minor: u8, payload: Seq<u8>, more: Seq<u8>)
    requires
        1 <= minor <= 4,
        4 <= payload.len() <= 18_432,
        payload[0] != 1 || (payload[1] == 0 && payload[2] == 0 && payload[3] == 0),
    ensures
        crate::tls::stream_outcome(crate::hello_laws::record_wire(minor, payload) + more)
            == Outcome::Invalid(
            if payload[0] != 1 {
                "first handshake is not ClientHello"@
            } else {
                "empty ClientHello"@
            },
        ),
{
    let records = seq![(minor, payload)];
    let wire = crate::hello_laws::record_wire(minor, payload);
    assert(records.drop_first() =~= Seq::empty());
    assert(crate::hello_laws::records_wire(Seq::<(u8, Seq<u8>)>::empty()) =~= Seq::empty());
    assert(crate::hello_laws::records_wire(records) =~= wire);
    crate::hello_laws::lemma_first_record(records);
    let stream = wire + more;
    let len = payload.len() as int;
    assert(stream.take(5) =~= wire.take(5));
    assert(stream.subrange(5, 5 + len) =~= payload);
    assert(Seq::<u8>::empty() + payload =~= payload);
}

/// The fields of a ClientHello before its extensions, each within the length
/// that its length field can tell.
pub open spec fn fields_fit(hello: Hello) -> bool {
    &&& hello.opening.len() == 34
    &&& hello.session.len() <= 255
    &&& hello.suites.len() <= 65535
    &&& hello.compression.len() <= 255
}

/// What the length fields of a ClientHello tell, in a stretch of bytes that
/// starts as it does.
proof fn lemma_lengths(hello: Hello, bytes: Seq<u8>, n: int)
    requires
        fields_fit(hello),
        0 <= n <= hello.front().len(),
        n <= bytes.len(),
        bytes.take(n) == hello.front().take(n),
    ensures
        ({
            let suites_at = 35 + hello.session.len() as int;
            let compression_at = suites_at + 2 + hello.suites.len();
            &&& hello.front().len() == compression_at + 1 + hello.compression.len()
            &&& n > 34 ==> bytes[34] == hello.session.len()
            &&& n >= suites_at + 2 ==> crate::client_hello::be16(bytes, suites_at)
                == hello.suites.len()
            &&& n > compression_at ==> bytes[compression_at] == hello.compression.len()
        }),
{
    let front = hello.front();
    let suites_at = 35 + hello.session.len() as int;
    let compression_at = suites_at + 2 + hello.suites.len();
    assert(forall|i: int| 0 <= i < n ==> #[trigger] bytes.take(n)[i] == bytes[i]);
    assert(forall|i: int| 0 <= i < n ==> #[trigger] front.take(n)[i] == front[i]);
    if n > 34 {
        assert(bytes.take(n)[34] == front.take(n)[34]);
        assert(front[34] == crate::hello_laws::field8(hello.session)[0]);
    }
    if n >= suites_at + 2 {
        assert(bytes.take(n)[suites_at] == front.take(n)[suites_at]);
        assert(bytes.take(n)[suites_at + 1] == front.take(n)[suites_at + 1]);
        assert(front[suites_at] == crate::hello_laws::field16(hello.suites)[0]);
        assert(front[suites_at + 1] == crate::hello_laws::field16(hello.suites)[1]);
    }
    if n > compression_at {
        assert(bytes.take(n)[compression_at] == front.take(n)[compression_at]);
        assert(front[compression_at] == crate::hello_laws::field8(hello.compression)[0]);
    }
}

/// A ClientHello that is cut short is refused, wherever it is cut, but for the
/// place where its extensions would start: without them it is whole.
pub proof fn law_truncated_hello_is_refused(hello: Hello, n: int)
    requires
        hello.well_formed(),
        0 <= n < hello.wire().len(),
        n != hello.front().len(),
    ensures
        crate::client_hello::hello_sni(hello.wire().take(n)) == Err::<
            Option<Seq<char>>,
            Seq<char>,
        >("truncated ClientHello field"@),
{
    let wire = hello.wire();
    let front = hello.front();
    let cut = wire.take(n);
    let at = front.len() as int;
    let seen = if n < at {
        n
    } else {
        at
    };
    assert(cut.take(seen) =~= front.take(seen));
    lemma_lengths(hello, cut, seen);
    if n >= at + 2 {
        let block = crate::hello_laws::extensions_wire(hello.extensions->0);
        assert(cut[at] == crate::hello_laws::field16(block)[0]);
        assert(cut[at + 1] == crate::hello_laws::field16(block)[1]);
        assert(crate::client_hello::be16(cut, at) == block.len());
    }
}

/// A ClientHello without cipher suites, with half of one, or without a
/// compression method is refused.
pub proof fn law_bad_vectors_are_refused(hello: Hello)
    requires
        fields_fit(hello),
    ensures
        hello.suites.len() == 0 || hello.suites.len() % 2 == 1 ==> crate::client_hello::hello_sni(
            hello.wire(),
        ) == Err::<Option<Seq<char>>, Seq<char>>("invalid cipher suite vector"@),
        hello.suites.len() > 0 && hello.suites.len() % 2 == 0 && hello.compression.len() == 0
            ==> crate::client_hello::hello_sni(hello.wire()) == Err::<
            Option<Seq<char>>,
            Seq<char>,
        >("empty compression vector"@),
{
    let at = hello.front().len() as int;
    assert(hello.wire().take(at) =~= hello.front().take(at));
    lemma_lengths(hello, hello.wire(), at);
}

/// Bytes behind the extensions of a ClientHello are refused.
pub proof fn law_trailing_bytes_are_refused(hello: Hello, extra: Seq<u8>)
    requires
        hello.well_formed(),
        hello.extensions is Some,
        extra.len() > 0,
    ensures
        crate::client_hello::hello_sni(hello.wire() + extra) == Err::<
            Option<Seq<char>>,
            Seq<char>,
        >("trailing ClientHello bytes"@),
{
    let at = hello.front().len() as int;
    let block = crate::hello_laws::extensions_wire(hello.extensions->0);
    let bytes = hello.wire() + extra;
    assert(bytes.take(at) =~= hello.front().take(at));
    lemma_lengths(hello, bytes, at);
    lemma_trailing_block(hello.front(), block, extra);
    assert(bytes =~= hello.front() + crate::hello_laws::field16(block) + extra);
    assert(crate::client_hello::compression_onward(
        bytes,
        at - 1 - hello.compression.len(),
    ) == crate::client_hello::extension_block(bytes, at));
}

proof fn lemma_trailing_block(front: Seq<u8>, block: Seq<u8>, extra: Seq<u8>)
    requires
        front.len() <= 0x2_0000,
        block.len() <= 65535,
        extra.len() > 0,
    ensures
        crate::client_hello::extension_block(
            front + crate::hello_laws::field16(block) + extra,
            front.len() as int,
        ) == Err::<Option<Seq<char>>, Seq<char>>("trailing ClientHello bytes"@),
{
    let at = front.len() as int;
    let bytes = front + crate::hello_laws::field16(block) + extra;
    assert(bytes[at] == crate::hello_laws::field16(block)[0]);
    assert(bytes[at + 1] == crate::hello_laws::field16(block)[1]);
    assert(crate::client_hello::be16(bytes, at) == block.len());
}

/// Bytes behind the list of names in a server name extension are refused.
pub proof fn law_trailing_names_are_refused(names: Seq<u8>, extra: Seq<u8>)
    requires
        names.len() <= 65535,
        extra.len() > 0,
    ensures
        crate::client_hello::name_list_sni(crate::hello_laws::field16(names) + extra) == Err::<
            Option<Seq<char>>,
            Seq<char>,
        >("trailing SNI extension bytes"@),
{
    let extension = crate::hello_laws::field16(names) + extra;
    assert(extension[0] == crate::hello_laws::field16(names)[0]);
    assert(extension[1] == crate::hello_laws::field16(names)[1]);
    assert(crate::client_hello::be16(extension, 0) == names.len());
}

/// A server name that is no text is refused.
pub proof fn law_server_names_are_text(name: Seq<u8>)
    requires
        !vstd::utf8::valid_utf8(name),
    ensures
        crate::client_hello::host_name_sni(name) == Err::<Option<Seq<char>>, Seq<char>>(
            "SNI hostname is not UTF-8"@,
        ),
{
}

/// Bytes start with a request method, or are the start of one, by the list of
/// the nine methods.
pub proof fn law_methods_are_told(bytes: Seq<u8>)
    ensures
        crate::tls::starts_with_method(bytes) <==> exists|method: Seq<u8>| #[trigger]
            http_method(method) && method.is_prefix_of(bytes),
        crate::tls::starts_a_method(bytes) <==> exists|method: Seq<u8>| #[trigger]
            http_method(method) && bytes.is_prefix_of(method),
{
    let list = crate::tls::methods();
    if crate::tls::starts_with_method(bytes) {
        let i = choose|i: int| 0 <= i < list.len() && (#[trigger] list[i]).is_prefix_of(bytes);
        lemma_methods(list[i]);
        assert(http_method(list[i]));
    }
    if crate::tls::starts_a_method(bytes) {
        let i = choose|i: int| 0 <= i < list.len() && bytes.is_prefix_of(#[trigger] list[i]);
        lemma_methods(list[i]);
        assert(http_method(list[i]));
    }
    assert forall|method: Seq<u8>| #[trigger] http_method(method) implies exists|i: int|
        0 <= i < list.len() && #[trigger] list[i] == method by {
        lemma_methods(method);
    }
}

/// An answer of the classifier is seen as what it is.
pub proof fn law_answers_are_seen(
    result: Result<crate::tls::ParseProgress, crate::tls::ParseError>,
)
    ensures
        match result {
            Ok(crate::tls::ParseProgress::NeedMore) => crate::tls::outcome(result) is NeedMore,
            Ok(crate::tls::ParseProgress::Complete(crate::tls::Classification::PlainHttp)) =>
            crate::tls::outcome(result) == Outcome::Complete(ClassificationView::PlainHttp),
            Ok(
                crate::tls::ParseProgress::Complete(crate::tls::Classification::Tls { sni: None }),
            ) => crate::tls::outcome(result) == Outcome::Complete(
                ClassificationView::Tls { sni: None },
            ),
            Ok(
                crate::tls::ParseProgress::Complete(
                    crate::tls::Classification::Tls { sni: Some(name) },
                ),
            ) => crate::tls::outcome(result) == Outcome::Complete(
                ClassificationView::Tls { sni: Some(name@) },
            ),
            Err(crate::tls::ParseError::Invalid(message)) => crate::tls::outcome(result)
                == Outcome::Invalid(message@),
        },
{
}

/// A server name that was parsed is seen as what it is.
pub proof fn law_parsed_names_are_seen(result: Result<Option<String>, crate::tls::ParseError>)
    ensures
        match result {
            Ok(Some(name)) => crate::client_hello::sni_view(result) == Ok::<
                Option<Seq<char>>,
                Seq<char>,
            >(Some(name@)),
            Ok(None) => crate::client_hello::sni_view(result) == Ok::<
                Option<Seq<char>>,
                Seq<char>,
            >(None),
            Err(crate::tls::ParseError::Invalid(message)) => crate::client_hello::sni_view(result)
                == Err::<Option<Seq<char>>, Seq<char>>(message@),
        },
{
}

/// A field is there if and only if the input goes that far.
pub proof fn law_fields_are_within_their_input(input: Seq<u8>, at: int, len: int)
    requires
        input.len() <= usize::MAX,
    ensures
        crate::client_hello::field_end(input, at, len) == if at + len <= input.len() {
            Ok::<int, Seq<char>>(at + len)
        } else if at + len <= usize::MAX {
            Err("truncated ClientHello field"@)
        } else {
            Err("length overflow"@)
        },
{
}

/// A number of two bytes has its high byte first.
pub proof fn law_numbers_are_big_endian(high: u8, low: u8, before: Seq<u8>, after: Seq<u8>)
    ensures
        crate::client_hello::be16(
            before + seq![high, low] + after,
            before.len() as int,
        ) == high * 256 + low,
{
    let all = before + seq![high, low] + after;
    let at = before.len() as int;
    assert(all[at] == high);
    assert(all[at + 1] == low);
}

/// The extensions of a ClientHello are what its last field holds.
pub proof fn law_extensions_are_the_last_field(hello: Hello, block: Seq<u8>)
    requires
        hello.well_formed(),
        block.len() <= 65535,
    ensures
        crate::client_hello::hello_sni(hello.front() + crate::hello_laws::field16(block))
            == crate::client_hello::extensions_sni(block, 0),
{
    let front = hello.front();
    let at = front.len() as int;
    let bytes = front + crate::hello_laws::field16(block);
    assert(bytes.take(at) =~= front.take(at));
    lemma_lengths(hello, bytes, at);
    assert(crate::client_hello::compression_onward(
        bytes,
        at - 1 - hello.compression.len(),
    ) == crate::client_hello::extension_block(bytes, at));
    assert(bytes[at] == crate::hello_laws::field16(block)[0]);
    assert(bytes[at + 1] == crate::hello_laws::field16(block)[1]);
    assert(crate::client_hello::be16(bytes, at) == block.len());
    assert(bytes.subrange(at + 2, bytes.len() as int) =~= block);
}

/// The names in a server name extension are what its one field holds.
pub proof fn law_names_are_the_one_field(names: Seq<u8>)
    requires
        names.len() <= 65535,
    ensures
        crate::client_hello::name_list_sni(crate::hello_laws::field16(names))
            == crate::client_hello::names_sni(names, 0),
{
    let extension = crate::hello_laws::field16(names);
    assert(extension[0] == crate::hello_laws::number16(names.len() as int)[0]);
    assert(extension[1] == crate::hello_laws::number16(names.len() as int)[1]);
    assert(crate::client_hello::be16(extension, 0) == names.len());
    assert(extension.subrange(2, extension.len() as int) =~= names);
}

proof fn lemma_skip_extensions(head: Seq<u8>, list: Seq<(u16, Seq<u8>)>, tail: Seq<u8>)
    requires
        forall|j: int| 0 <= j < list.len() ==> (#[trigger] list[j]).0 != 0,
        head.len() + crate::hello_laws::extensions_wire(list).len() + tail.len() <= 65535,
    ensures
        ({
            let all = head + crate::hello_laws::extensions_wire(list) + tail;
            crate::client_hello::extensions_sni(all, head.len() as int)
                == crate::client_hello::extensions_sni(all, all.len() - tail.len())
        }),
    decreases list.len(),
{
    let all = head + crate::hello_laws::extensions_wire(list) + tail;
    let at = head.len() as int;
    if list.len() > 0 {
        let (kind, payload) = list.first();
        let rest = list.drop_first();
        let len = payload.len() as int;
        let field = crate::hello_laws::field16(payload);
        let number = crate::hello_laws::number16(kind as int);
        let next = head + (number + field);
        assert(list[0].0 != 0);
        assert forall|j: int| 0 <= j < rest.len() implies (#[trigger] rest[j]).0 != 0 by {
            assert(rest[j] == list[j + 1]);
        }
        assert(all =~= next + crate::hello_laws::extensions_wire(rest) + tail);
        assert(all[at] == number[0] && all[at + 1] == number[1]);
        assert(all[at + 2] == field[0] && all[at + 3] == field[1]);
        assert(crate::client_hello::be16(all, at) == kind);
        assert(crate::client_hello::be16(all, at + 2) == len);
        lemma_skip_extensions(next, rest, tail);
    } else {
        assert(crate::hello_laws::extensions_wire(list).len() == 0);
    }
}

/// Bytes that cannot be an extension: less than its head, or less than the
/// payload that its head declares.
pub open spec fn half_an_extension(tail: Seq<u8>) -> bool {
    1 <= tail.len() < 4 || (tail.len() >= 4 && tail.len() < 4 + tail[2] * 256 + tail[3])
}

/// Extensions that end in the middle of one, before any server name was found,
/// are refused.
pub proof fn law_half_an_extension_is_refused(list: Seq<(u16, Seq<u8>)>, tail: Seq<u8>)
    requires
        forall|j: int| 0 <= j < list.len() ==> (#[trigger] list[j]).0 != 0,
        crate::hello_laws::extensions_wire(list).len() + tail.len() <= 65535,
        half_an_extension(tail),
    ensures
        crate::client_hello::extensions_sni(
            crate::hello_laws::extensions_wire(list) + tail,
            0,
        ) == Err::<Option<Seq<char>>, Seq<char>>("truncated ClientHello field"@),
{
    let wire = crate::hello_laws::extensions_wire(list);
    let at = wire.len() as int;
    let none = Seq::<u8>::empty();
    let cut = wire + tail;
    lemma_skip_extensions(none, list, tail);
    assert(none + wire + tail =~= cut);
    if tail.len() >= 4 {
        assert(cut[at + 2] == tail[2] && cut[at + 3] == tail[3]);
    }
}

/// The first server name extension decides, and nothing behind it is looked at.
pub proof fn law_first_server_name_decides(
    list: Seq<(u16, Seq<u8>)>,
    extension: Seq<u8>,
    tail: Seq<u8>,
)
    requires
        forall|j: int| 0 <= j < list.len() ==> (#[trigger] list[j]).0 != 0,
        crate::hello_laws::extensions_wire(list).len() + 4 + extension.len() + tail.len() <= 65535,
    ensures
        crate::client_hello::extensions_sni(
            crate::hello_laws::extensions_wire(list) + (seq![0u8, 0u8]
                + crate::hello_laws::field16(extension) + tail),
            0,
        ) == crate::client_hello::name_list_sni(extension),
{
    let wire = crate::hello_laws::extensions_wire(list);
    let at = wire.len() as int;
    let len = extension.len() as int;
    let none = Seq::<u8>::empty();
    let field = crate::hello_laws::field16(extension);
    let more = seq![0u8, 0u8] + field + tail;
    let all = wire + more;
    lemma_skip_extensions(none, list, more);
    assert(none + wire + more =~= all);
    assert(all[at] == 0 && all[at + 1] == 0);
    assert(all[at + 2] == field[0]);
    assert(all[at + 3] == field[1]);
    assert(crate::client_hello::be16(all, at + 2) == len);
    assert(all.subrange(at + 4, at + 4 + len) =~= extension);
}

proof fn lemma_skip_names(head: Seq<u8>, list: Seq<(u8, Seq<u8>)>, tail: Seq<u8>)
    requires
        forall|j: int| 0 <= j < list.len() ==> (#[trigger] list[j]).0 != 0,
        head.len() + crate::hello_laws::names_wire(list).len() + tail.len() <= 65535,
    ensures
        ({
            let all = head + crate::hello_laws::names_wire(list) + tail;
            crate::client_hello::names_sni(all, head.len() as int)
                == crate::client_hello::names_sni(all, all.len() - tail.len())
        }),
    decreases list.len(),
{
    let all = head + crate::hello_laws::names_wire(list) + tail;
    let at = head.len() as int;
    if list.len() > 0 {
        let (kind, name) = list.first();
        let rest = list.drop_first();
        let field = crate::hello_laws::field16(name);
        let next = head + (seq![kind] + field);
        assert(list[0].0 != 0);
        assert forall|j: int| 0 <= j < rest.len() implies (#[trigger] rest[j]).0 != 0 by {
            assert(rest[j] == list[j + 1]);
        }
        assert(all =~= next + crate::hello_laws::names_wire(rest) + tail);
        assert(all[at] == kind);
        assert(all[at + 1] == field[0] && all[at + 2] == field[1]);
        assert(crate::client_hello::be16(all, at + 1) == name.len());
        lemma_skip_names(next, rest, tail);
    } else {
        assert(crate::hello_laws::names_wire(list).len() == 0);
    }
}

/// A list of names that ends in the middle of one, before any host name was
/// found, is refused.
pub proof fn law_half_a_name_is_refused(list: Seq<(u8, Seq<u8>)>, tail: Seq<u8>)
    requires
        forall|j: int| 0 <= j < list.len() ==> (#[trigger] list[j]).0 != 0,
        crate::hello_laws::names_wire(list).len() + tail.len() <= 65535,
        1 <= tail.len() < 3 || (tail.len() >= 3 && tail.len() < 3 + tail[1] * 256 + tail[2]),
    ensures
        crate::client_hello::names_sni(crate::hello_laws::names_wire(list) + tail, 0) == Err::<
            Option<Seq<char>>,
            Seq<char>,
        >("truncated ClientHello field"@),
{
    let wire = crate::hello_laws::names_wire(list);
    let at = wire.len() as int;
    let none = Seq::<u8>::empty();
    let cut = wire + tail;
    lemma_skip_names(none, list, tail);
    assert(none + wire + tail =~= cut);
    if tail.len() >= 3 {
        assert(cut[at + 1] == tail[1] && cut[at + 2] == tail[2]);
    }
}

/// The first host name decides, and nothing behind it is looked at.
pub proof fn law_first_host_name_decides(list: Seq<(u8, Seq<u8>)>, name: Seq<u8>, tail: Seq<u8>)
    requires
        forall|j: int| 0 <= j < list.len() ==> (#[trigger] list[j]).0 != 0,
        crate::hello_laws::names_wire(list).len() + 3 + name.len() + tail.len() <= 65535,
    ensures
        crate::client_hello::names_sni(
            crate::hello_laws::names_wire(list) + (seq![0u8] + crate::hello_laws::field16(name)
                + tail),
            0,
        ) == crate::client_hello::host_name_sni(name),
{
    let wire = crate::hello_laws::names_wire(list);
    let at = wire.len() as int;
    let len = name.len() as int;
    let none = Seq::<u8>::empty();
    let field = crate::hello_laws::field16(name);
    let more = seq![0u8] + field + tail;
    let all = wire + more;
    lemma_skip_names(none, list, more);
    assert(none + wire + more =~= all);
    assert(all[at] == 0);
    assert(all[at + 1] == field[0]);
    assert(all[at + 2] == field[1]);
    assert(crate::client_hello::be16(all, at + 1) == len);
    assert(all.subrange(at + 3, at + 3 + len) =~= name);
}

/// A list without a host name names no host.
pub proof fn law_other_names_are_skipped(list: Seq<(u8, Seq<u8>)>)
    requires
        forall|j: int| 0 <= j < list.len() ==> (#[trigger] list[j]).0 != 0,
        crate::hello_laws::names_wire(list).len() <= 65535,
    ensures
        crate::client_hello::names_sni(crate::hello_laws::names_wire(list), 0) == Ok::<
            Option<Seq<char>>,
            Seq<char>,
        >(None),
{
    let none = Seq::<u8>::empty();
    let wire = crate::hello_laws::names_wire(list);
    lemma_skip_names(none, list, none);
    assert(none + wire + none =~= wire);
}

} // verus!
