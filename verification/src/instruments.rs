//! Counters and gauges, exposed through a prometheus registry.
//!
//! The prometheus crate keeps the numbers behind shared handles. Here each
//! handle has one owner, which changes it through `&mut`; the registry only
//! reads it. So the value that a handle stands for can be spoken of.

use vstd::prelude::*;

verus! {

/// A registry: which metrics are exposed.
#[verifier::external_type_specification]
#[verifier::external_body]
pub struct ExRegistry(prometheus::Registry);

/// An error of the prometheus crate, carried along unread.
#[verifier::external_type_specification]
#[verifier::external_body]
pub struct ExPrometheusError(prometheus::Error);

/// The one handle on a `prometheus::IntCounter` through which it is changed.
#[verifier::external_body]
pub struct CounterCell {
    inner: prometheus::IntCounter,
}

/// The one handle on a `prometheus::IntGauge` through which it is changed.
#[verifier::external_body]
pub struct GaugeCell {
    inner: prometheus::IntGauge,
}

/// The one handle on a `prometheus::IntCounterVec` with two labels through
/// which it is changed.
#[verifier::external_body]
pub struct FamilyCell {
    inner: prometheus::IntCounterVec,
}

/// The names of the metrics that a registry exposes.
pub uninterp spec fn registered(registry: prometheus::Registry) -> Set<Seq<char>>;

/// What a registry exposes under the counter's name is this counter.
pub uninterp spec fn reads_counter(registry: prometheus::Registry, counter: CounterCell) -> bool;

/// What a registry exposes under the gauge's name is this gauge.
pub uninterp spec fn reads_gauge(registry: prometheus::Registry, gauge: GaugeCell) -> bool;

/// What a registry exposes under the family's name is this family.
pub uninterp spec fn reads_family(registry: prometheus::Registry, family: FamilyCell) -> bool;

/// The name of a counter.
pub uninterp spec fn counter_name(counter: CounterCell) -> Seq<char>;

/// The help text of a counter.
pub uninterp spec fn counter_help(counter: CounterCell) -> Seq<char>;

/// The value of a counter.
pub uninterp spec fn counter_value(counter: CounterCell) -> nat;

/// The name of a gauge.
pub uninterp spec fn gauge_name(gauge: GaugeCell) -> Seq<char>;

/// The help text of a gauge.
pub uninterp spec fn gauge_help(gauge: GaugeCell) -> Seq<char>;

/// The value of a gauge.
pub uninterp spec fn gauge_value(gauge: GaugeCell) -> int;

/// A family of counters with two labels.
pub uninterp spec fn family_view(family: FamilyCell) -> FamilyView;

/// The text that tells every metric with its name, its help text and its value.
pub uninterp spec fn exposition(set: MetricSetView) -> Seq<u8>;

/// One more byte in a 64-bit FNV-1a hash: it is mixed into the hash so far,
/// which is then multiplied by a prime.
pub open spec fn mixed(hash: u64, byte: u8) -> u64 {
    ((hash ^ (byte as u64)) * 0x100_0000_01b3) as u64
}

/// The 64-bit FNV-1a hash of the first bytes.
pub open spec fn fnv(bytes: Seq<u8>, n: int) -> u64
    decreases n,
{
    if n <= 0 {
        0xcbf2_9ce4_8422_2325
    } else {
        mixed(fnv(bytes, n - 1), bytes[n - 1])
    }
}

/// The hash of all bytes.
pub open spec fn hash(bytes: Seq<u8>) -> u64 {
    fnv(bytes, bytes.len() as int)
}

/// The bytes of a name, and a byte that no name holds.
pub open spec fn metric_bytes(name: Seq<char>) -> Seq<u8> {
    vstd::utf8::encode_utf8(name).push(0xff)
}

/// The number by which a registry tells metrics apart: the hash of the name.
pub open spec fn metric_id(name: Seq<char>) -> u64 {
    hash(metric_bytes(name))
}

/// The number under which a family keeps the counter of a pair of label values:
/// the hash of the two, one behind the other.
pub open spec fn label_key(first: Seq<char>, second: Seq<char>) -> u64 {
    hash(vstd::utf8::encode_utf8(first) + vstd::utf8::encode_utf8(second))
}

/// One counter of a family: its label values and its value.
pub struct ChildView {
    pub first: Seq<char>,
    pub second: Seq<char>,
    pub value: nat,
}

/// A family of counters: its name and help text, the names of its labels, and
/// its counters.
#[verifier::ext_equal]
pub struct FamilyView {
    pub name: Seq<char>,
    pub help: Seq<char>,
    pub first: Seq<char>,
    pub second: Seq<char>,
    pub children: Map<u64, ChildView>,
}

/// The sum that a 64-bit counter shows: it wraps around.
pub open spec fn wrapped(n: nat) -> nat {
    n % 0x1_0000_0000_0000_0000
}

/// The number that a signed 64-bit gauge shows: it wraps around.
pub open spec fn wrapped_signed(n: int) -> int {
    if n > i64::MAX {
        n - 0x1_0000_0000_0000_0000
    } else if n < i64::MIN {
        n + 0x1_0000_0000_0000_0000
    } else {
        n
    }
}

/// A letter or an underscore.
pub open spec fn is_name_start(c: char) -> bool {
    ('a' <= c && c <= 'z') || ('A' <= c && c <= 'Z') || c == '_'
}

/// A letter, an underscore, a colon or a digit.
pub open spec fn is_name_char(c: char) -> bool {
    is_name_start(c) || c == ':' || ('0' <= c && c <= '9')
}

/// A name of a metric that prometheus takes: letters, underscores, colons and,
/// but for the first place, digits.
pub open spec fn is_metric_name(name: Seq<char>) -> bool {
    &&& name.len() > 0
    &&& !('0' <= name[0] && name[0] <= '9')
    &&& forall|i: int| 0 <= i < name.len() ==> is_name_char(#[trigger] name[i])
}

/// A name of a label that prometheus takes: as that of a metric, without colons.
pub open spec fn is_label_name(name: Seq<char>) -> bool {
    is_metric_name(name) && !name.contains(':')
}

/// A name and a help text that prometheus takes.
pub open spec fn is_described(name: Seq<char>, help: Seq<char>) -> bool {
    is_metric_name(name) && help.len() > 0
}

/// Two names of labels that prometheus takes and tells apart.
pub open spec fn are_labels(first: Seq<char>, second: Seq<char>) -> bool {
    is_label_name(first) && is_label_name(second) && first != second
}

/// A registry that exposes these names tells a metric with this number apart.
pub open spec fn is_new(names: Set<Seq<char>>, id: u64) -> bool {
    forall|n: Seq<char>| #[trigger] names.contains(n) ==> metric_id(n) != id
}

/// `prometheus::Registry::new` makes a registry that exposes nothing.
#[verifier::external_body]
fn new_registry() -> (registry: prometheus::Registry)
    ensures
        registered(registry) == Set::<Seq<char>>::empty(),
{
    prometheus::Registry::new()
}

/// `prometheus::IntCounter::new` makes a counter of the given name and help
/// text that stands at zero. It fails on an empty help text and on a name that
/// prometheus does not take.
#[verifier::external_body]
fn new_counter(name: &str, help: &str) -> (counter: Result<CounterCell, prometheus::Error>)
    ensures
        counter is Ok == is_described(name@, help@),
        counter matches Ok(c) ==> counter_name(c) == name@ && counter_help(c) == help@
            && counter_value(c) == 0,
{
    let inner = prometheus::IntCounter::new(name, help)?;
    Ok(CounterCell { inner })
}

/// `prometheus::Registry::register`, for a counter: it is exposed from then
/// on, unless a metric is exposed that the registry cannot tell apart from it.
/// Then the registry is as it was.
#[verifier::external_body]
fn register_counter(registry: &mut prometheus::Registry, counter: &CounterCell) -> (result: Result<
    (),
    prometheus::Error,
>)
    ensures
        result is Ok == is_new(registered(*old(registry)), metric_id(counter_name(*counter))),
        registered(*final(registry)) == if result is Ok {
            registered(*old(registry)).insert(counter_name(*counter))
        } else {
            registered(*old(registry))
        },
        result is Ok ==> reads_counter(*final(registry), *counter),
        still_reads(*old(registry), *final(registry)),
{
    registry.register(Box::new(counter.inner.clone()))
}

/// What a registry read before, it reads now.
pub open spec fn still_reads(before: prometheus::Registry, now: prometheus::Registry) -> bool {
    &&& forall|c: CounterCell| reads_counter(before, c) ==> #[trigger] reads_counter(now, c)
    &&& forall|g: GaugeCell| reads_gauge(before, g) ==> #[trigger] reads_gauge(now, g)
    &&& forall|f: FamilyCell| reads_family(before, f) ==> #[trigger] reads_family(now, f)
}

/// `prometheus::IntCounter::inc_by` adds to the counter, which wraps around.
#[verifier::external_body]
fn add_to_counter(counter: &mut CounterCell, amount: u64)
    ensures
        counter_name(*final(counter)) == counter_name(*old(counter)),
        counter_help(*final(counter)) == counter_help(*old(counter)),
        counter_value(*final(counter)) == wrapped(counter_value(*old(counter)) + amount as nat),
        forall|r: prometheus::Registry| #[trigger]
            reads_counter(r, *final(counter)) == reads_counter(r, *old(counter)),
{
    counter.inner.inc_by(amount)
}

/// `prometheus::IntCounter::get` tells the value.
#[verifier::external_body]
fn read_counter(counter: &CounterCell) -> (value: u64)
    ensures
        value == counter_value(*counter),
{
    counter.inner.get()
}

/// `prometheus::IntGauge::new` makes a gauge of the given name and help text
/// that stands at zero. It fails on an empty help text and on a name that
/// prometheus does not take.
#[verifier::external_body]
fn new_gauge(name: &str, help: &str) -> (gauge: Result<GaugeCell, prometheus::Error>)
    ensures
        gauge is Ok == is_described(name@, help@),
        gauge matches Ok(g) ==> gauge_name(g) == name@ && gauge_help(g) == help@ && gauge_value(g)
            == 0,
{
    let inner = prometheus::IntGauge::new(name, help)?;
    Ok(GaugeCell { inner })
}

/// `prometheus::Registry::register`, for a gauge: it is exposed from then on,
/// unless a metric is exposed that the registry cannot tell apart from it. Then
/// the registry is as it was.
#[verifier::external_body]
fn register_gauge(registry: &mut prometheus::Registry, gauge: &GaugeCell) -> (result: Result<
    (),
    prometheus::Error,
>)
    ensures
        result is Ok == is_new(registered(*old(registry)), metric_id(gauge_name(*gauge))),
        registered(*final(registry)) == if result is Ok {
            registered(*old(registry)).insert(gauge_name(*gauge))
        } else {
            registered(*old(registry))
        },
        result is Ok ==> reads_gauge(*final(registry), *gauge),
        still_reads(*old(registry), *final(registry)),
{
    registry.register(Box::new(gauge.inner.clone()))
}

/// `prometheus::IntGauge::inc` adds one to the gauge, which wraps around.
#[verifier::external_body]
fn raise_gauge(gauge: &mut GaugeCell)
    ensures
        gauge_name(*final(gauge)) == gauge_name(*old(gauge)),
        gauge_help(*final(gauge)) == gauge_help(*old(gauge)),
        gauge_value(*final(gauge)) == wrapped_signed(gauge_value(*old(gauge)) + 1),
        forall|r: prometheus::Registry| #[trigger]
            reads_gauge(r, *final(gauge)) == reads_gauge(r, *old(gauge)),
{
    gauge.inner.inc()
}

/// `prometheus::IntGauge::dec` takes one from the gauge, which wraps around.
#[verifier::external_body]
fn lower_gauge(gauge: &mut GaugeCell)
    ensures
        gauge_name(*final(gauge)) == gauge_name(*old(gauge)),
        gauge_help(*final(gauge)) == gauge_help(*old(gauge)),
        gauge_value(*final(gauge)) == wrapped_signed(gauge_value(*old(gauge)) - 1),
        forall|r: prometheus::Registry| #[trigger]
            reads_gauge(r, *final(gauge)) == reads_gauge(r, *old(gauge)),
{
    gauge.inner.dec()
}

/// `prometheus::IntGauge::get` tells the value.
#[verifier::external_body]
fn read_gauge(gauge: &GaugeCell) -> (value: i64)
    ensures
        value == gauge_value(*gauge),
{
    gauge.inner.get()
}

/// `prometheus::IntCounterVec::new` makes a family of counters of the given
/// name and help text, one for each pair of values of two labels, with none
/// yet. It fails on an empty help text, and on names that prometheus does not
/// take or cannot tell apart.
#[verifier::external_body]
fn new_family(name: &str, help: &str, first: &str, second: &str) -> (family: Result<
    FamilyCell,
    prometheus::Error,
>)
    ensures
        family is Ok == (is_described(name@, help@) && are_labels(first@, second@)),
        family matches Ok(f) ==> family_view(f) == no_children(name@, help@, first@, second@),
{
    let opts = prometheus::Opts::new(name, help);
    let inner = prometheus::IntCounterVec::new(opts, &[first, second])?;
    Ok(FamilyCell { inner })
}

/// A family without counters.
pub open spec fn no_children(
    name: Seq<char>,
    help: Seq<char>,
    first: Seq<char>,
    second: Seq<char>,
) -> FamilyView {
    FamilyView { name, help, first, second, children: Map::empty() }
}

/// `prometheus::Registry::register`, for a family: it is exposed from then on,
/// unless a metric is exposed that the registry cannot tell apart from it. Then
/// the registry is as it was.
#[verifier::external_body]
fn register_family(registry: &mut prometheus::Registry, family: &FamilyCell) -> (result: Result<
    (),
    prometheus::Error,
>)
    ensures
        result is Ok == is_new(registered(*old(registry)), metric_id(family_view(*family).name)),
        registered(*final(registry)) == if result is Ok {
            registered(*old(registry)).insert(family_view(*family).name)
        } else {
            registered(*old(registry))
        },
        result is Ok ==> reads_family(*final(registry), *family),
        still_reads(*old(registry), *final(registry)),
{
    registry.register(Box::new(family.inner.clone()))
}

/// `prometheus::IntCounterVec::with_label_values` picks the counter of a pair
/// of label values by its key, making it if need be, and
/// `prometheus::IntCounter::inc` adds one to it.
#[verifier::external_body]
fn count_child(family: &mut FamilyCell, first: &str, second: &str)
    ensures
        family_view(*final(family)) == child_counted(
            family_view(*old(family)),
            label_key(first@, second@),
            first@,
            second@,
        ),
        forall|r: prometheus::Registry| #[trigger]
            reads_family(r, *final(family)) == reads_family(r, *old(family)),
{
    family.inner.with_label_values(&[first, second]).inc()
}

/// A family after one was added to the counter of a pair of label values, which
/// it keeps under this key.
pub open spec fn child_counted(
    family: FamilyView,
    key: u64,
    first: Seq<char>,
    second: Seq<char>,
) -> FamilyView {
    let child = if family.children.contains_key(key) {
        ChildView {
            value: wrapped(family.children[key].value + 1),
            ..family.children[key]
        }
    } else {
        ChildView { first, second, value: 1 }
    };
    FamilyView { children: family.children.insert(key, child), ..family }
}

/// `prometheus::Registry::gather` and `prometheus::TextEncoder::encode` write
/// down every metric that the registry exposes, in the order of the names. For
/// a set whose registry exposes its metrics and no others, the text depends on
/// them alone.
#[verifier::external_body]
fn encode_text(set: &MetricSet) -> (text: Result<Vec<u8>, prometheus::Error>)
    requires
        set.wf(),
    ensures
        text is Ok,
        text->Ok_0@ == exposition(set@),
{
    let mut output = Vec::new();
    prometheus::Encoder::encode(
        &prometheus::TextEncoder::new(),
        &set.registry.gather(),
        &mut output,
    )?;
    Ok(output)
}

/// What a metric is called and what it tells.
#[derive(Clone, Copy, Debug)]
pub struct Descriptor {
    pub name: &'static str,
    pub help: &'static str,
}

/// The names that a table of descriptors gives.
pub open spec fn names(table: Seq<Descriptor>) -> Seq<Seq<char>> {
    table.map_values(|d: Descriptor| d.name@)
}

/// The help texts that a table of descriptors gives.
pub open spec fn helps(table: Seq<Descriptor>) -> Seq<Seq<char>> {
    table.map_values(|d: Descriptor| d.help@)
}

/// A table of descriptors that one registry can expose.
pub open spec fn exposable(table: Seq<Descriptor>) -> bool {
    &&& forall|i: int|
        0 <= i < table.len() ==> is_described((#[trigger] table[i]).name@, table[i].help@)
    &&& forall|i: int, j: int|
        0 <= i < j < table.len() ==> metric_id((#[trigger] table[i]).name@) != metric_id(
            (#[trigger] table[j]).name@,
        )
}

/// Counters and gauges, and perhaps a family of counters, with a registry that
/// exposes them.
pub struct MetricSet {
    registry: prometheus::Registry,
    counters: Vec<CounterCell>,
    gauges: Vec<GaugeCell>,
    family: Option<FamilyCell>,
}

/// `MetricSet` over views.
#[verifier::ext_equal]
pub struct MetricSetView {
    pub counter_names: Seq<Seq<char>>,
    pub counter_helps: Seq<Seq<char>>,
    pub counters: Seq<nat>,
    pub gauge_names: Seq<Seq<char>>,
    pub gauge_helps: Seq<Seq<char>>,
    pub gauges: Seq<int>,
    pub family: Option<FamilyView>,
}

impl MetricSetView {
    /// The names of all metrics.
    pub open spec fn all_names(self) -> Set<Seq<char>> {
        let plain = self.counter_names.to_set().union(self.gauge_names.to_set());
        match self.family {
            Some(family) => plain.insert(family.name),
            None => plain,
        }
    }
}

impl View for MetricSet {
    type V = MetricSetView;

    closed spec fn view(&self) -> MetricSetView {
        MetricSetView {
            counter_names: self.counters@.map_values(|c: CounterCell| counter_name(c)),
            counter_helps: self.counters@.map_values(|c: CounterCell| counter_help(c)),
            counters: self.counters@.map_values(|c: CounterCell| counter_value(c)),
            gauge_names: self.gauges@.map_values(|g: GaugeCell| gauge_name(g)),
            gauge_helps: self.gauges@.map_values(|g: GaugeCell| gauge_help(g)),
            gauges: self.gauges@.map_values(|g: GaugeCell| gauge_value(g)),
            family: match self.family {
                Some(family) => Some(family_view(family)),
                None => None,
            },
        }
    }
}

/// Every metric of two tables at zero.
pub open spec fn at_zero(counters: Seq<Descriptor>, gauges: Seq<Descriptor>) -> MetricSetView {
    MetricSetView {
        counter_names: names(counters),
        counter_helps: helps(counters),
        counters: Seq::new(counters.len(), |i: int| 0nat),
        gauge_names: names(gauges),
        gauge_helps: helps(gauges),
        gauges: Seq::new(gauges.len(), |i: int| 0int),
        family: None,
    }
}

/// The view after so much was added to one counter.
pub open spec fn counted(set: MetricSetView, counter: int, amount: nat) -> MetricSetView {
    MetricSetView {
        counters: set.counters.update(counter, wrapped(set.counters[counter] + amount)),
        ..set
    }
}

/// The view after one gauge moved by so much.
pub open spec fn moved(set: MetricSetView, gauge: int, by: int) -> MetricSetView {
    MetricSetView {
        gauges: set.gauges.update(gauge, wrapped_signed(set.gauges[gauge] + by)),
        ..set
    }
}

impl MetricSet {
    /// What every operation keeps: the registry exposes the metrics of the set,
    /// and no others.
    pub closed spec fn wf(&self) -> bool {
        &&& registered(self.registry) == self@.all_names()
        &&& forall|i: int|
            0 <= i < self.counters@.len() ==> reads_counter(
                self.registry,
                #[trigger] self.counters@[i],
            )
        &&& forall|i: int|
            0 <= i < self.gauges@.len() ==> reads_gauge(self.registry, #[trigger] self.gauges@[i])
        &&& self.family matches Some(family) ==> reads_family(self.registry, family)
    }

    /// A set without metrics.
    fn empty() -> (set: Self)
        ensures
            set.wf(),
            set@ == at_zero(Seq::empty(), Seq::empty()),
    {
        let set = MetricSet {
            registry: new_registry(),
            counters: Vec::new(),
            gauges: Vec::new(),
            family: None,
        };
        assert(set@ =~= at_zero(Seq::empty(), Seq::empty()));
        assert(set@.all_names() =~= Set::<Seq<char>>::empty());
        set
    }

    /// The metrics of two tables, at zero and exposed.
    pub fn new(counters: &[Descriptor], gauges: &[Descriptor]) -> (set: Result<
        Self,
        prometheus::Error,
    >)
        ensures
            set is Ok <==> exposable(counters@ + gauges@),
            set matches Ok(s) ==> s.wf() && s@ == at_zero(counters@, gauges@),
    {
        let mut set = MetricSet::empty();
        let ghost all = counters@ + gauges@;
        let ghost none = Seq::<Descriptor>::empty();
        let mut i: usize = 0;
        assert(counters@.take(0) =~= none);
        while i < counters.len()
            invariant
                i <= counters@.len(),
                all == counters@ + gauges@,
                none == Seq::<Descriptor>::empty(),
                set.wf(),
                set@ == at_zero(counters@.take(i as int), none),
                exposable(all.take(i as int)),
            decreases counters@.len() - i,
        {
            let ghost table = counters@.take(i as int);
            assert(all.take(i as int) =~= table + none);
            assert(counters@.take(i + 1) =~= table.push(counters@[i as int]));
            proof {
                lemma_next(table, none, set@, all, i as int);
            }
            match set.add_counter(counters[i]) {
                Ok(()) => {},
                Err(error) => return Err(error),
            }
            i += 1;
        }
        assert(counters@.take(i as int) =~= counters@);
        let mut j: usize = 0;
        assert(gauges@.take(0) =~= none);
        while j < gauges.len()
            invariant
                j <= gauges@.len(),
                all == counters@ + gauges@,
                set.wf(),
                set@ == at_zero(counters@, gauges@.take(j as int)),
                exposable(all.take(counters@.len() + j)),
            decreases gauges@.len() - j,
        {
            let ghost table = gauges@.take(j as int);
            let ghost at = counters@.len() + j;
            assert(all.take(at) =~= counters@ + table);
            assert(gauges@.take(j + 1) =~= table.push(gauges@[j as int]));
            proof {
                lemma_next(counters@, table, set@, all, at);
            }
            match set.add_gauge(gauges[j]) {
                Ok(()) => {},
                Err(error) => return Err(error),
            }
            j += 1;
        }
        assert(gauges@.take(j as int) =~= gauges@);
        assert(all.take(counters@.len() + j) =~= all);
        Ok(set)
    }

    fn add_counter(&mut self, descriptor: Descriptor) -> (result: Result<(), prometheus::Error>)
        requires
            old(self).wf(),
        ensures
            result is Ok <==> can_add(old(self)@, descriptor),
            result is Ok ==> final(self).wf() && final(self)@ == (MetricSetView {
                counter_names: old(self)@.counter_names.push(descriptor.name@),
                counter_helps: old(self)@.counter_helps.push(descriptor.help@),
                counters: old(self)@.counters.push(0),
                ..old(self)@
            }),
    {
        let ghost before = *self;
        let counter = new_counter(descriptor.name, descriptor.help)?;
        register_counter(&mut self.registry, &counter)?;
        self.counters.push(counter);
        proof {
            let added = MetricSetView {
                counter_names: before@.counter_names.push(descriptor.name@),
                counter_helps: before@.counter_helps.push(descriptor.help@),
                counters: before@.counters.push(0),
                ..before@
            };
            assert(self@ =~= added);
            lemma_push_to_set(before@.counter_names, descriptor.name@);
            assert(self@.all_names() =~= before@.all_names().insert(descriptor.name@));
        }
        Ok(())
    }

    fn add_gauge(&mut self, descriptor: Descriptor) -> (result: Result<(), prometheus::Error>)
        requires
            old(self).wf(),
        ensures
            result is Ok <==> can_add(old(self)@, descriptor),
            result is Ok ==> final(self).wf() && final(self)@ == (MetricSetView {
                gauge_names: old(self)@.gauge_names.push(descriptor.name@),
                gauge_helps: old(self)@.gauge_helps.push(descriptor.help@),
                gauges: old(self)@.gauges.push(0),
                ..old(self)@
            }),
    {
        let ghost before = *self;
        let gauge = new_gauge(descriptor.name, descriptor.help)?;
        register_gauge(&mut self.registry, &gauge)?;
        self.gauges.push(gauge);
        proof {
            let added = MetricSetView {
                gauge_names: before@.gauge_names.push(descriptor.name@),
                gauge_helps: before@.gauge_helps.push(descriptor.help@),
                gauges: before@.gauges.push(0),
                ..before@
            };
            assert(self@ =~= added);
            lemma_push_to_set(before@.gauge_names, descriptor.name@);
            assert(self@.all_names() =~= before@.all_names().insert(descriptor.name@));
        }
        Ok(())
    }

    /// Exposes a family of counters with two labels too.
    pub fn add_family(&mut self, descriptor: Descriptor, first: &str, second: &str) -> (result:
        Result<(), prometheus::Error>)
        requires
            old(self).wf(),
            old(self)@.family is None,
        ensures
            final(self).wf(),
            result is Ok <==> can_add(old(self)@, descriptor) && are_labels(first@, second@),
            final(self)@ == if result is Ok {
                MetricSetView {
                    family: Some(
                        no_children(descriptor.name@, descriptor.help@, first@, second@),
                    ),
                    ..old(self)@
                }
            } else {
                old(self)@
            },
    {
        let family = new_family(descriptor.name, descriptor.help, first, second)?;
        register_family(&mut self.registry, &family)?;
        self.family = Some(family);
        assert(self@.all_names() =~= old(self)@.all_names().insert(descriptor.name@));
        Ok(())
    }

    /// Adds one to the counter of the family for a pair of label values.
    pub fn count_labeled(&mut self, first: &str, second: &str)
        requires
            old(self).wf(),
            old(self)@.family is Some,
        ensures
            final(self).wf(),
            final(self)@ == (MetricSetView {
                family: Some(
                    child_counted(
                        old(self)@.family->0,
                        label_key(first@, second@),
                        first@,
                        second@,
                    ),
                ),
                ..old(self)@
            }),
    {
        if let Some(family) = &mut self.family {
            count_child(family, first, second);
        }
        assert(self@.all_names() =~= old(self)@.all_names());
    }

    /// Adds to a counter.
    pub fn count(&mut self, counter: usize, amount: u64)
        requires
            old(self).wf(),
            counter < old(self)@.counters.len(),
        ensures
            final(self).wf(),
            final(self)@ == counted(old(self)@, counter as int, amount as nat),
    {
        add_to_counter(&mut self.counters[counter], amount);
        assert(self@ =~= counted(old(self)@, counter as int, amount as nat));
    }

    /// Adds one to a gauge.
    pub fn raise(&mut self, gauge: usize)
        requires
            old(self).wf(),
            gauge < old(self)@.gauges.len(),
        ensures
            final(self).wf(),
            final(self)@ == moved(old(self)@, gauge as int, 1),
    {
        raise_gauge(&mut self.gauges[gauge]);
        assert(self@ =~= moved(old(self)@, gauge as int, 1));
    }

    /// Takes one from a gauge.
    pub fn lower(&mut self, gauge: usize)
        requires
            old(self).wf(),
            gauge < old(self)@.gauges.len(),
        ensures
            final(self).wf(),
            final(self)@ == moved(old(self)@, gauge as int, -1),
    {
        lower_gauge(&mut self.gauges[gauge]);
        assert(self@ =~= moved(old(self)@, gauge as int, -1));
    }

    /// The value of a counter.
    pub fn counter(&self, counter: usize) -> (value: u64)
        requires
            counter < self@.counters.len(),
        ensures
            value == self@.counters[counter as int],
    {
        read_counter(&self.counters[counter])
    }

    /// The value of a gauge.
    pub fn gauge(&self, gauge: usize) -> (value: i64)
        requires
            gauge < self@.gauges.len(),
        ensures
            value == self@.gauges[gauge as int],
    {
        read_gauge(&self.gauges[gauge])
    }

    /// The text that tells every metric with its value.
    pub fn encode(&self) -> (text: Result<Vec<u8>, prometheus::Error>)
        requires
            self.wf(),
        ensures
            text matches Ok(t) && t@ == exposition(self@),
    {
        encode_text(self)
    }
}

/// A metric that a set can have beside those that it has.
pub open spec fn can_add(set: MetricSetView, descriptor: Descriptor) -> bool {
    &&& is_described(descriptor.name@, descriptor.help@)
    &&& is_new(set.all_names(), metric_id(descriptor.name@))
}

/// The names of a set that holds the metrics of two tables.
pub proof fn lemma_names(counters: Seq<Descriptor>, gauges: Seq<Descriptor>, set: MetricSetView)
    requires
        set == at_zero(counters, gauges),
    ensures
        forall|n: Seq<char>| #[trigger]
            set.all_names().contains(n) <==> exists|i: int|
                0 <= i < (counters + gauges).len() && (#[trigger] (counters + gauges)[i]).name@ == n,
{
    let all = counters + gauges;
    assert forall|n: Seq<char>| #[trigger] set.all_names().contains(n) implies exists|i: int|
        0 <= i < all.len() && (#[trigger] all[i]).name@ == n by {
        if set.counter_names.contains(n) {
            let i = choose|i: int| 0 <= i < set.counter_names.len() && set.counter_names[i] == n;
            assert(all[i].name@ == n);
        } else {
            let i = choose|i: int| 0 <= i < set.gauge_names.len() && set.gauge_names[i] == n;
            assert(all[counters.len() + i].name@ == n);
        }
    }
    assert forall|i: int| 0 <= i < all.len() implies set.all_names().contains(
        (#[trigger] all[i]).name@,
    ) by {
        if i < counters.len() {
            assert(set.counter_names[i] == all[i].name@);
        } else {
            assert(set.gauge_names[i - counters.len()] == all[i].name@);
        }
    }
}

/// A set that holds the first descriptors of a table can have the next one if
/// and only if that many can be exposed.
proof fn lemma_next(
    counters: Seq<Descriptor>,
    gauges: Seq<Descriptor>,
    set: MetricSetView,
    table: Seq<Descriptor>,
    at: int,
)
    requires
        0 <= at < table.len(),
        set == at_zero(counters, gauges),
        counters + gauges == table.take(at),
        exposable(table.take(at)),
    ensures
        can_add(set, table[at]) <==> exposable(table.take(at + 1)),
        exposable(table) ==> exposable(table.take(at + 1)),
{
    let head = table.take(at);
    let more = table.take(at + 1);
    lemma_names(counters, gauges, set);
    assert(forall|i: int| 0 <= i < at ==> #[trigger] head[i] == more[i]);
    assert(more[at] == table[at]);
    assert(forall|i: int| 0 <= i < more.len() ==> #[trigger] more[i] == table[i]);
    if can_add(set, table[at]) {
        assert forall|i: int, j: int| 0 <= i < j < more.len() implies metric_id(
            (#[trigger] more[i]).name@,
        ) != metric_id((#[trigger] more[j]).name@) by {
            assert(head[i] == more[i]);
            if j < at {
                assert(head[j] == more[j]);
            } else {
                assert(set.all_names().contains(head[i].name@));
            }
        }
    }
    if exposable(more) {
        assert forall|n: Seq<char>| #[trigger] set.all_names().contains(n) implies metric_id(n)
            != metric_id(table[at].name@) by {
            let i = choose|i: int|
                0 <= i < (counters + gauges).len() && (#[trigger] (counters + gauges)[i]).name@
                    == n;
            assert(more[i] == head[i]);
        }
    }
}

proof fn lemma_push_to_set(items: Seq<Seq<char>>, item: Seq<char>)
    ensures
        items.push(item).to_set() == items.to_set().insert(item),
{
    let pushed = items.push(item);
    assert forall|x: Seq<char>| pushed.to_set().contains(x) <==> #[trigger] items.to_set().insert(
        item,
    ).contains(x) by {
        if items.contains(x) {
            let i = choose|i: int| 0 <= i < items.len() && items[i] == x;
            assert(pushed[i] == x);
        }
        if pushed.contains(x) {
            let i = choose|i: int| 0 <= i < pushed.len() && pushed[i] == x;
            if i < items.len() {
                assert(items[i] == x);
            }
        }
        assert(pushed[items.len() as int] == item);
    }
    assert(pushed.to_set() =~= items.to_set().insert(item));
}

} // verus!
