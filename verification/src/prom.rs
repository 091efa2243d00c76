//! Metric families of `prometheus`: labelled counters and histograms, single
//! counters and gauges, and the registry that exposes them.
use prometheus::{
    Encoder, Error, HistogramOpts, HistogramVec, IntCounter, IntCounterVec, IntGauge, Opts,
    Registry, TextEncoder,
};
use std::time::Duration;
use vstd::prelude::*;
use crate::text;

verus! {

/// The registry of metric families.
#[verifier::external_type_specification]
#[verifier::external_body]
pub struct ExRegistry(prometheus::Registry);

/// What an operation on metrics reports when it fails.
#[verifier::external_type_specification]
#[verifier::external_body]
pub struct ExError(prometheus::Error);

/// A number that goes up and down.
#[verifier::external_body]
pub struct Gauge {
    inner: IntGauge,
}

/// A number that only goes up.
#[verifier::external_body]
pub struct SingleCounter {
    inner: IntCounter,
}

/// Counters that share a name and differ in their label values.
#[verifier::external_body]
pub struct CounterFamily {
    inner: IntCounterVec,
}

/// Histograms that share a name and differ in their label values.
#[verifier::external_body]
pub struct HistogramFamily {
    inner: HistogramVec,
}

/// A family by its name, its help text and the names of its labels.
pub type Family = (Seq<char>, Seq<char>, Seq<Seq<char>>);

/// The FNV-1a hash with one more byte.
pub open spec fn fnv_step(h: u64, b: u8) -> u64 {
    ((h ^ (b as u64)) * 0x100_0000_01b3) as u64
}

/// The FNV-1a hash of some bytes, in 64 bits.
pub open spec fn fnv(bytes: Seq<u8>) -> u64
    decreases bytes.len(),
{
    if bytes.len() == 0 {
        0xcbf2_9ce4_8422_2325
    } else {
        fnv_step(fnv(bytes.drop_last()), bytes.last())
    }
}

/// The slot in which a family keeps the metric of some label values: a hash of
/// the values written one after the other. Label values that hash alike share
/// a metric.
pub open spec fn label_slot(joined: Seq<char>) -> u64 {
    fnv(vstd::utf8::encode_utf8(joined))
}

/// The counts of a family, by slot, of the slots that were incremented.
pub uninterp spec fn counter_tally(f: CounterFamily) -> Map<u64, u64>;

/// The family that the counters belong to.
pub uninterp spec fn counter_family(f: CounterFamily) -> Family;

/// The durations in nanoseconds that were observed, by slot.
pub uninterp spec fn observed(f: HistogramFamily) -> Map<u64, Seq<u64>>;

/// The family that the histograms belong to.
pub uninterp spec fn histogram_family(f: HistogramFamily) -> Family;

/// The bucket bounds in seconds that a family of histograms was made with;
/// empty where it has the default bounds.
pub uninterp spec fn histogram_bounds(f: HistogramFamily) -> Seq<u64>;

/// The value of a gauge.
pub uninterp spec fn gauge_value(g: Gauge) -> i64;

/// The family that a gauge is.
pub uninterp spec fn gauge_family(g: Gauge) -> Family;

/// The value of a single counter.
pub uninterp spec fn single_value(c: SingleCounter) -> u64;

/// The family that a single counter is.
pub uninterp spec fn single_family(c: SingleCounter) -> Family;

/// The families that a registry exposes.
pub uninterp spec fn registered(r: Registry) -> Set<Family>;

/// Which counters a family counts in: each family that is made has its own, and
/// a registry that has the family reads them whenever it is asked.
pub uninterp spec fn counter_cell(f: CounterFamily) -> int;

/// Which histograms a family observes in.
pub uninterp spec fn histogram_cell(f: HistogramFamily) -> int;

/// Which number a gauge moves.
pub uninterp spec fn gauge_cell(g: Gauge) -> int;

/// Which number a single counter counts in.
pub uninterp spec fn single_cell(c: SingleCounter) -> int;

/// What a registry reads when it is asked for its metrics.
pub uninterp spec fn cells(r: Registry) -> Set<int>;

/// What `String::from_utf8` says of bytes that are no UTF-8.
pub uninterp spec fn utf8_complaint(bytes: Seq<u8>) -> Seq<char>;

/// The number under which a registry files a family: a hash of its name and a
/// byte that ends it.
pub open spec fn family_id(name: Seq<char>) -> u64 {
    fnv(vstd::utf8::encode_utf8(name).push(0xff))
}

/// Whether a character can stand at a place of a name: letters and underscores
/// anywhere, digits behind the first place, colons where they are allowed.
pub open spec fn fits_name(c: char, first: bool, colons: bool) -> bool {
    ||| 'a' <= c <= 'z'
    ||| 'A' <= c <= 'Z'
    ||| c == '_'
    ||| (!first && '0' <= c <= '9')
    ||| (colons && c == ':')
}

/// Whether a text is a name; those of metrics may have colons, those of labels
/// may not.
pub open spec fn is_name(s: Seq<char>, colons: bool) -> bool {
    s.len() > 0 && forall|i: int| 0 <= i < s.len() ==> fits_name(#[trigger] s[i], i == 0, colons)
}

/// Whether a family can be made: it has a name and a help text, and its labels
/// have different names.
pub open spec fn describable(name: Seq<char>, help: Seq<char>, labels: Seq<Seq<char>>) -> bool {
    &&& help.len() > 0
    &&& is_name(name, true)
    &&& forall|i: int| 0 <= i < labels.len() ==> #[trigger] is_name(labels[i], false)
    &&& labels.no_duplicates()
}

/// Whether a registry has room for a family of this name: no family in it is
/// filed under the same number.
pub open spec fn has_room(families: Set<Family>, name: Seq<char>) -> bool {
    forall|f: Family| #[trigger] families.contains(f) ==> family_id(f.0) != family_id(name)
}

/// The characters of a run of strings.
pub open spec fn texts(s: Seq<&str>) -> Seq<Seq<char>> {
    s.map_values(|x: &str| x@)
}

/// Label values written one after the other.
pub open spec fn joined(s: Seq<Seq<char>>) -> Seq<char>
    decreases s.len(),
{
    if s.len() == 0 {
        Seq::empty()
    } else {
        joined(s.drop_last()) + s.last()
    }
}

/// The count in a slot.
pub open spec fn count_in(m: Map<u64, u64>, slot: u64) -> u64 {
    if m.dom().contains(slot) {
        m[slot]
    } else {
        0
    }
}

/// One more, starting over at zero past the largest count.
pub open spec fn one_more(n: u64) -> u64 {
    if n == u64::MAX {
        0
    } else {
        (n + 1) as u64
    }
}

/// The counts after one increment of a slot.
pub open spec fn bumped(m: Map<u64, u64>, slot: u64) -> Map<u64, u64> {
    m.insert(slot, one_more(count_in(m, slot)))
}

/// The observations of a slot.
pub open spec fn observations(m: Map<u64, Seq<u64>>, slot: u64) -> Seq<u64> {
    if m.dom().contains(slot) {
        m[slot]
    } else {
        Seq::empty()
    }
}

/// The observations after one more in a slot.
pub open spec fn noted(m: Map<u64, Seq<u64>>, slot: u64, nanos: u64) -> Map<u64, Seq<u64>> {
    m.insert(slot, observations(m, slot).push(nanos))
}

/// Whether bucket bounds are in strictly increasing order, and small enough to
/// be told apart as seconds.
pub open spec fn increasing(bounds: Seq<u64>) -> bool {
    &&& forall|i: int, j: int| 0 <= i < j < bounds.len() ==> bounds[i] < bounds[j]
    &&& forall|i: int| 0 <= i < bounds.len() ==> #[trigger] bounds[i] <= 1_000_000
}

/// Whether a number is written digit by digit: a double holds it exactly.
pub open spec fn exact(n: int) -> bool {
    -0x20_0000_0000_0000 <= n <= 0x20_0000_0000_0000
}

/// A text with its backslashes and line feeds escaped, and its double quotes
/// where they are to be.
pub open spec fn escaped(s: Seq<char>, quotes: bool) -> Seq<char>
    decreases s.len(),
{
    if s.len() == 0 {
        Seq::empty()
    } else {
        escaped(s.drop_last(), quotes) + if s.last() == '\\' {
            seq!['\\', '\\']
        } else if s.last() == '\n' {
            seq!['\\', 'n']
        } else if quotes && s.last() == '"' {
            seq!['\\', '"']
        } else {
            seq![s.last()]
        }
    }
}

/// The two lines above the samples of a family.
pub open spec fn heading(f: Family, kind: Seq<char>) -> Seq<char> {
    "# HELP "@ + f.0 + " "@ + escaped(f.1, false) + "\n# TYPE "@ + f.0 + " "@ + kind + "\n"@
}

/// Label names with their values, separated by commas.
pub open spec fn pairs_text(pairs: Seq<(Seq<char>, Seq<char>)>) -> Seq<char>
    decreases pairs.len(),
{
    if pairs.len() == 0 {
        Seq::empty()
    } else {
        let last = pairs.last().0 + "=\""@ + escaped(pairs.last().1, true) + "\""@;
        if pairs.len() == 1 {
            last
        } else {
            pairs_text(pairs.drop_last()) + ","@ + last
        }
    }
}

/// The labels of a family with values for them.
pub open spec fn paired(labels: Seq<Seq<char>>, values: Seq<Seq<char>>) -> Seq<
    (Seq<char>, Seq<char>),
> {
    Seq::new(labels.len(), |i: int| (labels[i], values[i]))
}

/// Whether a text has a line for a slot, under a name: the labels, in some
/// order, with values of that slot, and the count.
pub open spec fn has_sample(
    text: Seq<char>,
    name: Seq<char>,
    labels: Seq<Seq<char>>,
    slot: u64,
    count: int,
) -> bool {
    exists|values: Seq<Seq<char>>, pairs: Seq<(Seq<char>, Seq<char>)>|
        {
            &&& values.len() == labels.len()
            &&& label_slot(#[trigger] joined(values)) == slot
            &&& pairs.to_multiset() == paired(labels, values).to_multiset()
            &&& text::occurs(
                text,
                "\n"@ + name + "{"@ + #[trigger] pairs_text(pairs) + "} "@ + text::dec_int(count)
                    + "\n"@,
            )
        }
}

/// Whether a text shows the counts of a family, slot by slot.
pub open spec fn counter_shown(text: Seq<char>, f: Family, tally: Map<u64, u64>) -> bool {
    forall|slot: u64| #[trigger]
        tally.dom().contains(slot) ==> {
            &&& text::occurs(text, heading(f, "counter"@))
            &&& exact(tally[slot] as int) ==> has_sample(
                text,
                f.0,
                f.2,
                slot,
                tally[slot] as int,
            )
        }
}

/// Whether a text shows how many durations a family observed, slot by slot.
pub open spec fn histogram_shown(text: Seq<char>, f: Family, seen: Map<u64, Seq<u64>>) -> bool {
    forall|slot: u64| #[trigger]
        seen.dom().contains(slot) ==> {
            &&& text::occurs(text, heading(f, "histogram"@))
            &&& exact(seen[slot].len() as int) ==> has_sample(
                text,
                f.0 + "_count"@,
                f.2,
                slot,
                seen[slot].len() as int,
            )
        }
}

/// Whether a text shows a gauge.
pub open spec fn gauge_shown(text: Seq<char>, f: Family, value: i64) -> bool {
    &&& text::occurs(text, heading(f, "gauge"@))
    &&& exact(value as int) ==> text::occurs(
        text,
        heading(f, "gauge"@) + f.0 + " "@ + text::dec_int(value as int) + "\n"@,
    )
}

/// Whether a text shows a single counter.
pub open spec fn single_shown(text: Seq<char>, f: Family, value: u64) -> bool {
    &&& text::occurs(text, heading(f, "counter"@))
    &&& exact(value as int) ==> text::occurs(
        text,
        heading(f, "counter"@) + f.0 + " "@ + text::dec_int(value as int) + "\n"@,
    )
}

/// `Registry::new`: nothing is registered.
#[verifier::external_body]
pub(crate) fn new_registry() -> (r: Registry)
    ensures
        registered(r) == Set::<Family>::empty(),
        cells(r) == Set::<int>::empty(),
{
    Registry::new()
}

/// `IntCounterVec::new`: a family of counters with these labels, none of them
/// incremented yet. It fails exactly where the family cannot be described.
#[verifier::external_body]
pub(crate) fn new_counters(name: &str, help: &str, labels: &Vec<&str>) -> (r: Result<
    CounterFamily,
    Error,
>)
    requires
        labels@.len() > 0,
    ensures
        r is Ok <==> describable(name@, help@, texts(labels@)),
        r matches Ok(f) ==> counter_family(f) == (name@, help@, texts(labels@)),
        r matches Ok(f) ==> counter_tally(f).dom() == Set::<u64>::empty(),
{
    IntCounterVec::new(Opts::new(name, help), labels.as_slice()).map(|inner| CounterFamily { inner })
}

/// `HistogramVec::new`: a family of histograms with these labels and bucket
/// bounds, nothing observed yet. It fails exactly where the family cannot be
/// described; its bounds are looked at when it is observed.
#[verifier::external_body]
pub(crate) fn new_histograms(name: &str, help: &str, labels: &Vec<&str>, bounds: &Vec<u64>) -> (r:
    Result<HistogramFamily, Error>)
    requires
        labels@.len() > 0,
    ensures
        r is Ok <==> describable(name@, help@, texts(labels@)),
        r matches Ok(f) ==> histogram_family(f) == (name@, help@, texts(labels@)),
        r matches Ok(f) ==> histogram_bounds(f) == bounds@,
        r matches Ok(f) ==> observed(f).dom() == Set::<u64>::empty(),
{
    let seconds = bounds.iter().map(|s| Duration::from_secs(*s).as_secs_f64()).collect();
    HistogramVec::new(HistogramOpts::new(name, help).buckets(seconds), labels.as_slice()).map(
        |inner| HistogramFamily { inner },
    )
}

/// `IntGauge::new`: a gauge at zero. It fails exactly where it cannot be
/// described.
#[verifier::external_body]
pub(crate) fn new_gauge(name: &str, help: &str) -> (r: Result<Gauge, Error>)
    ensures
        r is Ok <==> describable(name@, help@, Seq::<Seq<char>>::empty()),
        r matches Ok(g) ==> gauge_family(g) == (name@, help@, Seq::<Seq<char>>::empty()),
        r matches Ok(g) ==> gauge_value(g) == 0,
{
    IntGauge::new(name, help).map(|inner| Gauge { inner })
}

/// `IntCounter::new`: a counter at zero. It fails exactly where it cannot be
/// described.
#[verifier::external_body]
pub(crate) fn new_single(name: &str, help: &str) -> (r: Result<SingleCounter, Error>)
    ensures
        r is Ok <==> describable(name@, help@, Seq::<Seq<char>>::empty()),
        r matches Ok(c) ==> single_family(c) == (name@, help@, Seq::<Seq<char>>::empty()),
        r matches Ok(c) ==> single_value(c) == 0,
{
    IntCounter::new(name, help).map(|inner| SingleCounter { inner })
}

/// `Registry::register` of a family of counters: exposed and read on success, and
/// no other family comes or goes. It fails exactly where one in the registry is
/// filed under the same number.
#[verifier::external_body]
pub(crate) fn register_counters(r: &mut Registry, f: &CounterFamily) -> (res: Result<(), Error>)
    ensures
        res is Ok <==> forall|x: Family| #[trigger]
            registered(*old(r)).contains(x) ==> family_id(x.0) != family_id(counter_family(*f).0),
        registered(*final(r)) == (if res is Ok {
            registered(*old(r)).insert(counter_family(*f))
        } else {
            registered(*old(r))
        }),
        cells(*final(r)) == (if res is Ok {
            cells(*old(r)).insert(counter_cell(*f))
        } else {
            cells(*old(r))
        }),
{
    r.register(Box::new(f.inner.clone()))
}

/// `Registry::register` of a family of histograms: exposed and read on success, and
/// no other family comes or goes. It fails exactly where one in the registry is
/// filed under the same number.
#[verifier::external_body]
pub(crate) fn register_histograms(r: &mut Registry, f: &HistogramFamily) -> (res: Result<(), Error>)
    ensures
        res is Ok <==> forall|x: Family| #[trigger]
            registered(*old(r)).contains(x) ==> family_id(x.0) != family_id(histogram_family(*f).0),
        registered(*final(r)) == (if res is Ok {
            registered(*old(r)).insert(histogram_family(*f))
        } else {
            registered(*old(r))
        }),
        cells(*final(r)) == (if res is Ok {
            cells(*old(r)).insert(histogram_cell(*f))
        } else {
            cells(*old(r))
        }),
{
    r.register(Box::new(f.inner.clone()))
}

/// `Registry::register` of a gauge: exposed and read on success, and
/// no other family comes or goes. It fails exactly where one in the registry is
/// filed under the same number.
#[verifier::external_body]
pub(crate) fn register_gauge(r: &mut Registry, g: &Gauge) -> (res: Result<(), Error>)
    ensures
        res is Ok <==> forall|x: Family| #[trigger]
            registered(*old(r)).contains(x) ==> family_id(x.0) != family_id(gauge_family(*g).0),
        registered(*final(r)) == (if res is Ok {
            registered(*old(r)).insert(gauge_family(*g))
        } else {
            registered(*old(r))
        }),
        cells(*final(r)) == (if res is Ok {
            cells(*old(r)).insert(gauge_cell(*g))
        } else {
            cells(*old(r))
        }),
{
    r.register(Box::new(g.inner.clone()))
}

/// `Registry::register` of a single counter: exposed and read on success, and
/// no other family comes or goes. It fails exactly where one in the registry is
/// filed under the same number.
#[verifier::external_body]
pub(crate) fn register_single(r: &mut Registry, c: &SingleCounter) -> (res: Result<(), Error>)
    ensures
        res is Ok <==> forall|x: Family| #[trigger]
            registered(*old(r)).contains(x) ==> family_id(x.0) != family_id(single_family(*c).0),
        registered(*final(r)) == (if res is Ok {
            registered(*old(r)).insert(single_family(*c))
        } else {
            registered(*old(r))
        }),
        cells(*final(r)) == (if res is Ok {
            cells(*old(r)).insert(single_cell(*c))
        } else {
            cells(*old(r))
        }),
{
    r.register(Box::new(c.inner.clone()))
}

/// `IntCounterVec::with_label_values` and `IntCounter::inc`: the count in the
/// slot of the label values goes up by one, no other count changes. It panics
/// where the number of values is not the number of labels.
#[verifier::external_body]
pub(crate) fn increment(f: &mut CounterFamily, values: &Vec<&str>)
    requires
        counter_family(*old(f)).2.len() == values@.len(),
    ensures
        counter_tally(*final(f)) == bumped(
            counter_tally(*old(f)),
            label_slot(joined(texts(values@))),
        ),
        counter_family(*final(f)) == counter_family(*old(f)),
        counter_cell(*final(f)) == counter_cell(*old(f)),
{
    f.inner.with_label_values(values.as_slice()).inc()
}

/// `IntCounterVec::with_label_values` and `IntCounter::get`: the count in the
/// slot of the label values. It panics where the number of values is not the
/// number of labels.
#[verifier::external_body]
pub(crate) fn counter_value(f: &CounterFamily, values: &Vec<&str>) -> (r: u64)
    requires
        counter_family(*f).2.len() == values@.len(),
    ensures
        r == count_in(counter_tally(*f), label_slot(joined(texts(values@)))),
{
    f.inner.with_label_values(values.as_slice()).get()
}

/// `HistogramVec::with_label_values` and `Histogram::observe`: one more
/// observation in the slot of the label values, none in any other. It panics
/// where the number of values is not the number of labels, where a label is
/// called `le`, or where the bucket bounds do not increase.
#[verifier::external_body]
pub(crate) fn observe(f: &mut HistogramFamily, values: &Vec<&str>, nanos: u64)
    requires
        histogram_family(*old(f)).2.len() == values@.len(),
        !histogram_family(*old(f)).2.contains("le"@),
        increasing(histogram_bounds(*old(f))),
    ensures
        observed(*final(f)) == noted(
            observed(*old(f)),
            label_slot(joined(texts(values@))),
            nanos,
        ),
        histogram_family(*final(f)) == histogram_family(*old(f)),
        histogram_bounds(*final(f)) == histogram_bounds(*old(f)),
        histogram_cell(*final(f)) == histogram_cell(*old(f)),
{
    let seconds = Duration::from_nanos(nanos).as_secs_f64();
    f.inner.with_label_values(values.as_slice()).observe(seconds)
}

/// `IntGauge::inc` adds one, starting over at the smallest value past the
/// largest.
#[verifier::external_body]
pub(crate) fn gauge_inc(g: &mut Gauge)
    ensures
        gauge_value(*final(g)) == (if gauge_value(*old(g)) == i64::MAX {
            i64::MIN as int
        } else {
            gauge_value(*old(g)) + 1
        }),
        gauge_family(*final(g)) == gauge_family(*old(g)),
        gauge_cell(*final(g)) == gauge_cell(*old(g)),
{
    g.inner.inc()
}

/// `IntGauge::dec` takes one away, starting over at the largest value past the
/// smallest.
#[verifier::external_body]
pub(crate) fn gauge_dec(g: &mut Gauge)
    ensures
        gauge_value(*final(g)) == (if gauge_value(*old(g)) == i64::MIN {
            i64::MAX as int
        } else {
            gauge_value(*old(g)) - 1
        }),
        gauge_family(*final(g)) == gauge_family(*old(g)),
        gauge_cell(*final(g)) == gauge_cell(*old(g)),
{
    g.inner.dec()
}

/// `IntGauge::get` reads the value.
#[verifier::external_body]
pub(crate) fn gauge_get(g: &Gauge) -> (r: i64)
    ensures
        r == gauge_value(*g),
{
    g.inner.get()
}

/// `Registry::gather` and `TextEncoder::encode`: the bytes of the exposition.
/// Where every family has a name it succeeds, and it writes UTF-8. Of the
/// handles that are passed, those that the registry reads are shown with their
/// present counts: the registry shares these counts with them. Not stated are
/// the order of the families, the sums and the buckets of a histogram, which
/// are floating point, and the zeros of label values that were only read.
#[verifier::external_body]
pub(crate) fn exposition_bytes(
    r: &Registry,
    counters: &Vec<&CounterFamily>,
    histograms: &Vec<&HistogramFamily>,
    gauges: &Vec<&Gauge>,
    singles: &Vec<&SingleCounter>,
) -> (res: Result<Vec<u8>, Error>)
    ensures
        (forall|f: Family| #[trigger] registered(*r).contains(f) ==> f.0.len() > 0) ==> res is Ok,
        res matches Ok(b) ==> vstd::utf8::valid_utf8(b@),
        res matches Ok(b) ==> forall|i: int|
            0 <= i < counters@.len() && cells(*r).contains(counter_cell(*#[trigger] counters@[i]))
                ==> counter_shown(
                vstd::utf8::decode_utf8(b@),
                counter_family(*counters@[i]),
                counter_tally(*counters@[i]),
            ),
        res matches Ok(b) ==> forall|i: int|
            0 <= i < histograms@.len() && cells(*r).contains(
                histogram_cell(*#[trigger] histograms@[i]),
            ) ==> histogram_shown(
                vstd::utf8::decode_utf8(b@),
                histogram_family(*histograms@[i]),
                observed(*histograms@[i]),
            ),
        res matches Ok(b) ==> forall|i: int|
            0 <= i < gauges@.len() && cells(*r).contains(gauge_cell(*#[trigger] gauges@[i]))
                ==> gauge_shown(
                vstd::utf8::decode_utf8(b@),
                gauge_family(*gauges@[i]),
                gauge_value(*gauges@[i]),
            ),
        res matches Ok(b) ==> forall|i: int|
            0 <= i < singles@.len() && cells(*r).contains(single_cell(*#[trigger] singles@[i]))
                ==> single_shown(
                vstd::utf8::decode_utf8(b@),
                single_family(*singles@[i]),
                single_value(*singles@[i]),
            ),
{
    let mut buffer = Vec::new();
    TextEncoder::new().encode(&r.gather(), &mut buffer).map(|_| buffer)
}

/// The text of a `prometheus` error. What it says is not stated.
#[verifier::external_body]
pub(crate) fn error_text(e: &Error) -> (r: String) {
    e.to_string()
}

/// `String::from_utf8`: the text that the bytes encode, or a complaint where
/// they are no UTF-8.
#[verifier::external_body]
pub(crate) fn utf8_text(bytes: Vec<u8>) -> (r: Result<String, String>)
    ensures
        r is Ok <==> vstd::utf8::valid_utf8(bytes@),
        r matches Ok(s) ==> s@ == vstd::utf8::decode_utf8(bytes@),
        r matches Err(m) ==> m@ == utf8_complaint(bytes@),
{
    String::from_utf8(bytes).map_err(|e| e.to_string())
}

/// Whether the first `n` characters of a text fit a name.
pub open spec fn fits_up_to(s: Seq<char>, n: nat, colons: bool) -> bool
    decreases n,
{
    n == 0 || (fits_up_to(s, (n - 1) as nat, colons) && fits_name(s[n - 1], n == 1, colons))
}

/// A text all of whose characters fit is a name.
pub proof fn lemma_name(s: Seq<char>, n: nat, colons: bool)
    requires
        fits_up_to(s, n, colons),
        n <= s.len(),
    ensures
        forall|i: int| 0 <= i < n ==> fits_name(#[trigger] s[i], i == 0, colons),
    decreases n,
{
    if n > 0 {
        lemma_name(s, (n - 1) as nat, colons);
    }
}

/// The hash of the first `n` characters of a text, each of them one byte.
pub open spec fn fnv_up_to(s: Seq<char>, n: nat) -> u64
    decreases n,
{
    if n == 0 {
        0xcbf2_9ce4_8422_2325
    } else {
        fnv_step(fnv_up_to(s, (n - 1) as nat), s[n - 1] as u8)
    }
}

/// A text of characters of one byte each is encoded as those bytes.
pub proof fn lemma_ascii_bytes(s: Seq<char>)
    requires
        forall|i: int| 0 <= i < s.len() ==> (#[trigger] s[i] as u32) < 128,
    ensures
        vstd::utf8::encode_utf8(s).len() == s.len(),
        forall|i: int|
            0 <= i < s.len() ==> #[trigger] vstd::utf8::encode_utf8(s)[i] == s[i] as u8,
    decreases s.len(),
{
    if s.len() > 0 {
        let rest = s.drop_first();
        lemma_ascii_bytes(rest);
        let c: u32 = s[0] as u32;
        let first = vstd::utf8::encode_scalar(c);
        assert(vstd::utf8::leading_byte_width_1(c) == c as u8) by (bit_vector)
            requires
                c < 128,
        ;
        assert(first =~= seq![c as u8]);
        let all = vstd::utf8::encode_utf8(s);
        assert(all == first + vstd::utf8::encode_utf8(rest));
        assert forall|i: int| 0 <= i < s.len() implies #[trigger] all[i] == s[i] as u8 by {
            if i > 0 {
                assert(all[i] == vstd::utf8::encode_utf8(rest)[i - 1]);
                assert(rest[i - 1] == s[i]);
            } else {
                assert(all[0] == first[0]);
                vstd::utf8::char_u32_cast(s[0], c);
                assert(s[0] == c as char);
                assert(c as u8 == s[0] as u8);
            }
        }
    }
}

/// The number of a family whose name has characters of one byte each.
pub proof fn lemma_family_id(name: Seq<char>)
    requires
        is_name(name, true),
    ensures
        family_id(name) == fnv_step(fnv_up_to(name, name.len()), 0xff),
{
    assert forall|i: int| 0 <= i < name.len() implies (#[trigger] name[i] as u32) < 128 by {
        assert(fits_name(name[i], i == 0, true));
    }
    lemma_ascii_bytes(name);
    let bytes = vstd::utf8::encode_utf8(name);
    lemma_fnv_up_to(name, bytes, name.len());
    assert(bytes.push(0xff).drop_last() =~= bytes);
    assert(bytes.take(name.len() as int) =~= bytes);
}

proof fn lemma_fnv_up_to(s: Seq<char>, bytes: Seq<u8>, n: nat)
    requires
        n <= s.len(),
        bytes.len() == s.len(),
        forall|i: int| 0 <= i < s.len() ==> #[trigger] bytes[i] == s[i] as u8,
    ensures
        fnv(bytes.take(n as int)) == fnv_up_to(s, n),
    decreases n,
{
    if n > 0 {
        lemma_fnv_up_to(s, bytes, (n - 1) as nat);
        assert(bytes.take(n as int).drop_last() =~= bytes.take(n - 1));
        assert(bytes.take(n as int).last() == bytes[n - 1]);
    }
}

// ------------------------------------------------------------------ laws
/// One increment of a slot adds one to its count, and to no other; a count past the
/// largest starts over. A slot that was never incremented counts nothing.
pub proof fn law_increments_count_one(m: Map<u64, u64>, slot: u64, other: u64)
    requires
        other != slot,
    ensures
        count_in(m, slot) < u64::MAX ==> count_in(bumped(m, slot), slot) == count_in(m, slot) + 1,
        count_in(m, slot) == u64::MAX ==> count_in(bumped(m, slot), slot) == 0,
        count_in(bumped(m, slot), other) == count_in(m, other),
        count_in(Map::empty(), slot) == 0,
        m.dom().contains(slot) ==> count_in(m, slot) == m[slot],
{
}

/// One observation in a slot is added behind the others of the slot, as it is, and no
/// other slot sees it.
pub proof fn law_observations_are_noted(m: Map<u64, Seq<u64>>, slot: u64, other: u64, nanos: u64)
    requires
        other != slot,
    ensures
        observations(noted(m, slot, nanos), slot).len() == observations(m, slot).len() + 1,
        observations(noted(m, slot, nanos), slot).last() == nanos,
        observations(noted(m, slot, nanos), slot).drop_last() == observations(m, slot),
        observations(noted(m, slot, nanos), other) == observations(m, other),
        observations(Map::empty(), slot).len() == 0,
{
}

} // verus!
