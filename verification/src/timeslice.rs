//! A stopwatch that charges the time between two calls of `set` to the section
//! that was running, and reports the sections from the most expensive down.
use vstd::prelude::*;
use vstd::arithmetic::div_mod::*;
use std::time::{Duration, Instant};
use itertools::Itertools;

verus! {

#[verifier::external_type_specification]
#[verifier::external_body]
pub struct ExInstant(Instant);

/// Nanoseconds in a second.
pub const NANOS_PER_SEC: u32 = 1_000_000_000;

/// The longest span that can be held: `u64::MAX` seconds and just under one more.
pub open spec fn max_span_nanos() -> nat {
    0xffff_ffff_ffff_ffff * 1_000_000_000 + 999_999_999
}

/// A span of time as whole seconds and the nanoseconds past them.
pub open spec fn span_ok(s: (u64, u32)) -> bool {
    s.1 < 1_000_000_000
}

/// The length of a span in nanoseconds.
pub open spec fn span_nanos(s: (u64, u32)) -> nat {
    s.0 as nat * 1_000_000_000 + s.1 as nat
}

/// The span of `n` nanoseconds, in seconds and nanoseconds.
pub open spec fn span_from_nanos(n: nat) -> (u64, u32) {
    ((n / 1_000_000_000) as u64, (n % 1_000_000_000) as u32)
}

/// The sum of two spans.
pub open spec fn span_plus(a: (u64, u32), b: (u64, u32)) -> (u64, u32) {
    span_from_nanos(span_nanos(a) + span_nanos(b))
}

/// The duration of `secs` seconds and `nanos` nanoseconds, as `Duration::new` makes it.
pub uninterp spec fn duration_of(secs: u64, nanos: u32) -> Duration;

/// Reads the monotonic clock (`Instant::now`). Nothing is promised of the reading.
#[verifier::external_body]
fn instant_now() -> Instant {
    Instant::now()
}

/// The time from `earlier` to `later` as `Instant - Instant` gives it (zero when
/// `earlier` is the later one), in whole seconds and the nanoseconds past them.
pub uninterp spec fn instant_span(later: Instant, earlier: Instant) -> (u64, u32);

/// `Instant - Instant`, split by `Duration::as_secs` and `Duration::subsec_nanos`:
/// the result is the named span between the two readings, and its nanoseconds
/// stay below one second.
#[verifier::external_body]
fn elapsed_between(later: Instant, earlier: Instant) -> (r: (u64, u32))
    ensures
        r == instant_span(later, earlier),
        span_ok(r),
{
    let d = later - earlier;
    (d.as_secs(), d.subsec_nanos())
}

/// `Duration::new(secs, nanos)`; with `nanos` below one second nothing carries over.
#[verifier::external_body]
fn duration_new(secs: u64, nanos: u32) -> (d: Duration)
    requires
        nanos < 1_000_000_000,
    ensures
        d == duration_of(secs, nanos),
{
    Duration::new(secs, nanos)
}

/// Two spans in the order of their lengths.
pub open spec fn span_le(a: (u64, u32), b: (u64, u32)) -> bool {
    a.0 < b.0 || (a.0 == b.0 && a.1 <= b.1)
}

/// A report row as plain values: the section's name and its span.
pub open spec fn row_view(e: (String, (u64, u32))) -> (Seq<char>, (u64, u32)) {
    (e.0@, e.1)
}

/// Report rows as plain values.
pub open spec fn rows_view(s: Seq<(String, (u64, u32))>) -> Seq<(Seq<char>, (u64, u32))> {
    s.map_values(|e: (String, (u64, u32))| row_view(e))
}

/// The rows whose span is `k`.
pub open spec fn with_span(s: Seq<(Seq<char>, (u64, u32))>, k: (u64, u32)) -> Seq<(Seq<char>, (u64, u32))> {
    s.filter(same_span(k))
}

/// Whether a row's span is `k`.
pub open spec fn same_span(k: (u64, u32)) -> spec_fn((Seq<char>, (u64, u32))) -> bool {
    |e: (Seq<char>, (u64, u32))| e.1 == k
}

proof fn lemma_filter_reverse<A>(s: Seq<A>, f: spec_fn(A) -> bool)
    ensures
        s.reverse().filter(f) == s.filter(f).reverse(),
    decreases s.len(),
{
    reveal_with_fuel(Seq::filter, 2);
    if s.len() > 0 {
        let d = s.drop_last();
        let x = s.last();
        lemma_filter_reverse(d, f);
        assert(s.reverse() =~= seq![x] + d.reverse());
        Seq::filter_distributes_over_add(seq![x], d.reverse(), f);
        assert(seq![x].drop_last() =~= Seq::<A>::empty());
        if f(x) {
            assert(seq![x].filter(f) =~= seq![x]);
            assert(d.filter(f).push(x).reverse() =~= seq![x] + d.filter(f).reverse());
        } else {
            assert(seq![x].filter(f) =~= Seq::<A>::empty());
            assert(Seq::<A>::empty() + d.reverse().filter(f) =~= d.reverse().filter(f));
        }
    } else {
        assert(s.reverse() =~= s);
    }
}

/// Sorts rows by their span, shortest first, with `Itertools::sorted_by_key`,
/// which is a stable sort: rows of equal span keep their order.
#[verifier::external_body]
fn sorted_by_span(rows: Vec<(String, (u64, u32))>) -> (r: Vec<(String, (u64, u32))>)
    ensures
        r.len() == rows.len(),
        rows_view(r@).to_multiset()
            == rows_view(rows@).to_multiset(),
        forall|i: int, j: int| 0 <= i < j < r.len() ==> span_le(#[trigger] r@[i].1, #[trigger] r@[j].1),
        forall|k: (u64, u32)|
            with_span(rows_view(r@), k)
                == #[trigger] with_span(rows_view(rows@), k),
{
    rows.into_iter().sorted_by_key(|e| e.1).collect()
}

/// The spans per section name that a list of distinct names gives.
pub open spec fn spans_of(s: Seq<(Seq<char>, (u64, u32))>) -> Map<Seq<char>, (u64, u32)>
    decreases s.len(),
{
    if s.len() == 0 {
        Map::empty()
    } else {
        spans_of(s.drop_last()).insert(s.last().0, s.last().1)
    }
}

/// The total of all spans in a list, in nanoseconds.
pub open spec fn total_of(s: Seq<(Seq<char>, (u64, u32))>) -> nat
    decreases s.len(),
{
    if s.len() == 0 {
        0
    } else {
        total_of(s.drop_last()) + span_nanos(s.last().1)
    }
}

/// No name occurs twice.
pub open spec fn distinct_names(s: Seq<(Seq<char>, (u64, u32))>) -> bool {
    forall|i: int, j: int| 0 <= i < s.len() && 0 <= j < s.len() && i != j ==> s[i].0 != s[j].0
}

proof fn lemma_spans_of_index(s: Seq<(Seq<char>, (u64, u32))>, i: int)
    requires
        distinct_names(s),
        0 <= i < s.len(),
    ensures
        spans_of(s).contains_key(s[i].0),
        spans_of(s)[s[i].0] == s[i].1,
    decreases s.len(),
{
    if i < s.len() - 1 {
        lemma_spans_of_index(s.drop_last(), i);
        assert(s.drop_last()[i] == s[i]);
        assert(s[i].0 != s.last().0);
    }
}

proof fn lemma_spans_of_absent(s: Seq<(Seq<char>, (u64, u32))>, k: Seq<char>)
    requires
        forall|i: int| 0 <= i < s.len() ==> s[i].0 != k,
    ensures
        !spans_of(s).contains_key(k),
    decreases s.len(),
{
    if s.len() > 0 {
        assert forall|i: int| 0 <= i < s.drop_last().len() implies s.drop_last()[i].0 != k by {
            assert(s.drop_last()[i] == s[i]);
        }
        lemma_spans_of_absent(s.drop_last(), k);
    }
}

proof fn lemma_spans_of_update(s: Seq<(Seq<char>, (u64, u32))>, i: int, v: (u64, u32))
    requires
        distinct_names(s),
        0 <= i < s.len(),
    ensures
        spans_of(s.update(i, (s[i].0, v))) == spans_of(s).insert(s[i].0, v),
        total_of(s.update(i, (s[i].0, v))) + span_nanos(s[i].1) == total_of(s) + span_nanos(v),
    decreases s.len(),
{
    let t = s.update(i, (s[i].0, v));
    if i == s.len() - 1 {
        assert(t.drop_last() =~= s.drop_last());
        assert(spans_of(t) =~= spans_of(s).insert(s[i].0, v));
    } else {
        let d = s.drop_last();
        assert(t.drop_last() =~= d.update(i, (d[i].0, v)));
        assert(distinct_names(d));
        lemma_spans_of_update(d, i, v);
        assert(s[i].0 != s.last().0);
        assert(spans_of(t) =~= spans_of(s).insert(s[i].0, v));
    }
}

/// The accumulated time of one section, zero before it has run.
pub open spec fn span_or_zero(m: Map<Seq<char>, (u64, u32)>, k: Seq<char>) -> (u64, u32) {
    if m.contains_key(k) {
        m[k]
    } else {
        (0, 0)
    }
}

/// A sum that fits comes back whole from seconds and nanoseconds.
pub proof fn lemma_span_plus_nanos(a: (u64, u32), b: (u64, u32))
    requires
        span_nanos(a) + span_nanos(b) <= max_span_nanos(),
    ensures
        span_nanos(span_plus(a, b)) == span_nanos(a) + span_nanos(b),
        span_ok(span_plus(a, b)),
{
    let n = (span_nanos(a) + span_nanos(b)) as int;
    lemma_fundamental_div_mod(n, 1_000_000_000);
    lemma_mod_bound(n, 1_000_000_000);
    lemma_div_pos_is_pos(n, 1_000_000_000);
    lemma_div_is_ordered(n, max_span_nanos() as int, 1_000_000_000);
    lemma_fundamental_div_mod_converse(max_span_nanos() as int, 1_000_000_000, 0xffff_ffff_ffff_ffff, 999_999_999);
}

/// Adds two spans, or gives `None` where the sum does not fit.
fn span_add(a: (u64, u32), b: (u64, u32)) -> (r: Option<(u64, u32)>)
    requires
        span_ok(a),
        span_ok(b),
    ensures
        r is Some <==> span_nanos(a) + span_nanos(b) <= max_span_nanos(),
        r matches Some(c) ==> c == span_plus(a, b) && span_ok(c) && span_nanos(c) == span_nanos(a)
            + span_nanos(b),
{
    let nanos: u32 = a.1 + b.1;
    let (carry, nanos): (u64, u32) = if nanos >= NANOS_PER_SEC {
        (1, nanos - NANOS_PER_SEC)
    } else {
        (0, nanos)
    };
    let secs = a.0.checked_add(b.0);
    let secs = match secs {
        Some(s) => s.checked_add(carry),
        None => None,
    };
    match secs {
        Some(s) => {
            let c = (s, nanos);
            proof {
                let n = span_nanos(a) + span_nanos(b);
                assert(n == s as int * 1_000_000_000 + nanos as int);
                lemma_fundamental_div_mod_converse(n as int, 1_000_000_000, s as int, nanos as int);
            }
            Some(c)
        },
        None => None,
    }
}

/// Charges running time to named sections.
pub struct TimeSlice {
    entries: Vec<(String, (u64, u32))>,
    name: String,
    time: Instant,
}

impl TimeSlice {
    /// The sections in the order in which they first ran, with their time.
    pub closed spec fn entries_view(self) -> Seq<(Seq<char>, (u64, u32))> {
        rows_view(self.entries@)
    }

    /// The time charged to each section that has run.
    pub closed spec fn spans(self) -> Map<Seq<char>, (u64, u32)> {
        spans_of(self.entries_view())
    }

    /// The time charged to all sections together, in nanoseconds.
    pub closed spec fn total_nanos(self) -> nat {
        total_of(self.entries_view())
    }

    /// The section that is running.
    pub closed spec fn current(self) -> Seq<char> {
        self.name@
    }

    /// When the running section started.
    pub closed spec fn started(self) -> Instant {
        self.time
    }

    /// Every section occurs once, and every span is in seconds and nanoseconds below a second.
    pub closed spec fn wf(self) -> bool {
        &&& distinct_names(self.entries_view())
        &&& forall|i: int| 0 <= i < self.entries.len() ==> span_ok(#[trigger] self.entries@[i].1)
    }

    /// Whether charging `e` to the running section keeps its total within a `Duration`.
    pub open spec fn charge_fits(self, e: (u64, u32)) -> bool {
        span_nanos(span_or_zero(self.spans(), self.current())) + span_nanos(e) <= max_span_nanos()
    }

    /// The time per section after charging `e` to the running section.
    pub open spec fn charged_spans(self, e: (u64, u32)) -> Map<Seq<char>, (u64, u32)> {
        self.spans().insert(self.current(), span_plus(span_or_zero(self.spans(), self.current()), e))
    }

    /// Starts the clock with `start` as the running section.
    pub fn new(start: &'static str) -> (r: TimeSlice)
        ensures
            r.wf(),
            r.spans() == Map::<Seq<char>, (u64, u32)>::empty(),
            r.total_nanos() == 0,
            r.current() == start@,
    {
        let r = TimeSlice { entries: Vec::new(), name: String::from_str(start), time: instant_now() };
        proof {
            assert(r.entries_view() =~= Seq::<(Seq<char>, (u64, u32))>::empty());
        }
        r
    }

    /// Where the section named `key` stands in the list.
    fn find(&self, key: &String) -> (r: Option<usize>)
        ensures
            r matches Some(i) ==> i < self.entries.len() && self.entries_view()[i as int].0 == key@,
            r is None ==> forall|i: int|
                0 <= i < self.entries.len() ==> self.entries_view()[i].0 != key@,
    {
        let mut i: usize = 0;
        while i < self.entries.len()
            invariant
                i <= self.entries.len(),
                forall|j: int| 0 <= j < i ==> self.entries_view()[j].0 != key@,
            decreases self.entries.len() - i,
        {
            if self.entries[i].0 == *key {
                return Some(i);
            }
            i = i + 1;
        }
        None
    }

    /// Charges `elapsed` to the running section, then makes `new` the running
    /// section, started at `now`.
    pub fn record(&mut self, new: &str, now: Instant, elapsed: (u64, u32))
        requires
            old(self).wf(),
            span_ok(elapsed),
            span_nanos(span_or_zero(old(self).spans(), old(self).current())) + span_nanos(elapsed)
                <= max_span_nanos(),
        ensures
            final(self).wf(),
            final(self).spans() == old(self).spans().insert(
                old(self).current(),
                span_plus(span_or_zero(old(self).spans(), old(self).current()), elapsed),
            ),
            span_nanos(final(self).spans()[old(self).current()]) == span_nanos(
                span_or_zero(old(self).spans(), old(self).current()),
            ) + span_nanos(elapsed),
            final(self).total_nanos() == old(self).total_nanos() + span_nanos(elapsed),
            final(self).current() == new@,
            final(self).started() == now,
    {
        proof {
            lemma_span_plus_nanos(span_or_zero(self.spans(), self.name@), elapsed);
        }
        let ghost before = self.entries_view();
        let ghost cur = self.name@;
        match self.find(&self.name) {
            Some(i) => {
                proof {
                    lemma_spans_of_index(before, i as int);
                }
                let old_span = self.entries[i].1;
                let sum = span_add(old_span, elapsed);
                let span = match sum {
                    Some(c) => c,
                    None => {
                        proof {
                            assert(false);
                        }
                        (0, 0)
                    },
                };
                let key = self.entries[i].0.clone();
                self.entries.set(i, (key, span));
                proof {
                    lemma_spans_of_update(before, i as int, span);
                    assert(self.entries_view() =~= before.update(i as int, (before[i as int].0, span)));
                    assert forall|a: int, b: int|
                        0 <= a < self.entries_view().len() && 0 <= b < self.entries_view().len() && a
                            != b implies self.entries_view()[a].0 != self.entries_view()[b].0 by {
                        assert(before[a].0 != before[b].0);
                    }
                }
            },
            None => {
                proof {
                    lemma_spans_of_absent(before, cur);
                }
                let span = elapsed;
                proof {
                    assert(span_plus((0, 0), elapsed) == elapsed) by {
                        lemma_fundamental_div_mod_converse(
                            span_nanos(elapsed) as int,
                            1_000_000_000,
                            elapsed.0 as int,
                            elapsed.1 as int,
                        );
                    }
                }
                let key = self.name.clone();
                self.entries.push((key, span));
                proof {
                    assert(self.entries_view() =~= before.push((cur, span)));
                    assert(self.entries_view().drop_last() =~= before);
                    assert forall|a: int, b: int|
                        0 <= a < self.entries_view().len() && 0 <= b < self.entries_view().len() && a
                            != b implies self.entries_view()[a].0 != self.entries_view()[b].0 by {
                        if a < before.len() && b < before.len() {
                            assert(before[a].0 != before[b].0);
                        }
                    }
                }
            },
        }
        self.name = String::from_str(new);
        self.time = now;
    }

    /// Reads the clock, charges the time since the last call to the running
    /// section and makes `new` the running section. Where the running section's
    /// total would no longer fit in a `Duration`, nothing changes and the result
    /// is `false`.
    pub fn set(&mut self, new: &'static str) -> (recorded: bool)
        requires
            old(self).wf(),
        ensures
            final(self).wf(),
            recorded ==> old(self).charge_fits(instant_span(final(self).started(), old(self).started())),
            recorded ==> final(self).spans() == old(self).charged_spans(
                instant_span(final(self).started(), old(self).started()),
            ),
            recorded ==> span_nanos(final(self).spans()[old(self).current()]) == span_nanos(
                span_or_zero(old(self).spans(), old(self).current()),
            ) + span_nanos(instant_span(final(self).started(), old(self).started())),
            recorded ==> final(self).total_nanos() == old(self).total_nanos() + span_nanos(
                instant_span(final(self).started(), old(self).started()),
            ),
            recorded ==> final(self).current() == new@,
            !recorded ==> *final(self) == *old(self),
            !recorded ==> exists|now: Instant|
                span_ok(#[trigger] instant_span(now, old(self).started())) && !old(self).charge_fits(
                    instant_span(now, old(self).started()),
                ),
    {
        let now = instant_now();
        let elapsed = elapsed_between(now, self.time);
        let found = self.find(&self.name);
        let running = match found {
            Some(i) => {
                proof {
                    lemma_spans_of_index(self.entries_view(), i as int);
                }
                self.entries[i].1
            },
            None => {
                proof {
                    lemma_spans_of_absent(self.entries_view(), self.name@);
                }
                (0, 0)
            },
        };
        if span_add(running, elapsed).is_none() {
            assert(!self.charge_fits(instant_span(now, self.time)));
            assert(!self.charge_fits(instant_span(now, self.started())));
            return false;
        }
        self.record(new, now, elapsed);
        true
    }

    /// The time charged to the section `key`, if it has run.
    pub fn get(&self, key: &'static str) -> (r: Option<Duration>)
        requires
            self.wf(),
        ensures
            self.spans().contains_key(key@) ==> r == Some(
                duration_of(self.spans()[key@].0, self.spans()[key@].1),
            ),
            !self.spans().contains_key(key@) ==> r is None,
    {
        let k = String::from_str(key);
        match self.find(&k) {
            Some(i) => {
                proof {
                    lemma_spans_of_index(self.entries_view(), i as int);
                }
                let span = self.entries[i].1;
                Some(duration_new(span.0, span.1))
            },
            None => {
                proof {
                    lemma_spans_of_absent(self.entries_view(), key@);
                }
                None
            },
        }
    }

    /// Charges the time since the last call to the running section and
    /// leaves the clock running for a section with the empty name.
    pub fn stop(&mut self) -> (recorded: bool)
        requires
            old(self).wf(),
        ensures
            final(self).wf(),
            recorded ==> old(self).charge_fits(instant_span(final(self).started(), old(self).started())),
            recorded ==> final(self).spans() == old(self).charged_spans(
                instant_span(final(self).started(), old(self).started()),
            ),
            recorded ==> span_nanos(final(self).spans()[old(self).current()]) == span_nanos(
                span_or_zero(old(self).spans(), old(self).current()),
            ) + span_nanos(instant_span(final(self).started(), old(self).started())),
            recorded ==> final(self).total_nanos() == old(self).total_nanos() + span_nanos(
                instant_span(final(self).started(), old(self).started()),
            ),
            recorded ==> final(self).current() == Seq::<char>::empty(),
            !recorded ==> *final(self) == *old(self),
            !recorded ==> exists|now: Instant|
                span_ok(#[trigger] instant_span(now, old(self).started())) && !old(self).charge_fits(
                    instant_span(now, old(self).started()),
                ),
    {
        let r = self.set("");
        proof {
            reveal_strlit("");
        }
        r
    }

    /// The sections with their time, from the most expensive down; sections
    /// with equal time come in the reverse of the order in which they first ran.
    pub fn show(&self) -> (rows: Vec<(String, (u64, u32))>)
        requires
            self.wf(),
        ensures
            rows_view(rows@).to_multiset() == self.entries_view().to_multiset(),
            forall|i: int, j: int| 0 <= i < j < rows.len() ==> span_le(#[trigger] rows@[j].1, #[trigger] rows@[i].1),
            forall|k: (u64, u32)| #[trigger] with_span(rows_view(rows@), k) == with_span(self.entries_view(), k).reverse(),
    {
        let mut copy: Vec<(String, (u64, u32))> = Vec::new();
        let mut i: usize = 0;
        while i < self.entries.len()
            invariant
                i <= self.entries.len(),
                rows_view(copy@) =~= self.entries_view().take(i as int),
            decreases self.entries.len() - i,
        {
            let ghost before = copy@;
            let name = self.entries[i].0.clone();
            copy.push((name, self.entries[i].1));
            proof {
                assert(rows_view(copy@) =~= rows_view(before).push(self.entries_view()[i as int]));
                assert(self.entries_view().take(i + 1) =~= self.entries_view().take(i as int).push(
                    self.entries_view()[i as int],
                ));
            }
            i = i + 1;
        }
        assert(self.entries_view().take(self.entries.len() as int) =~= self.entries_view());
        let mut sorted = sorted_by_span(copy);
        let ghost all = sorted@;
        let n = sorted.len();
        let mut rows: Vec<(String, (u64, u32))> = Vec::new();
        while sorted.len() > 0
            invariant
                sorted.len() <= n,
                n == all.len(),
                sorted@ =~= all.take(sorted.len() as int),
                rows@ =~= all.skip(sorted.len() as int).reverse(),
            decreases sorted.len(),
        {
            let ghost before = sorted@;
            let e = sorted.pop().unwrap();
            proof {
                assert(all.skip(sorted.len() as int) =~= seq![e] + all.skip(before.len() as int));
            }
            rows.push(e);
        }
        proof {
            assert(all.skip(0) =~= all);
            assert(rows_view(rows@) =~= rows_view(all).reverse());
            rows_view(all).lemma_reverse_to_multiset();
            assert forall|k: (u64, u32)| #[trigger] with_span(rows_view(rows@), k) == with_span(self.entries_view(), k).reverse() by {
                lemma_filter_reverse(rows_view(all), same_span(k));
            }
        }
        rows
    }
}

/// The time that a sequence of charges puts on section `k`, in nanoseconds.
pub open spec fn charged_to(charges: Seq<(Seq<char>, (u64, u32))>, k: Seq<char>) -> nat
    decreases charges.len(),
{
    if charges.len() == 0 {
        0
    } else {
        charged_to(charges.drop_last(), k) + if charges.last().0 == k {
            span_nanos(charges.last().1)
        } else {
            0
        }
    }
}

/// Whether `states` is a run of a stopwatch from its start: each step charges
/// `charges[i].1` to the section `charges[i].0` that was running, as `set`,
/// `stop` and `record` do.
pub open spec fn is_run(states: Seq<TimeSlice>, charges: Seq<(Seq<char>, (u64, u32))>) -> bool {
    &&& states.len() == charges.len() + 1
    &&& states[0].spans() == Map::<Seq<char>, (u64, u32)>::empty()
    &&& forall|i: int|
        0 <= i < charges.len() ==> {
            &&& (#[trigger] charges[i]).0 == states[i].current()
            &&& states[i].charge_fits(charges[i].1)
            &&& states[i + 1].spans() == states[i].charged_spans(charges[i].1)
        }
}

/// The time that `get` reports for a section is the sum of all the time
/// charged to it since the stopwatch started, and a section has a time
/// exactly when something was charged to it.
pub proof fn law_time_is_sum_of_charges(
    states: Seq<TimeSlice>,
    charges: Seq<(Seq<char>, (u64, u32))>,
    k: Seq<char>,
)
    requires
        is_run(states, charges),
    ensures
        states.last().spans().contains_key(k) <==> exists|i: int|
            0 <= i < charges.len() && (#[trigger] charges[i]).0 == k,
        span_nanos(span_or_zero(states.last().spans(), k)) == charged_to(charges, k),
    decreases charges.len(),
{
    if charges.len() > 0 {
        let n = charges.len() - 1;
        let ps = states.drop_last();
        let pc = charges.drop_last();
        assert(is_run(ps, pc)) by {
            assert forall|i: int| 0 <= i < pc.len() implies {
                &&& (#[trigger] pc[i]).0 == ps[i].current()
                &&& ps[i].charge_fits(pc[i].1)
                &&& ps[i + 1].spans() == ps[i].charged_spans(pc[i].1)
            } by {
                assert(pc[i] == charges[i]);
            }
        }
        law_time_is_sum_of_charges(ps, pc, k);
        let c = charges[n];
        let before = states[n];
        assert(charges[n] == c);
        assert(ps.last() == before);
        lemma_span_plus_nanos(span_or_zero(before.spans(), before.current()), c.1);
        if c.0 == k {
            assert(exists|i: int| 0 <= i < charges.len() && (#[trigger] charges[i]).0 == k);
        } else {
            if states.last().spans().contains_key(k) {
                let i = choose|i: int| 0 <= i < pc.len() && (#[trigger] pc[i]).0 == k;
                assert(charges[i] == pc[i]);
            }
            if exists|i: int| 0 <= i < charges.len() && (#[trigger] charges[i]).0 == k {
                let i = choose|i: int| 0 <= i < charges.len() && (#[trigger] charges[i]).0 == k;
                assert(pc[i] == charges[i]);
            }
        }
    }
}

/// Charging any span to a section that has not run yet always fits, so the
/// first switch away from a section always records its time.
pub proof fn law_fresh_section_charge_fits(t: TimeSlice, e: (u64, u32))
    requires
        span_ok(e),
        !t.spans().contains_key(t.current()),
    ensures
        t.charge_fits(e),
{
}

} // verus!
