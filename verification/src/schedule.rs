//! A schedule read from configuration: entries of a time and a wallpaper,
//! kept in ascending order of time and read as one repeating day.

use crate::clock::ClockTime;
use vstd::prelude::*;

verus! {

/// One line of a schedule: from `time` on, a later entry applies; up to
/// `time`, this one does.
#[derive(Debug, Clone, PartialEq, Eq)]
pub struct ScheduleEntry {
    pub time: ClockTime,
    pub wallpaper: String,
}

/// What an entry holds, as plain values.
pub struct EntryView {
    pub time: ClockTime,
    pub wallpaper: Seq<char>,
}

impl View for ScheduleEntry {
    type V = EntryView;

    open spec fn view(&self) -> EntryView {
        EntryView { time: self.time, wallpaper: self.wallpaper@ }
    }
}

/// The views of a sequence of entries, in the same order.
pub open spec fn views(entries: Seq<ScheduleEntry>) -> Seq<EntryView> {
    Seq::new(entries.len(), |i: int| entries[i]@)
}

/// No entry comes before one with an earlier time.
pub open spec fn ascending(s: Seq<EntryView>) -> bool {
    forall|i: int, j: int| 0 <= i < j < s.len() ==> !(#[trigger] s[j]).time.precedes((#[trigger] s[i]).time)
}

/// The entries of `s` whose time is `t`, in the order in which `s` has them.
pub open spec fn at_time(s: Seq<EntryView>, t: ClockTime) -> Seq<EntryView>
    decreases s.len(),
{
    if s.len() == 0 {
        Seq::empty()
    } else if s.last().time == t {
        at_time(s.drop_last(), t).push(s.last())
    } else {
        at_time(s.drop_last(), t)
    }
}

/// `sorted` holds the entries of `given` in ascending order of time, and
/// entries of the same time in the order in which `given` has them.
pub open spec fn stable_sort_of(sorted: Seq<EntryView>, given: Seq<EntryView>) -> bool {
    &&& sorted.len() == given.len()
    &&& ascending(sorted)
    &&& forall|t: ClockTime| #[trigger] at_time(sorted, t) == at_time(given, t)
}

/// Entry `i` of `s` is the one in force at `now`: the first entry whose time
/// is later than `now`, or the very first entry where none is later.
pub open spec fn is_active(s: Seq<EntryView>, now: ClockTime, i: int) -> bool {
    &&& 0 <= i < s.len()
    &&& forall|j: int| 0 <= j < i ==> !now.precedes((#[trigger] s[j]).time)
    &&& (now.precedes(s[i].time) || (i == 0 && forall|j: int|
        0 <= j < s.len() ==> !now.precedes((#[trigger] s[j]).time)))
}

/// The entry that comes just before entry `i` in the repeating day.
pub open spec fn cyclic_predecessor(len: int, i: int) -> int {
    if i == 0 {
        len - 1
    } else {
        i - 1
    }
}

/// The entries of one time in two sequences joined are those of the first
/// followed by those of the second.
pub proof fn lemma_at_time_concat(a: Seq<EntryView>, b: Seq<EntryView>, t: ClockTime)
    ensures
        at_time(a + b, t) == at_time(a, t) + at_time(b, t),
    decreases b.len(),
{
    if b.len() == 0 {
        assert(a + b =~= a);
        assert(at_time(a, t) + at_time(b, t) =~= at_time(a, t));
    } else {
        lemma_at_time_concat(a, b.drop_last(), t);
        assert((a + b).drop_last() =~= a + b.drop_last());
        assert((a + b).last() == b.last());
        if b.last().time == t {
            assert(at_time(a, t) + at_time(b.drop_last(), t).push(b.last()) =~= (at_time(a, t)
                + at_time(b.drop_last(), t)).push(b.last()));
        }
    }
}

/// A sequence without an entry of the time `t` has none to show for it.
pub proof fn lemma_at_time_absent(a: Seq<EntryView>, t: ClockTime)
    requires
        forall|i: int| 0 <= i < a.len() ==> (#[trigger] a[i]).time != t,
    ensures
        at_time(a, t) == Seq::<EntryView>::empty(),
    decreases a.len(),
{
    if a.len() > 0 {
        assert(a.last() == a[a.len() - 1]);
        lemma_at_time_absent(a.drop_last(), t);
    }
}

/// Putting `e` in front of the first entry that is not earlier than `e`
/// keeps an ascending sequence ascending, and leaves `e` ahead of the
/// entries of its own time, as if it had been put at the very front.
pub proof fn lemma_insert_keeps_order(s: Seq<EntryView>, e: EntryView, p: int)
    requires
        ascending(s),
        0 <= p <= s.len(),
        forall|k: int| 0 <= k < p ==> (#[trigger] s[k]).time.precedes(e.time),
        p < s.len() ==> !s[p].time.precedes(e.time),
    ensures
        ascending(s.insert(p, e)),
        forall|t: ClockTime| #[trigger] at_time(s.insert(p, e), t) == at_time(seq![e] + s, t),
{
    let out = s.insert(p, e);
    assert forall|i: int, j: int| 0 <= i < j < out.len() implies !(#[trigger] out[j]).time.precedes(
        (#[trigger] out[i]).time) by {
        if j == p {
            assert(out[i] == s[i]);
        } else if i == p {
            assert(out[j] == s[j - 1]);
            if j - 1 > p {
                assert(!s[j - 1].time.precedes(s[p].time));
            }
        } else if i < p && j > p {
            assert(out[i] == s[i]);
            assert(out[j] == s[j - 1]);
        } else if j < p {
            assert(out[i] == s[i]);
            assert(out[j] == s[j]);
        } else {
            assert(out[i] == s[i - 1]);
            assert(out[j] == s[j - 1]);
        }
    }
    let head = s.subrange(0, p);
    let tail = s.subrange(p, s.len() as int);
    assert(out =~= head + (seq![e] + tail));
    assert(s =~= head + tail);
    assert forall|t: ClockTime| #[trigger] at_time(out, t) == at_time(seq![e] + s, t) by {
        lemma_at_time_concat(head, seq![e] + tail, t);
        lemma_at_time_concat(seq![e], tail, t);
        lemma_at_time_concat(seq![e], s, t);
        lemma_at_time_concat(head, tail, t);
        if e.time == t {
            assert forall|i: int| 0 <= i < head.len() implies (#[trigger] head[i]).time != t by {
                assert(head[i] == s[i]);
            }
            lemma_at_time_absent(head, t);
            assert(at_time(head, t) + (at_time(seq![e], t) + at_time(tail, t)) =~= at_time(
                seq![e],
                t,
            ) + (at_time(head, t) + at_time(tail, t)));
        } else {
            lemma_at_time_absent(seq![e], t);
            assert(at_time(head, t) + (at_time(seq![e], t) + at_time(tail, t)) =~= at_time(
                seq![e],
                t,
            ) + (at_time(head, t) + at_time(tail, t)));
        }
    }
}

/// At most one entry is in force at any time.
pub proof fn lemma_active_unique(s: Seq<EntryView>, now: ClockTime, i: int, j: int)
    requires
        is_active(s, now, i),
        is_active(s, now, j),
    ensures
        i == j,
{
}

/// Where some entry of `s` has the time `t`, this names one.
pub proof fn lemma_at_time_witness(s: Seq<EntryView>, t: ClockTime) -> (i: int)
    requires
        at_time(s, t).len() > 0,
    ensures
        0 <= i < s.len(),
        s[i].time == t,
    decreases s.len(),
{
    if s.last().time == t {
        s.len() - 1
    } else {
        let i = lemma_at_time_witness(s.drop_last(), t);
        assert(s.drop_last()[i] == s[i]);
        i
    }
}

/// Two ascending sequences of one length that hold, time by time, the same
/// entries in the same order are the same sequence.
pub proof fn lemma_ascending_determined(a: Seq<EntryView>, b: Seq<EntryView>)
    requires
        ascending(a),
        ascending(b),
        a.len() == b.len(),
        forall|t: ClockTime| #[trigger] at_time(a, t) == at_time(b, t),
    ensures
        a == b,
    decreases a.len(),
{
    if a.len() == 0 {
        assert(a =~= b);
    } else {
        let x = a.last();
        let y = b.last();
        let a0 = a.drop_last();
        let b0 = b.drop_last();
        assert(at_time(a, x.time) == at_time(a0, x.time).push(x));
        assert(at_time(b, y.time) == at_time(b0, y.time).push(y));
        assert(at_time(a, x.time) == at_time(b, x.time));
        assert(at_time(a, y.time) == at_time(b, y.time));
        let i = lemma_at_time_witness(b, x.time);
        let j = lemma_at_time_witness(a, y.time);
        assert(!y.time.precedes(x.time)) by {
            if i < b.len() - 1 {
                assert(!b[b.len() - 1].time.precedes(b[i].time));
            }
        }
        assert(!x.time.precedes(y.time)) by {
            if j < a.len() - 1 {
                assert(!a[a.len() - 1].time.precedes(a[j].time));
            }
        }
        assert(x.time == y.time);
        assert(at_time(a, x.time).last() == x);
        assert(at_time(b, x.time).last() == y);
        assert(x == y);
        assert forall|t: ClockTime| #[trigger] at_time(a0, t) == at_time(b0, t) by {
            assert(at_time(a, t) == at_time(b, t));
            if t == x.time {
                assert(at_time(a0, t) =~= at_time(a, t).drop_last());
                assert(at_time(b0, t) =~= at_time(b, t).drop_last());
            }
        }
        assert forall|i: int, j: int| 0 <= i < j < a0.len() implies !(#[trigger] a0[j]).time.precedes(
            (#[trigger] a0[i]).time,
        ) by {
            assert(a0[i] == a[i] && a0[j] == a[j]);
        }
        assert forall|i: int, j: int| 0 <= i < j < b0.len() implies !(#[trigger] b0[j]).time.precedes(
            (#[trigger] b0[i]).time,
        ) by {
            assert(b0[i] == b[i] && b0[j] == b[j]);
        }
        lemma_ascending_determined(a0, b0);
        assert(a =~= a0.push(x));
        assert(b =~= b0.push(y));
    }
}

/// A sequence has one stable sort only.
pub proof fn lemma_stable_sort_is_unique(a: Seq<EntryView>, b: Seq<EntryView>, given: Seq<EntryView>)
    requires
        stable_sort_of(a, given),
        stable_sort_of(b, given),
    ensures
        a == b,
{
    assert forall|t: ClockTime| #[trigger] at_time(a, t) == at_time(b, t) by {
        assert(at_time(a, t) == at_time(given, t));
        assert(at_time(b, t) == at_time(given, t));
    }
    lemma_ascending_determined(a, b);
}

/// Sorts entries by time, ascending. Entries of the same time keep the order
/// in which they were given.
pub fn sort_entries(entries: Vec<ScheduleEntry>) -> (r: Vec<ScheduleEntry>)
    ensures
        stable_sort_of(views(r@), views(entries@)),
{
    let ghost given = views(entries@);
    let mut rest = entries;
    let mut out: Vec<ScheduleEntry> = Vec::new();
    proof {
        assert(given.subrange(given.len() as int, given.len() as int) =~= Seq::<EntryView>::empty());
        assert(views(out@) =~= Seq::<EntryView>::empty());
    }
    while rest.len() > 0
        invariant
            views(rest@) == given.subrange(0, rest@.len() as int),
            rest@.len() <= given.len(),
            out@.len() + rest@.len() == given.len(),
            ascending(views(out@)),
            forall|t: ClockTime| #[trigger]
                at_time(views(out@), t) == at_time(
                    given.subrange(rest@.len() as int, given.len() as int),
                    t,
                ),
        decreases rest@.len(),
    {
        let ghost before = views(out@);
        let ghost n = rest@.len() as int;
        let ghost old_rest = rest@;
        let popped = rest.pop();
        let e = popped.unwrap();
        let mut p: usize = 0;
        while p < out.len() && out[p].time.is_before(&e.time)
            invariant
                p <= out@.len(),
                forall|k: int| 0 <= k < p ==> (#[trigger] views(out@)[k]).time.precedes(e.time),
            decreases out@.len() - p,
        {
            assert(views(out@)[p as int] == out@[p as int]@);
            p = p + 1;
        }
        proof {
            if p < out@.len() {
                assert(views(out@)[p as int] == out@[p as int]@);
            }
            lemma_insert_keeps_order(before, e@, p as int);
            assert(views(old_rest)[n - 1] == e@);
            assert(given[n - 1] == e@);
        }
        out.insert(p, e);
        proof {
            assert(views(out@) =~= before.insert(p as int, e@));
            assert(views(rest@) =~= given.subrange(0, n - 1));
            assert(given.subrange(n - 1, given.len() as int) =~= seq![e@] + given.subrange(
                n,
                given.len() as int,
            ));
            assert forall|t: ClockTime| #[trigger]
                at_time(views(out@), t) == at_time(
                    given.subrange(n - 1, given.len() as int),
                    t,
                ) by {
                lemma_at_time_concat(seq![e@], before, t);
                lemma_at_time_concat(seq![e@], given.subrange(n, given.len() as int), t);
                assert(at_time(before, t) == at_time(given.subrange(n, given.len() as int), t));
            }
        }
    }
    proof {
        assert(given.subrange(0, given.len() as int) =~= given);
    }
    out
}

/// A schedule that can be consulted: it holds at least one entry, and its
/// entries are in ascending order of time.
#[derive(Debug)]
pub struct Schedule {
    entries: Vec<ScheduleEntry>,
}

impl View for Schedule {
    type V = Seq<EntryView>;

    closed spec fn view(&self) -> Seq<EntryView> {
        views(self.entries@)
    }
}

impl Schedule {
    #[verifier::type_invariant]
    spec fn inv(self) -> bool {
        self.entries@.len() > 0 && ascending(views(self.entries@))
    }

    /// Sorts the entries into a schedule. An empty list makes none.
    pub fn new(entries: Vec<ScheduleEntry>) -> (r: Option<Schedule>)
        ensures
            r is None <==> entries@.len() == 0,
            r matches Some(s) ==> stable_sort_of(s@, views(entries@)),
    {
        if entries.len() == 0 {
            None
        } else {
            let sorted = sort_entries(entries);
            Some(Schedule { entries: sorted })
        }
    }

    /// The entries, in ascending order of time.
    pub fn entries(&self) -> (r: &Vec<ScheduleEntry>)
        ensures
            views(r@) == self@,
            r@.len() > 0,
            ascending(self@),
    {
        proof {
            use_type_invariant(self);
        }
        &self.entries
    }

    /// The number of entries, which is never zero.
    pub fn len(&self) -> (r: usize)
        ensures
            r == self@.len(),
            r > 0,
    {
        proof {
            use_type_invariant(self);
        }
        self.entries.len()
    }

    /// The position of the entry in force at `now`.
    pub fn active_index(&self, now: ClockTime) -> (r: usize)
        ensures
            is_active(self@, now, r as int),
    {
        proof {
            use_type_invariant(self);
        }
        let mut i: usize = 0;
        while i < self.entries.len()
            invariant
                i <= self.entries@.len(),
                forall|j: int| 0 <= j < i ==> !now.precedes((#[trigger] self@[j]).time),
            decreases self.entries@.len() - i,
        {
            if now.is_before(&self.entries[i].time) {
                assert(self@[i as int] == self.entries@[i as int]@);
                return i;
            }
            assert(self@[i as int] == self.entries@[i as int]@);
            i = i + 1;
        }
        0
    }

    /// The position of the entry that was in force before the one at `now`.
    pub fn previous_index(&self, now: ClockTime) -> (r: usize)
        ensures
            exists|i: int| #[trigger] is_active(self@, now, i) && r == cyclic_predecessor(self@.len() as int, i),
    {
        proof {
            use_type_invariant(self);
        }
        let i = self.active_index(now);
        if i == 0 {
            self.entries.len() - 1
        } else {
            i - 1
        }
    }

    /// The wallpaper to show at `now`: that of the first entry whose time is
    /// later than `now`, or of the first entry of all where none is later.
    pub fn active_wallpaper(&self, now: ClockTime) -> (r: &str)
        ensures
            exists|i: int| #[trigger] is_active(self@, now, i) && r@ == self@[i].wallpaper,
    {
        let i = self.active_index(now);
        assert(self@[i as int] == self.entries@[i as int]@);
        self.entries[i].wallpaper.as_str()
    }

    /// The wallpaper that was shown before the one at `now`.
    pub fn previous_wallpaper(&self, now: ClockTime) -> (r: &str)
        ensures
            exists|i: int| #[trigger] is_active(self@, now, i) && r@ == self@[cyclic_predecessor(self@.len() as int, i)].wallpaper,
    {
        let p = self.previous_index(now);
        assert(self@[p as int] == self.entries@[p as int]@);
        self.entries[p].wallpaper.as_str()
    }
}

/// Past the last entry the schedule starts over: where no entry is later
/// than `now`, the first entry is in force; where the first entry is later
/// than `now`, it is in force too.
pub proof fn lemma_wraps_to_first(s: Seq<EntryView>, now: ClockTime)
    requires
        s.len() > 0,
        ascending(s),
        !now.precedes(s.last().time) || now.precedes(s[0].time),
    ensures
        is_active(s, now, 0),
{
    lemma_later_entries_stay_later(s, now);
}

/// In an ascending sequence, what is not later than `now` at one place is
/// not later at any place before it.
pub proof fn lemma_later_entries_stay_later(s: Seq<EntryView>, now: ClockTime)
    requires
        ascending(s),
    ensures
        forall|i: int, j: int|
            0 <= i <= j < s.len() && !now.precedes((#[trigger] s[j]).time) ==> !now.precedes((#[trigger] s[i]).time),
{
    assert forall|i: int, j: int|
        0 <= i <= j < s.len() && !now.precedes((#[trigger] s[j]).time) implies !now.precedes((#[trigger] s[i]).time) by {
        if i < j {
            assert(!s[j].time.precedes(s[i].time));
        }
    }
}

/// In an ascending sequence the entry in force comes first among the
/// entries later than `now`, and none of them has an earlier time.
pub proof fn lemma_active_is_earliest_later(s: Seq<EntryView>, now: ClockTime, i: int, j: int)
    requires
        ascending(s),
        is_active(s, now, i),
        0 <= j < s.len(),
        now.precedes(s[j].time),
    ensures
        now.precedes(s[i].time),
        i <= j,
        !s[j].time.precedes(s[i].time),
{
    if i < j {
        assert(!s[j].time.precedes(s[i].time));
    }
}

/// Every non-empty sequence has an entry in force at every time.
pub proof fn lemma_active_exists(s: Seq<EntryView>, now: ClockTime, upto: int) -> (i: int)
    requires
        s.len() > 0,
        0 <= upto <= s.len(),
        forall|j: int| 0 <= j < upto ==> !now.precedes((#[trigger] s[j]).time),
    ensures
        is_active(s, now, i),
    decreases s.len() - upto,
{
    if upto == s.len() {
        0
    } else if now.precedes(s[upto].time) {
        upto
    } else {
        lemma_active_exists(s, now, upto + 1)
    }
}

} // verus!
