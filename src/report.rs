//! The read-only check: which sources would land on the same destination.
use vstd::prelude::*;

use crate::placement::views;
use crate::text::{chars_of, string_of};

verus! {

/// Destinations with the sources that map to each, in order of first sight.
pub type Entries = Seq<(Seq<char>, Seq<Seq<char>>)>;

/// No destination is listed twice.
pub open spec fn keys_unique(v: Entries) -> bool {
    forall|i: int, j: int| 0 <= i < j < v.len() ==> v[i].0 != v[j].0
}

pub open spec fn has_key(v: Entries, d: Seq<char>) -> bool {
    exists|i: int| 0 <= i < v.len() && v[i].0 == d
}

/// `v` after `source` was found to map to `destination`.
pub open spec fn recorded(v: Entries, destination: Seq<char>, source: Seq<char>) -> Entries {
    if has_key(v, destination) {
        let i = choose|i: int| 0 <= i < v.len() && v[i].0 == destination;
        v.update(i, (destination, v[i].1.push(source)))
    } else {
        v.push((destination, seq![source]))
    }
}

/// The entries among the first `n` with more than one source.
pub open spec fn collisions_upto(v: Entries, n: int) -> Entries
    decreases n,
{
    if n <= 0 {
        Seq::empty()
    } else if v[n - 1].1.len() > 1 {
        collisions_upto(v, n - 1).push(v[n - 1])
    } else {
        collisions_upto(v, n - 1)
    }
}

/// The destinations that more than one source maps to, with those sources.
pub open spec fn collisions_of(v: Entries) -> Entries {
    collisions_upto(v, v.len() as int)
}

pub open spec fn entry_view(e: (String, Vec<String>)) -> (Seq<char>, Seq<Seq<char>>) {
    (e.0@, views(e.1@))
}

pub open spec fn entries_view(v: Seq<(String, Vec<String>)>) -> Entries {
    v.map_values(|e: (String, Vec<String>)| entry_view(e))
}

/// Destination to sources, gathered over a scan, and the files that no
/// catalog knew.
pub struct CheckReport {
    entries: Vec<(String, Vec<String>)>,
    unresolved: Vec<String>,
}

impl View for CheckReport {
    type V = Entries;

    closed spec fn view(&self) -> Entries {
        entries_view(self.entries@)
    }
}

fn copy_string(s: &String) -> (r: String)
    ensures
        r@ == s@,
{
    string_of(&chars_of(s.as_str()))
}

impl CheckReport {
    pub open spec fn wf(&self) -> bool {
        keys_unique(self@)
    }

    /// The sources that could not be resolved, in order of sight.
    pub closed spec fn unresolved_view(&self) -> Seq<Seq<char>> {
        views(self.unresolved@)
    }

    pub fn new() -> (r: CheckReport)
        ensures
            r@ == Seq::<(Seq<char>, Seq<Seq<char>>)>::empty(),
            r.unresolved_view() == Seq::<Seq<char>>::empty(),
            r.wf(),
    {
        let r = CheckReport { entries: Vec::new(), unresolved: Vec::new() };
        assert(r@ =~= Seq::<(Seq<char>, Seq<Seq<char>>)>::empty());
        assert(r.unresolved_view() =~= Seq::<Seq<char>>::empty());
        r
    }

    /// Notes that no catalog knew `source`.
    pub fn record_unresolved(&mut self, source: String)
        ensures
            final(self)@ == old(self)@,
            final(self).unresolved_view() == old(self).unresolved_view().push(source@),
    {
        let ghost before = self.unresolved_view();
        let ghost sv = source@;
        self.unresolved.push(source);
        assert(self.unresolved_view() =~= before.push(sv));
    }

    /// The sources that could not be resolved.
    pub fn unresolved(&self) -> (r: Vec<String>)
        ensures
            views(r@) == self.unresolved_view(),
    {
        let mut r: Vec<String> = Vec::new();
        let mut i: usize = 0;
        while i < self.unresolved.len()
            invariant
                i <= self.unresolved.len(),
                views(r@) == views(self.unresolved@).subrange(0, i as int),
            decreases self.unresolved.len() - i,
        {
            let ghost before = views(r@);
            r.push(copy_string(&self.unresolved[i]));
            assert(views(r@) =~= before.push(self.unresolved@[i as int]@));
            i = i + 1;
            assert(views(r@) =~= views(self.unresolved@).subrange(0, i as int));
        }
        assert(views(self.unresolved@).subrange(0, i as int) =~= views(self.unresolved@));
        r
    }

    /// Notes that `source` would be placed at `destination`.
    pub fn record(&mut self, destination: String, source: String)
        requires
            old(self).wf(),
        ensures
            final(self).wf(),
            final(self)@ == recorded(old(self)@, destination@, source@),
            final(self).unresolved_view() == old(self).unresolved_view(),
    {
        let ghost v = self@;
        let mut i: usize = 0;
        while i < self.entries.len()
            invariant
                i <= self.entries.len(),
                self@ == v,
                v == old(self)@,
                self.unresolved == old(self).unresolved,
                keys_unique(v),
                forall|k: int| 0 <= k < i ==> v[k].0 != destination@,
            decreases self.entries.len() - i,
        {
            if self.entries[i].0 == destination {
                assert(v[i as int].0 == destination@);
                let ghost sv = source@;
                let ghost old_entries = self.entries@;
                let (k, mut sources) = self.entries.remove(i);
                let ghost old_sources = views(sources@);
                sources.push(source);
                assert(views(sources@) =~= old_sources.push(sv));
                self.entries.insert(i, (k, sources));
                proof {
                    assert(has_key(v, destination@));
                    let j = choose|j: int| 0 <= j < v.len() && v[j].0 == destination@;
                    assert(j == i);
                    assert(self@ =~= v.update(i as int, (destination@, v[i as int].1.push(sv))));
                    assert(self@ == recorded(v, destination@, sv));
                }
                return;
            }
            i = i + 1;
        }
        let ghost d = destination@;
        let ghost s = seq![source@];
        let mut one: Vec<String> = Vec::new();
        one.push(source);
        assert(views(one@) =~= s);
        self.entries.push((destination, one));
        assert(self@ =~= v.push((d, s)));
    }

    /// The destinations that more than one source maps to.
    pub fn collisions(&self) -> (r: Vec<(String, Vec<String>)>)
        ensures
            entries_view(r@) == collisions_of(self@),
    {
        let mut r: Vec<(String, Vec<String>)> = Vec::new();
        let mut i: usize = 0;
        while i < self.entries.len()
            invariant
                i <= self.entries.len(),
                entries_view(r@) == collisions_upto(self@, i as int),
            decreases self.entries.len() - i,
        {
            if self.entries[i].1.len() > 1 {
                let mut sources: Vec<String> = Vec::new();
                let mut k: usize = 0;
                while k < self.entries[i].1.len()
                    invariant
                        i < self.entries.len(),
                        k <= self.entries[i as int].1.len(),
                        views(sources@) == views(self.entries[i as int].1@).subrange(0, k as int),
                    decreases self.entries[i as int].1.len() - k,
                {
                    let ghost before_s = views(sources@);
                    let c = copy_string(&self.entries[i].1[k]);
                    sources.push(c);
                    assert(views(sources@) =~= before_s.push(self.entries[i as int].1@[k as int]@));
                    k = k + 1;
                    assert(views(sources@) =~= views(self.entries[i as int].1@).subrange(
                        0,
                        k as int,
                    ));
                }
                let ghost before = entries_view(r@);
                r.push((copy_string(&self.entries[i].0), sources));
                assert(views(self.entries[i as int].1@).subrange(
                    0,
                    self.entries[i as int].1.len() as int,
                ) =~= views(self.entries[i as int].1@));
                assert(entries_view(r@) =~= before.push(self@[i as int]));
            }
            i = i + 1;
        }
        r
    }
}

proof fn lemma_no_collisions_upto(v: Entries, n: int)
    requires
        n <= v.len(),
        forall|k: int| 0 <= k < v.len() ==> (#[trigger] v[k]).1.len() <= 1,
    ensures
        collisions_upto(v, n).len() == 0,
    decreases n,
{
    if n > 0 {
        lemma_no_collisions_upto(v, n - 1);
    }
}

/// When no destination has two sources, no collision is reported.
pub proof fn lemma_no_collisions(v: Entries)
    requires
        forall|k: int| 0 <= k < v.len() ==> (#[trigger] v[k]).1.len() <= 1,
    ensures
        collisions_of(v).len() == 0,
{
    lemma_no_collisions_upto(v, v.len() as int);
}

/// Two sources recorded for a destination not seen before are reported
/// together, in order, as a collision on that destination.
pub proof fn lemma_two_sources_collide(
    v: Entries,
    destination: Seq<char>,
    first: Seq<char>,
    second: Seq<char>,
)
    requires
        keys_unique(v),
        !has_key(v, destination),
    ensures
        collisions_of(recorded(recorded(v, destination, first), destination, second)).contains(
            (destination, seq![first, second]),
        ),
{
    let r1 = recorded(v, destination, first);
    assert(r1 == v.push((destination, seq![first])));
    let n = v.len() as int;
    assert(r1[n].0 == destination);
    assert(has_key(r1, destination));
    let j = choose|j: int| 0 <= j < r1.len() && r1[j].0 == destination;
    if j != n {
        assert(v[j].0 == destination);
    }
    assert(j == n);
    let r2 = recorded(r1, destination, second);
    assert(seq![first].push(second) =~= seq![first, second]);
    assert(r2 == r1.update(n, (destination, seq![first, second])));
    assert(r2[n] == (destination, seq![first, second]));
    let c = collisions_of(r2);
    assert(c == collisions_upto(r2, n).push(r2[n]));
    assert(c[c.len() - 1] == (destination, seq![first, second]));
}

/// The sources recorded for destination `d`.
pub open spec fn sources_of(v: Entries, d: Seq<char>) -> Seq<Seq<char>> {
    if has_key(v, d) {
        v[choose|i: int| 0 <= i < v.len() && v[i].0 == d].1
    } else {
        Seq::empty()
    }
}

/// `v` after each (destination, source) pair of `ps` was recorded, in order.
pub open spec fn record_all(v: Entries, ps: Seq<(Seq<char>, Seq<char>)>) -> Entries
    decreases ps.len(),
{
    if ps.len() == 0 {
        v
    } else {
        recorded(record_all(v, ps.drop_last()), ps.last().0, ps.last().1)
    }
}

proof fn lemma_sources_at(v: Entries, d: Seq<char>, i: int)
    requires
        keys_unique(v),
        0 <= i < v.len(),
        v[i].0 == d,
    ensures
        sources_of(v, d) == v[i].1,
{
    assert(has_key(v, d));
    let j = choose|j: int| 0 <= j < v.len() && v[j].0 == d;
    if j != i {
        if j < i {
            assert(v[j].0 != v[i].0);
        } else {
            assert(v[i].0 != v[j].0);
        }
    }
}

/// Recording a source appends it to the sources of its destination and
/// leaves every other destination as it was.
pub proof fn lemma_recorded_sources(v: Entries, d: Seq<char>, s: Seq<char>, k: Seq<char>)
    requires
        keys_unique(v),
    ensures
        keys_unique(recorded(v, d, s)),
        sources_of(recorded(v, d, s), k) == if k == d {
            sources_of(v, d).push(s)
        } else {
            sources_of(v, k)
        },
{
    let r = recorded(v, d, s);
    if has_key(v, d) {
        let i = choose|i: int| 0 <= i < v.len() && v[i].0 == d;
        lemma_sources_at(v, d, i);
        assert(r == v.update(i, (d, v[i].1.push(s))));
        assert(keys_unique(r)) by {
            assert forall|a: int, b: int| 0 <= a < b < r.len() implies r[a].0 != r[b].0 by {
                assert(v[a].0 != v[b].0);
            }
        }
        if k == d {
            lemma_sources_at(r, d, i);
        } else if has_key(v, k) {
            let j = choose|j: int| 0 <= j < v.len() && v[j].0 == k;
            lemma_sources_at(v, k, j);
            lemma_sources_at(r, k, j);
        } else {
            assert(!has_key(r, k)) by {
                if has_key(r, k) {
                    let j = choose|j: int| 0 <= j < r.len() && r[j].0 == k;
                    assert(v[j].0 == k);
                }
            }
        }
    } else {
        let n = v.len() as int;
        assert(r == v.push((d, seq![s])));
        assert(keys_unique(r)) by {
            assert forall|a: int, b: int| 0 <= a < b < r.len() implies r[a].0 != r[b].0 by {
                if b == n {
                    assert(r[a].0 == v[a].0);
                    assert(!(0 <= a < v.len() && v[a].0 == d));
                } else {
                    assert(v[a].0 != v[b].0);
                }
            }
        }
        if k == d {
            lemma_sources_at(r, d, n);
            assert(Seq::<Seq<char>>::empty().push(s) =~= seq![s]);
        } else if has_key(v, k) {
            let j = choose|j: int| 0 <= j < v.len() && v[j].0 == k;
            lemma_sources_at(v, k, j);
            lemma_sources_at(r, k, j);
        } else {
            assert(!has_key(r, k)) by {
                if has_key(r, k) {
                    let j = choose|j: int| 0 <= j < r.len() && r[j].0 == k;
                    if j < n {
                        assert(v[j].0 == k);
                    }
                }
            }
        }
    }
}

/// Every source recorded for `d`, before or during the run of `ps`, is
/// among the sources of `d` afterwards.
pub proof fn lemma_record_all_keeps(
    v: Entries,
    ps: Seq<(Seq<char>, Seq<char>)>,
    d: Seq<char>,
    s: Seq<char>,
)
    requires
        keys_unique(v),
        sources_of(v, d).contains(s) || ps.contains((d, s)),
    ensures
        keys_unique(record_all(v, ps)),
        sources_of(record_all(v, ps), d).contains(s),
    decreases ps.len(),
{
    if ps.len() > 0 {
        let front = ps.drop_last();
        let (pd, psrc) = ps.last();
        if sources_of(v, d).contains(s) || front.contains((d, s)) {
            lemma_record_all_keeps(v, front, d, s);
        } else {
            lemma_record_all_unique(v, front);
        }
        let w = record_all(v, front);
        lemma_recorded_sources(w, pd, psrc, d);
        if pd == d {
            let old_s = sources_of(w, d);
            if old_s.contains(s) {
                let k = choose|k: int| 0 <= k < old_s.len() && old_s[k] == s;
                assert(old_s.push(psrc)[k] == s);
            } else {
                let k = choose|k: int| 0 <= k < ps.len() && ps[k] == (d, s);
                if k < ps.len() - 1 {
                    assert(front[k] == (d, s));
                }
                assert(psrc == s);
                assert(old_s.push(psrc)[old_s.len() as int] == s);
            }
        } else {
            if !sources_of(v, d).contains(s) && !front.contains((d, s)) {
                let k = choose|k: int| 0 <= k < ps.len() && ps[k] == (d, s);
                if k < ps.len() - 1 {
                    assert(front[k] == (d, s));
                }
            }
        }
    }
}

proof fn lemma_record_all_unique(v: Entries, ps: Seq<(Seq<char>, Seq<char>)>)
    requires
        keys_unique(v),
    ensures
        keys_unique(record_all(v, ps)),
    decreases ps.len(),
{
    if ps.len() > 0 {
        lemma_record_all_unique(v, ps.drop_last());
        lemma_recorded_sources(record_all(v, ps.drop_last()), ps.last().0, ps.last().1, ps.last().0);
    }
}

proof fn lemma_collisions_upto_contains(v: Entries, i: int, n: int)
    requires
        0 <= i < n <= v.len(),
        v[i].1.len() > 1,
    ensures
        collisions_upto(v, n).contains(v[i]),
    decreases n,
{
    if n - 1 == i {
        assert(collisions_upto(v, n)[collisions_upto(v, i).len() as int] == v[i]);
    } else {
        lemma_collisions_upto_contains(v, i, n - 1);
        let c = collisions_upto(v, n - 1);
        let k = choose|k: int| 0 <= k < c.len() && c[k] == v[i];
        if v[n - 1].1.len() > 1 {
            assert(c.push(v[n - 1])[k] == v[i]);
        }
    }
}

/// A destination with more than one source is listed among the collisions,
/// with all its sources.
pub proof fn lemma_collision_listed(v: Entries, d: Seq<char>)
    requires
        keys_unique(v),
        sources_of(v, d).len() > 1,
    ensures
        collisions_of(v).contains((d, sources_of(v, d))),
{
    let i = choose|i: int| 0 <= i < v.len() && v[i].0 == d;
    lemma_sources_at(v, d, i);
    lemma_collisions_upto_contains(v, i, v.len() as int);
}

/// Over any run of records from an empty report, two different sources that
/// map to the same destination are both listed under that destination among
/// the collisions, whatever else was recorded before, between or after them.
pub proof fn lemma_collision_reported(
    ps: Seq<(Seq<char>, Seq<char>)>,
    destination: Seq<char>,
    first: Seq<char>,
    second: Seq<char>,
)
    requires
        ps.contains((destination, first)),
        ps.contains((destination, second)),
        first != second,
    ensures
        ({
            let v = record_all(Seq::empty(), ps);
            let srcs = sources_of(v, destination);
            &&& collisions_of(v).contains((destination, srcs))
            &&& srcs.contains(first)
            &&& srcs.contains(second)
        }),
{
    let e: Entries = Seq::empty();
    lemma_record_all_keeps(e, ps, destination, first);
    lemma_record_all_keeps(e, ps, destination, second);
    let v = record_all(e, ps);
    let srcs = sources_of(v, destination);
    let a = choose|a: int| 0 <= a < srcs.len() && srcs[a] == first;
    let b = choose|b: int| 0 <= b < srcs.len() && srcs[b] == second;
    assert(a != b);
    lemma_collision_listed(v, destination);
}

} // verus!
