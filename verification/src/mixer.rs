//! The mixer: the collection of simultaneously playing sources.
//!
//! Entries live in a vector for locality, but the order carries no
//! meaning — amplitude summation is commutative — so removal swaps
//! the last entry in and truncates. Each mix step first sweeps out
//! entries whose source has signalled exhaustion (peeking one sample,
//! as a peekable iterator would), then sums one sample from every
//! survivor, starting from equilibrium.
//!
//! The collection itself is single-threaded; the thread that owns the
//! output callback shares it behind one mutual-exclusion lock, held
//! only for the duration of a sweep-and-pull.

use vstd::prelude::*;
use vstd::multiset::Multiset;

use crate::sample_ops::{sat_add, sat_fold, spec_sat_add};
use crate::source::Source;
use crate::Channels;

verus! {

/// One playing entry: an optional name, the source, and — as in a
/// peekable iterator — a sample already pulled but not yet mixed.
pub struct MixEntry {
    /// The name `play_singleton` replaces by; unnamed entries may
    /// duplicate freely.
    pub name: Option<String>,
    /// The peeked sample: pulled to test for exhaustion, consumed by
    /// the following mix step.
    pub peeked: Option<Option<i64>>,
    /// The playing source.
    pub source: Source,
}

impl MixEntry {
    /// The entry's source is internally consistent.
    pub open spec fn wf(self) -> bool {
        self.source.wf()
    }

    /// Whether this entry carries the given name (by its characters).
    pub open spec fn named(self, n: Seq<char>) -> bool {
        match self.name {
            Some(s) => s@ == n,
            None => false,
        }
    }
}

/// Every entry is ready to be mixed: nothing peeked yet and a known
/// next sample, so a mix step is fully determined.
pub open spec fn all_ready(es: Seq<MixEntry>) -> bool {
    forall|i: int|
        0 <= i < es.len() ==> (#[trigger] es[i]).peeked is None && es[i].source.loaded().len() > 0
}

/// The next sample of each entry, in collection order.
pub open spec fn first_samples(es: Seq<MixEntry>) -> Seq<i64> {
    Seq::new(es.len(), |i: int| es[i].source.loaded()[0])
}

/// An entry that still yields: its next sample is known.
pub open spec fn is_active(e: MixEntry) -> bool {
    e.source.loaded().len() > 0
}

/// An entry whose fate this mix step is decided: nothing peeked, and
/// its source either has a known next sample or is exhausted.
pub open spec fn entry_determined(e: MixEntry) -> bool {
    e.peeked is None && (is_active(e) || e.source.exhausted())
}

/// Every entry's fate is decided, so the whole mix step is: the
/// exhausted entries leave, the active ones advance and are summed.
pub open spec fn all_determined(es: Seq<MixEntry>) -> bool {
    forall|i: int| 0 <= i < es.len() ==> entry_determined(#[trigger] es[i])
}

/// The observable face of an entry: its name, the peeked sample, and
/// its source's model.
pub open spec fn entry_view(e: MixEntry) -> (
    Option<String>,
    Option<Option<i64>>,
    Seq<i64>,
    bool,
    u32,
    Channels,
) {
    (
        e.name,
        e.peeked,
        e.source.loaded(),
        e.source.may_continue(),
        e.source.spec_sample_rate(),
        e.source.spec_channels(),
    )
}

/// The face an active entry shows right after the sweep peeked it:
/// its next sample cached and its source advanced by exactly one.
pub open spec fn swept_step_view(e: MixEntry) -> (
    Option<String>,
    Option<Option<i64>>,
    Seq<i64>,
    bool,
    u32,
    Channels,
) {
    (
        e.name,
        Some(Some(e.source.loaded()[0])),
        e.source.loaded().skip(1),
        e.source.may_continue(),
        e.source.spec_sample_rate(),
        e.source.spec_channels(),
    )
}

/// The face it shows once the mix consumed the cached sample.
pub open spec fn settled_step_view(e: MixEntry) -> (
    Option<String>,
    Option<Option<i64>>,
    Seq<i64>,
    bool,
    u32,
    Channels,
) {
    (
        e.name,
        None,
        e.source.loaded().skip(1),
        e.source.may_continue(),
        e.source.spec_sample_rate(),
        e.source.spec_channels(),
    )
}

/// The next sample of an active entry.
pub open spec fn head_of(e: MixEntry) -> i64 {
    e.source.loaded()[0]
}

/// The entries that still yield, in order.
pub open spec fn active_entries(es: Seq<MixEntry>) -> Seq<MixEntry> {
    es.filter(|e: MixEntry| is_active(e))
}

/// The observable faces of the entries, in order.
pub open spec fn views_of(es: Seq<MixEntry>) -> Seq<
    (Option<String>, Option<Option<i64>>, Seq<i64>, bool, u32, Channels),
> {
    es.map_values(|e: MixEntry| entry_view(e))
}

/// The faces the entries must show right after the sweep.
pub open spec fn swept_views_of(es: Seq<MixEntry>) -> Seq<
    (Option<String>, Option<Option<i64>>, Seq<i64>, bool, u32, Channels),
> {
    es.map_values(|e: MixEntry| swept_step_view(e))
}

/// The faces the entries must show after the whole mix step.
pub open spec fn settled_views_of(es: Seq<MixEntry>) -> Seq<
    (Option<String>, Option<Option<i64>>, Seq<i64>, bool, u32, Channels),
> {
    es.map_values(|e: MixEntry| settled_step_view(e))
}

/// The next samples of the entries, in order.
pub open spec fn heads_of(es: Seq<MixEntry>) -> Seq<i64> {
    es.map_values(|e: MixEntry| head_of(e))
}

/// Nothing is active in an empty collection.
proof fn lemma_active_empty()
    ensures
        active_entries(Seq::<MixEntry>::empty()) == Seq::<MixEntry>::empty(),
{
    reveal(Seq::filter);
}

/// Replacing one element exchanges it in the multiset.
proof fn lemma_update_multiset<T>(s: Seq<T>, i: int, v: T)
    requires
        0 <= i < s.len(),
    ensures
        s.update(i, v).to_multiset() == s.to_multiset().remove(s[i]).insert(v),
{
    let t = s.update(i, v);
    vstd::seq_lib::to_multiset_remove(s, i);
    vstd::seq_lib::to_multiset_remove(t, i);
    assert(t.remove(i) =~= s.remove(i));
    t.to_multiset_ensures();
    s.to_multiset_ensures();
    assert(t.contains(t[i]));
    assert(s.contains(s[i]));
    assert(t.to_multiset() =~= s.to_multiset().remove(s[i]).insert(v)) by {
        assert(t.to_multiset().remove(v) == s.to_multiset().remove(s[i]));
        assert(t.to_multiset().count(v) > 0);
        assert(s.to_multiset().count(s[i]) > 0);
    }
}

/// Appending an entry extends the active selection exactly when the
/// entry is active.
proof fn lemma_active_push(s: Seq<MixEntry>, e: MixEntry)
    ensures
        active_entries(s.push(e)) == if is_active(e) {
            active_entries(s).push(e)
        } else {
            active_entries(s)
        },
{
    reveal(Seq::filter);
    assert(s.push(e).drop_last() =~= s);
    assert(s.push(e).last() == e);
}

/// Swapping the last element into a removed slot keeps every other
/// element: only the removed one leaves the multiset.
proof fn lemma_swap_remove_multiset<T>(s: Seq<T>, i: int)
    requires
        0 <= i < s.len(),
    ensures
        s.update(i, s.last()).drop_last().to_multiset() == s.to_multiset().remove(s[i]),
{
    vstd::seq_lib::to_multiset_remove(s, i);
    if i == s.len() - 1 {
        assert(s.update(i, s.last()) =~= s);
        assert(s.update(i, s.last()).drop_last() =~= s.remove(i));
    } else {
        let e = s.last();
        let p0 = s.subrange(0, i);
        let p1 = s.subrange(i + 1, s.len() - 1);
        let r = s.update(i, e).drop_last();
        assert(r =~= p0 + (seq![e] + p1));
        assert(s.remove(i) =~= p0 + (p1 + seq![e]));
        vstd::seq_lib::lemma_multiset_commutative(p0, seq![e] + p1);
        vstd::seq_lib::lemma_multiset_commutative(seq![e], p1);
        vstd::seq_lib::lemma_multiset_commutative(p0, p1 + seq![e]);
        vstd::seq_lib::lemma_multiset_commutative(p1, seq![e]);
        assert(r.to_multiset() =~= s.remove(i).to_multiset());
    }
}

/// Law: mixing any number of silent (equilibrium) sources yields
/// equilibrium — the saturating sum of all-zero samples is zero.
pub proof fn lemma_mix_silent(s: Seq<i64>)
    requires
        forall|i: int| 0 <= i < s.len() ==> s[i] == 0,
    ensures
        sat_fold(s) == 0,
    decreases s.len(),
{
    if s.len() > 0 {
        lemma_mix_silent(s.drop_last());
    }
}

/// Law: mixing two sources that each emit amplitude `a` yields `2a`
/// at the same instant, as long as the doubled amplitude does not
/// saturate.
pub proof fn lemma_mix_two_equal(a: i64)
    requires
        i64::MIN <= a + a <= i64::MAX,
    ensures
        sat_fold(seq![a, a]) == a + a,
{
    let s = seq![a, a];
    assert(s.drop_last() =~= seq![a]);
    assert(seq![a].drop_last() =~= Seq::<i64>::empty());
    assert(sat_fold(Seq::<i64>::empty()) == 0);
    assert(seq![a].last() == a);
    assert(sat_fold(seq![a]) == spec_sat_add(0, a));
    assert(spec_sat_add(0, a) == a);
    assert(s.last() == a);
    assert(sat_fold(s) == spec_sat_add(a, a));
}

/// Law: a mix step over sources that all stand ready at equilibrium
/// yields equilibrium — together with `Mixer::next`'s contract, mixing
/// any number of silent sources is silence.
pub proof fn lemma_mix_silent_sources(es: Seq<MixEntry>)
    requires
        all_ready(es),
        forall|i: int| 0 <= i < es.len() ==> (#[trigger] es[i]).source.loaded()[0] == 0,
    ensures
        sat_fold(first_samples(es)) == 0,
{
    lemma_mix_silent(first_samples(es));
}

/// Law: a mix step over exactly two sources that each stand ready at
/// amplitude `a` yields `2a` — together with `Mixer::next`'s
/// contract, mixing two equal sources doubles the amplitude, short of
/// saturation.
pub proof fn lemma_mix_two_equal_sources(es: Seq<MixEntry>, a: i64)
    requires
        all_ready(es),
        es.len() == 2,
        es[0].source.loaded()[0] == a,
        es[1].source.loaded()[0] == a,
        i64::MIN <= a + a <= i64::MAX,
    ensures
        sat_fold(first_samples(es)) == a + a,
{
    assert(first_samples(es) =~= seq![a, a]);
    lemma_mix_two_equal(a);
}

/// The thread-shared collection of playing sources.
pub struct Mixer {
    /// The playing entries, in insertion order until a removal swaps.
    pub entries: Vec<MixEntry>,
}

impl Mixer {
    /// Every entry's source is internally consistent.
    pub open spec fn wf(self) -> bool {
        forall|i: int| 0 <= i < self.entries@.len() ==> (#[trigger] self.entries@[i]).wf()
    }

    /// An empty mix.
    pub fn new() -> (r: Mixer)
        ensures
            r.wf(),
            r.entries@.len() == 0,
    {
        Mixer { entries: Vec::new() }
    }

    /// Insert a new playing entry. No uniqueness is enforced here,
    /// for named entries either: that is the sink's duty.
    pub fn add(&mut self, name: Option<String>, input: Source)
        requires
            old(self).wf(),
            input.wf(),
        ensures
            final(self).wf(),
            final(self).entries@ == old(self).entries@.push(
                MixEntry { name, peeked: None, source: input },
            ),
    {
        self.entries.push(MixEntry { name, peeked: None, source: input });
    }

    /// Remove every entry whose name matches exactly; unnamed entries
    /// never match. Removal is by swap, so each surviving entry is an
    /// untouched old entry, and nothing else changes.
    pub fn remove(&mut self, name: &String)
        requires
            old(self).wf(),
        ensures
            final(self).wf(),
            forall|i: int|
                0 <= i < final(self).entries@.len()
                    ==> !(#[trigger] final(self).entries@[i]).named(name@),
            forall|e: MixEntry|
                #[trigger] final(self).entries@.to_multiset().count(e) == if e.named(name@) {
                    0nat
                } else {
                    old(self).entries@.to_multiset().count(e)
                },
            final(self).entries@.len() <= old(self).entries@.len(),
    {
        let ghost orig = self.entries@;
        let ghost mut gone = Multiset::<MixEntry>::empty();
        let mut i: usize = 0;
        while i < self.entries.len()
            invariant
                forall|k: int|
                    0 <= k < self.entries@.len() ==> (#[trigger] self.entries@[k]).wf(),
                i <= self.entries@.len(),
                self.entries@.len() <= orig.len(),
                forall|k: int| 0 <= k < i ==> !(#[trigger] self.entries@[k]).named(name@),
                self.entries@.to_multiset().add(gone) =~= orig.to_multiset(),
                forall|e: MixEntry| #[trigger] gone.count(e) > 0 ==> e.named(name@),
            decreases self.entries@.len() - i,
        {
            let matches_name: bool = match &self.entries[i].name {
                Some(n) => (*n).eq(name),
                None => false,
            };
            if matches_name {
                let ghost before = self.entries@;
                let removed = self.entries.swap_remove(i);
                proof {
                    before.to_multiset_ensures();
                    assert(before.contains(before[i as int]));
                    lemma_swap_remove_multiset(before, i as int);
                    gone = gone.insert(removed);
                    assert(self.entries@.to_multiset().add(gone) =~= orig.to_multiset());
                }
            } else {
                i = i + 1;
            }
        }
        proof {
            self.entries@.to_multiset_ensures();
            assert forall|e: MixEntry|
                #[trigger] self.entries@.to_multiset().count(e) == if e.named(name@) {
                    0nat
                } else {
                    orig.to_multiset().count(e)
                } by {
                if e.named(name@) {
                    if self.entries@.to_multiset().count(e) > 0 {
                        assert(self.entries@.contains(e));
                        assert(false);
                    }
                } else {
                    assert(gone.count(e) == 0);
                    assert(self.entries@.to_multiset().count(e) + gone.count(e)
                        == orig.to_multiset().count(e));
                }
            }
        }
    }

    /// Advance the mix by one sample: sweep out entries whose source
    /// is exhausted, pull one sample from every remaining source, and
    /// sum them from equilibrium. An empty mix yields equilibrium.
    ///
    /// When every entry stands ready — nothing peeked, next sample
    /// known — the step is fully determined: no entry is evicted,
    /// every source advances by exactly one sample, and the result is
    /// the saturating sum of their first samples.
    pub fn next(&mut self) -> (r: i64)
        requires
            old(self).wf(),
        ensures
            final(self).wf(),
            final(self).entries@.len() <= old(self).entries@.len(),
            old(self).entries@.len() == 0 ==> final(self).entries@.len() == 0 && r == 0,
            all_ready(old(self).entries@) ==> {
                &&& final(self).entries@.len() == old(self).entries@.len()
                &&& forall|k: int|
                    0 <= k < old(self).entries@.len() ==> {
                        let e0 = #[trigger] old(self).entries@[k];
                        let e1 = final(self).entries@[k];
                        e1.name == e0.name && e1.peeked is None && e1.source.loaded()
                            == e0.source.loaded().skip(1) && e1.source.may_continue()
                            == e0.source.may_continue() && e1.source.spec_sample_rate()
                            == e0.source.spec_sample_rate() && e1.source.spec_channels()
                            == e0.source.spec_channels()
                    }
                &&& r == sat_fold(first_samples(old(self).entries@))
            },
            // when every entry's fate is decided, the whole step is:
            // for some processing order of the old entries (they are
            // permuted only by swap-removal), the exhausted ones
            // leave, the active ones survive advanced by exactly one
            // sample, and the result is the saturating sum of the
            // active entries' next samples in that order
            all_determined(old(self).entries@) ==> exists|processed: Seq<MixEntry>|
                {
                    &&& #[trigger] processed.to_multiset() == old(self).entries@.to_multiset()
                    &&& views_of(final(self).entries@) == settled_views_of(
                        active_entries(processed),
                    )
                    &&& r == sat_fold(heads_of(active_entries(processed)))
                },
    {
        let ghost orig = self.entries@;
        let ghost happy = all_ready(orig);
        let ghost det = all_determined(orig);
        let ghost mut processed: Seq<MixEntry> = Seq::empty();
        proof {
            if det {
                lemma_active_empty();
                assert(self.entries@.skip(0) =~= self.entries@);
                processed.to_multiset_ensures();
                assert forall|e: MixEntry| processed.to_multiset().count(e) == 0 by {
                    if processed.to_multiset().count(e) > 0 {
                        assert(processed.contains(e));
                    }
                }
                assert(self.entries@.skip(0).to_multiset().add(processed.to_multiset())
                    =~= orig.to_multiset());
                assert(views_of(self.entries@.take(0)) =~= swept_views_of(
                    active_entries(processed),
                ));
            }
        }
        let mut i: usize = 0;
        while i < self.entries.len()
            invariant
                forall|k: int|
                    0 <= k < self.entries@.len() ==> (#[trigger] self.entries@[k]).wf(),
                i <= self.entries@.len(),
                self.entries@.len() <= orig.len(),
                forall|k: int|
                    0 <= k < i ==> (#[trigger] self.entries@[k]).peeked matches Some(Some(_)),
                happy == all_ready(orig),
                happy ==> self.entries@.len() == orig.len(),
                happy ==> forall|k: int|
                    0 <= k < i ==> {
                        let e0 = #[trigger] orig[k];
                        let e1 = self.entries@[k];
                        e1.name == e0.name && e1.peeked == Some(Some(e0.source.loaded()[0]))
                            && e1.source.loaded() == e0.source.loaded().skip(1)
                            && e1.source.may_continue() == e0.source.may_continue()
                            && e1.source.spec_sample_rate() == e0.source.spec_sample_rate()
                            && e1.source.spec_channels() == e0.source.spec_channels()
                    },
                happy ==> forall|k: int|
                    i <= k < self.entries@.len() ==> #[trigger] self.entries@[k] == orig[k],
                det == all_determined(orig),
                det ==> self.entries@.skip(i as int).to_multiset().add(processed.to_multiset())
                    == orig.to_multiset(),
                det ==> views_of(self.entries@.take(i as int)) == swept_views_of(
                    active_entries(processed),
                ),
            decreases self.entries@.len() - i,
        {
            let ghost pre = self.entries@;
            let ghost e0 = pre[i as int];
            proof {
                if det {
                    // the entry at hand is one of the original
                    // entries, so its fate is decided
                    assert(pre.skip(i as int)[0] == e0);
                    pre.skip(i as int).to_multiset_ensures();
                    assert(pre.skip(i as int).contains(e0));
                    assert(pre.skip(i as int).to_multiset().count(e0) > 0);
                    assert(orig.to_multiset().count(e0) > 0);
                    orig.to_multiset_ensures();
                    assert(orig.contains(e0));
                    assert(entry_determined(e0));
                }
            }
            let needs_peek: bool = match &self.entries[i].peeked {
                None => true,
                Some(_) => false,
            };
            proof {
                if det {
                    assert(needs_peek);
                }
            }
            if needs_peek {
                let n = self.entries.len();
                let e = &mut self.entries[i];
                let pulled = e.source.next();
                e.peeked = Some(pulled);
            }
            let ghost mid = self.entries@;
            let ghost e1 = mid[i as int];
            proof {
                if det {
                    assert(mid =~= pre.update(i as int, e1));
                    assert(mid.skip(i as int) =~= pre.skip(i as int).update(0, e1));
                    lemma_update_multiset(pre.skip(i as int), 0, e1);
                }
            }
            let is_exhausted: bool = match &self.entries[i].peeked {
                Some(None) => true,
                _ => false,
            };
            if is_exhausted {
                self.entries.swap_remove(i);
                proof {
                    if det {
                        // the source yielded nothing, so the entry was
                        // exhausted: it leaves, and nothing else moves
                        assert(!is_active(e0));
                        let suffix = mid.skip(i as int);
                        assert(self.entries@.skip(i as int) =~= suffix.update(
                            0,
                            suffix.last(),
                        ).drop_last());
                        lemma_swap_remove_multiset(suffix, 0);
                        assert(suffix[0] == e1);
                        assert(self.entries@.skip(i as int).to_multiset() =~= pre.skip(
                            i as int,
                        ).to_multiset().remove(e0).insert(e1).remove(e1));
                        assert(self.entries@.skip(i as int).to_multiset() =~= pre.skip(
                            i as int,
                        ).to_multiset().remove(e0));
                        assert(self.entries@.take(i as int) =~= mid.take(i as int));
                        assert(mid.take(i as int) =~= pre.take(i as int));
                        lemma_active_push(processed, e0);
                        processed.to_multiset_ensures();
                        processed = processed.push(e0);
                        assert(self.entries@.skip(i as int).to_multiset().add(
                            processed.to_multiset(),
                        ) =~= orig.to_multiset());
                    }
                }
            } else {
                proof {
                    if det {
                        // the source yielded its next sample: the
                        // entry stands peeked and advanced by one
                        assert(is_active(e0));
                        assert(entry_view(e1) == swept_step_view(e0));
                        assert(mid.take(i as int + 1) =~= pre.take(i as int).push(e1));
                        assert(views_of(pre.take(i as int).push(e1)) =~= views_of(
                            pre.take(i as int),
                        ).push(entry_view(e1)));
                        lemma_active_push(processed, e0);
                        assert(swept_views_of(active_entries(processed).push(e0))
                            =~= swept_views_of(active_entries(processed)).push(
                            swept_step_view(e0),
                        ));
                        processed.to_multiset_ensures();
                        processed = processed.push(e0);
                        assert(mid.skip(i as int + 1) =~= pre.skip(i as int + 1));
                        assert(pre.skip(i as int).remove(0) =~= pre.skip(i as int + 1));
                        vstd::seq_lib::to_multiset_remove(pre.skip(i as int), 0);
                        assert(pre.skip(i as int + 1).to_multiset() =~= pre.skip(
                            i as int,
                        ).to_multiset().remove(e0));
                        assert(self.entries@.skip(i as int + 1).to_multiset().add(
                            processed.to_multiset(),
                        ) =~= orig.to_multiset());
                    }
                }
                i = i + 1;
            }
        }
        let ghost swept = self.entries@;
        let ghost vs = Seq::new(
            swept.len(),
            |k: int|
                match swept[k].peeked {
                    Some(Some(v)) => v,
                    _ => 0i64,
                },
        );
        let ghost act = active_entries(processed);
        proof {
            if happy {
                assert(vs =~= first_samples(orig));
            }
            if det {
                assert(swept.skip(swept.len() as int) =~= Seq::<MixEntry>::empty());
                assert(processed.to_multiset() =~= orig.to_multiset());
                assert(swept.take(swept.len() as int) =~= swept);
                assert(views_of(swept) == swept_views_of(act));
                assert(swept.len() == act.len());
                assert forall|k: int| 0 <= k < swept.len() implies vs[k] == head_of(act[k]) by {
                    assert(views_of(swept)[k] == swept_views_of(act)[k]);
                    assert(entry_view(swept[k]) == swept_step_view(act[k]));
                }
                assert(vs =~= heads_of(act));
            }
        }
        let mut accum: i64 = 0;
        let mut j: usize = 0;
        while j < self.entries.len()
            invariant
                forall|k: int|
                    0 <= k < self.entries@.len() ==> (#[trigger] self.entries@[k]).wf(),
                self.entries@.len() == swept.len(),
                j <= swept.len(),
                forall|k: int|
                    j <= k < swept.len() ==> #[trigger] self.entries@[k] == swept[k],
                forall|k: int|
                    j <= k < swept.len() ==> (#[trigger] swept[k]).peeked matches Some(Some(_)),
                vs.len() == swept.len(),
                forall|k: int|
                    0 <= k < swept.len() ==> vs[k] == (match (#[trigger] swept[k]).peeked {
                        Some(Some(v)) => v,
                        _ => 0i64,
                    }),
                forall|k: int|
                    0 <= k < j ==> {
                        let e1 = #[trigger] self.entries@[k];
                        let e0 = swept[k];
                        e1.name == e0.name && e1.peeked is None && e1.source == e0.source
                    },
                accum == sat_fold(vs.take(j as int)),
            decreases swept.len() - j,
        {
            proof {
                assert(vs.take(j as int + 1).drop_last() =~= vs.take(j as int));
                assert(vs.take(j as int + 1).last() == vs[j as int]);
            }
            let e = &mut self.entries[j];
            let v: i64 = match &e.peeked {
                Some(Some(v)) => *v,
                _ => 0,
            };
            e.peeked = None;
            accum = sat_add(accum, v);
            j = j + 1;
        }
        proof {
            assert(vs.take(swept.len() as int) =~= vs);
            if det {
                assert forall|k: int|
                    0 <= k < swept.len() implies entry_view(self.entries@[k]) == settled_step_view(
                    act[k],
                ) by {
                    assert(views_of(swept)[k] == swept_views_of(act)[k]);
                    assert(entry_view(swept[k]) == swept_step_view(act[k]));
                }
                assert(views_of(self.entries@) =~= settled_views_of(act));
            }
        }
        accum
    }
}

} // verus!
