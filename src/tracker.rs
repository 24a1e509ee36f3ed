//! Per-product availability memory and the detection of state changes.
use std::collections::HashMap;
use vstd::prelude::*;

verus! {

broadcast use vstd::std_specs::hash::group_hash_axioms;

/// One product as reported by a single availability query.
pub struct Record {
    pub sku: i64,
    pub name: String,
    pub online: bool,
    pub in_store: bool,
}

/// The mathematical content of a `Record`: the product counts as
/// available when it can be had online or in a store.
pub struct RecordView {
    pub sku: i64,
    pub name: Seq<char>,
    pub available: bool,
}

impl View for Record {
    type V = RecordView;

    open spec fn view(&self) -> RecordView {
        RecordView { sku: self.sku, name: self.name@, available: self.online || self.in_store }
    }
}

impl Record {
    /// Whether the product can be had, online or in a store.
    pub fn is_available(&self) -> (r: bool)
        ensures
            r == self@.available,
    {
        self.online || self.in_store
    }
}

/// A detected change of one product's availability.
pub struct Transition {
    pub sku: i64,
    pub name: String,
    pub was: bool,
    pub now: bool,
}

pub struct TransitionView {
    pub sku: i64,
    pub name: Seq<char>,
    pub was: bool,
    pub now: bool,
}

impl View for Transition {
    type V = TransitionView;

    open spec fn view(&self) -> TransitionView {
        TransitionView { sku: self.sku, name: self.name@, was: self.was, now: self.now }
    }
}

/// The views of a snapshot's records, in order.
pub open spec fn record_views(s: Seq<Record>) -> Seq<RecordView> {
    s.map_values(|r: Record| r@)
}

/// The views of a list of transitions, in order.
pub open spec fn transition_views(s: Seq<Transition>) -> Seq<TransitionView> {
    s.map_values(|t: Transition| t@)
}

/// The last known state of a product; one never recorded counts as unavailable.
pub open spec fn state_of(m: Map<i64, bool>, sku: i64) -> bool {
    m.contains_key(sku) && m[sku]
}

/// The recorded states after the records of a snapshot are taken in order:
/// a record whose availability differs from the known state overwrites it,
/// any other record changes nothing.
pub open spec fn apply(m: Map<i64, bool>, recs: Seq<RecordView>) -> Map<i64, bool>
    decreases recs.len(),
{
    if recs.len() == 0 {
        m
    } else {
        let prior = apply(m, recs.drop_last());
        let r = recs.last();
        if state_of(prior, r.sku) == r.available {
            prior
        } else {
            prior.insert(r.sku, r.available)
        }
    }
}

/// The transitions that taking the records of a snapshot in order yields,
/// one for each record whose availability differs from the known state.
pub open spec fn changes(m: Map<i64, bool>, recs: Seq<RecordView>) -> Seq<TransitionView>
    decreases recs.len(),
{
    if recs.len() == 0 {
        Seq::empty()
    } else {
        let prior = apply(m, recs.drop_last());
        let earlier = changes(m, recs.drop_last());
        let r = recs.last();
        let was = state_of(prior, r.sku);
        if was == r.available {
            earlier
        } else {
            earlier.push(TransitionView { sku: r.sku, name: r.name, was, now: r.available })
        }
    }
}

/// The transitions of `ts` that concern `sku`, in order.
pub open spec fn transitions_for(ts: Seq<TransitionView>, sku: i64) -> Seq<TransitionView>
    decreases ts.len(),
{
    if ts.len() == 0 {
        ts
    } else {
        let earlier = transitions_for(ts.drop_last(), sku);
        if ts.last().sku == sku {
            earlier.push(ts.last())
        } else {
            earlier
        }
    }
}

/// No two records of the snapshot give one product two availabilities.
pub open spec fn consistent(recs: Seq<RecordView>) -> bool {
    forall|i: int, j: int|
        0 <= i < recs.len() && 0 <= j < recs.len() && #[trigger] recs[i].sku == #[trigger] recs[j].sku
            ==> recs[i].available == recs[j].available
}

proof fn lemma_transitions_for_push(ts: Seq<TransitionView>, t: TransitionView, sku: i64)
    ensures
        transitions_for(ts.push(t), sku) == if t.sku == sku {
            transitions_for(ts, sku).push(t)
        } else {
            transitions_for(ts, sku)
        },
{
    assert(ts.push(t).drop_last() =~= ts);
}

/// A product that a snapshot does not mention keeps its recorded state, and
/// no transition is emitted for it.
pub proof fn lemma_absent_untouched(m: Map<i64, bool>, recs: Seq<RecordView>, sku: i64)
    requires
        forall|j: int| 0 <= j < recs.len() ==> #[trigger] recs[j].sku != sku,
    ensures
        apply(m, recs).contains_key(sku) == m.contains_key(sku),
        m.contains_key(sku) ==> apply(m, recs)[sku] == m[sku],
        forall|i: int|
            0 <= i < changes(m, recs).len() ==> #[trigger] changes(m, recs)[i].sku != sku,
        transitions_for(changes(m, recs), sku) == Seq::<TransitionView>::empty(),
    decreases recs.len(),
{
    if recs.len() > 0 {
        let rest = recs.drop_last();
        assert(forall|j: int| 0 <= j < rest.len() ==> rest[j] == recs[j]);
        lemma_absent_untouched(m, rest, sku);
        assert(recs.last() == recs[recs.len() - 1]);
        let earlier = changes(m, rest);
        let r = recs.last();
        let was = state_of(apply(m, rest), r.sku);
        if was != r.available {
            let t = TransitionView { sku: r.sku, name: r.name, was, now: r.available };
            lemma_transitions_for_push(earlier, t, sku);
            assert(forall|i: int| 0 <= i < earlier.len() ==> earlier.push(t)[i] == earlier[i]);
        }
    }
}

/// The first snapshot that mentions a product never recorded before yields
/// exactly one transition for it, from unavailable to available, when it
/// reports the product available, and none when it reports it unavailable.
pub proof fn lemma_first_observation(m: Map<i64, bool>, recs: Seq<RecordView>, k: int)
    requires
        0 <= k < recs.len(),
        !m.contains_key(recs[k].sku),
        forall|j: int| 0 <= j < recs.len() && j != k ==> #[trigger] recs[j].sku != recs[k].sku,
    ensures
        transitions_for(changes(m, recs), recs[k].sku) == if recs[k].available {
            seq![TransitionView { sku: recs[k].sku, name: recs[k].name, was: false, now: true }]
        } else {
            Seq::<TransitionView>::empty()
        },
    decreases recs.len(),
{
    let sku = recs[k].sku;
    let rest = recs.drop_last();
    assert(forall|j: int| 0 <= j < rest.len() ==> rest[j] == recs[j]);
    assert(recs.last() == recs[recs.len() - 1]);
    let earlier = changes(m, rest);
    let r = recs.last();
    let was = state_of(apply(m, rest), r.sku);
    let t = TransitionView { sku: r.sku, name: r.name, was, now: r.available };
    if k == recs.len() - 1 {
        lemma_absent_untouched(m, rest, sku);
        if was != r.available {
            lemma_transitions_for_push(earlier, t, sku);
            assert(Seq::<TransitionView>::empty().push(t) =~= seq![t]);
        }
    } else {
        lemma_first_observation(m, rest, k);
        if was != r.available {
            lemma_transitions_for_push(earlier, t, sku);
        }
    }
}

proof fn lemma_apply_settles(m: Map<i64, bool>, recs: Seq<RecordView>, j: int)
    requires
        consistent(recs),
        0 <= j < recs.len(),
    ensures
        state_of(apply(m, recs), recs[j].sku) == recs[j].available,
    decreases recs.len(),
{
    let rest = recs.drop_last();
    assert(recs.last() == recs[recs.len() - 1]);
    if j < recs.len() - 1 {
        assert(rest[j] == recs[j]);
        assert(forall|a: int| 0 <= a < rest.len() ==> rest[a] == recs[a]);
        lemma_apply_settles(m, rest, j);
    }
}

proof fn lemma_settled_is_stable(m: Map<i64, bool>, recs: Seq<RecordView>)
    requires
        forall|j: int| 0 <= j < recs.len() ==> state_of(m, #[trigger] recs[j].sku) == recs[j].available,
    ensures
        apply(m, recs) == m,
        changes(m, recs) == Seq::<TransitionView>::empty(),
    decreases recs.len(),
{
    if recs.len() > 0 {
        let rest = recs.drop_last();
        assert(forall|a: int| 0 <= a < rest.len() ==> rest[a] == recs[a]);
        assert(recs.last() == recs[recs.len() - 1]);
        lemma_settled_is_stable(m, rest);
    }
}

/// Observing the same snapshot twice in a row: the second observation
/// yields no transition and changes nothing, provided the snapshot never
/// gives one product two different availabilities.
pub proof fn lemma_observe_twice(m: Map<i64, bool>, recs: Seq<RecordView>)
    requires
        consistent(recs),
    ensures
        changes(apply(m, recs), recs) == Seq::<TransitionView>::empty(),
        apply(apply(m, recs), recs) == apply(m, recs),
{
    assert forall|j: int| 0 <= j < recs.len() implies state_of(
        apply(m, recs),
        #[trigger] recs[j].sku,
    ) == recs[j].available by {
        lemma_apply_settles(m, recs, j);
    }
    lemma_settled_is_stable(apply(m, recs), recs);
}

/// The last observed availability of each product seen so far.
pub struct Tracker {
    states: HashMap<i64, bool>,
}

impl View for Tracker {
    type V = Map<i64, bool>;

    closed spec fn view(&self) -> Map<i64, bool> {
        self.states@
    }
}

impl Tracker {
    /// A tracker that has seen nothing: every product counts as unavailable.
    pub fn new() -> (r: Tracker)
        ensures
            r@ == Map::<i64, bool>::empty(),
    {
        Tracker { states: HashMap::new() }
    }

    /// The last observed availability of `sku`, `false` if never seen.
    pub fn state(&self, sku: i64) -> (r: bool)
        ensures
            r == state_of(self@, sku),
    {
        match self.states.get(&sku) {
            Some(v) => *v,
            None => false,
        }
    }

    /// Takes a fresh snapshot into account and returns, in the snapshot's
    /// order, the transitions it reveals. Products missing from the snapshot
    /// keep their state.
    pub fn observe(&mut self, snapshot: &Vec<Record>) -> (r: Vec<Transition>)
        ensures
            final(self)@ == apply(old(self)@, record_views(snapshot@)),
            transition_views(r@) == changes(old(self)@, record_views(snapshot@)),
    {
        let ghost start = self@;
        let ghost recs = record_views(snapshot@);
        let mut out: Vec<Transition> = Vec::new();
        let mut i: usize = 0;
        while i < snapshot.len()
            invariant
                i <= snapshot@.len(),
                recs == record_views(snapshot@),
                self@ == apply(start, recs.take(i as int)),
                transition_views(out@) == changes(start, recs.take(i as int)),
            decreases snapshot@.len() - i,
        {
            let rec = &snapshot[i];
            let now = rec.is_available();
            let was = self.state(rec.sku);
            proof {
                assert(recs.take(i + 1).drop_last() =~= recs.take(i as int));
                assert(recs.take(i + 1).last() == rec@);
            }
            if was != now {
                self.states.insert(rec.sku, now);
                out.push(Transition { sku: rec.sku, name: rec.name.clone(), was, now });
                proof {
                    assert(transition_views(out@) =~= changes(start, recs.take(i as int)).push(
                        TransitionView { sku: rec.sku, name: rec.name@, was, now },
                    ));
                }
            }
            i = i + 1;
        }
        proof {
            assert(recs.take(snapshot@.len() as int) =~= recs);
        }
        out
    }
}

} // verus!
