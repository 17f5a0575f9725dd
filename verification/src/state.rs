//! The shared, observable state of one orchestration run.
//!
//! A run moves strictly forward: `FetchingJson` to `FetchingImages` once the
//! schedule is retrieved, then one recorded outcome per item, then a terminal
//! `Done` or `Error`. The cell carries a generation counter so that a run
//! superseded by a newer one can no longer write: every write names the
//! generation of its run and is a detectable no-op when it does not match.

use vstd::prelude::*;
use vstd::seq_lib::seq_to_set_is_finite;
use vstd::set_lib::{lemma_int_range, lemma_len_subset, set_int_range};
use crate::types::{items_view, ItemMetadata, ItemModel};

verus! {

/// The outcome of one item's download: the local path the thumbnail was
/// written to, or the reason the item failed. Exactly one outcome is
/// recorded per item of a run.
#[derive(Debug, PartialEq, Clone)]
pub enum FetchOutcome {
    Success(String),
    Failure(String),
}

/// The mathematical model of a [`FetchOutcome`].
#[verifier::ext_equal]
pub enum OutcomeModel {
    Success(Seq<char>),
    Failure(Seq<char>),
}

impl View for FetchOutcome {
    type V = OutcomeModel;

    open spec fn view(&self) -> OutcomeModel {
        match self {
            FetchOutcome::Success(path) => OutcomeModel::Success(path@),
            FetchOutcome::Failure(reason) => OutcomeModel::Failure(reason@),
        }
    }
}

/// The model of the recorded outcomes: pairs of item index and outcome, in
/// recording order.
pub open spec fn results_view(rs: Seq<(usize, FetchOutcome)>) -> Seq<(usize, OutcomeModel)> {
    rs.map_values(|p: (usize, FetchOutcome)| (p.0, p.1@))
}

/// Whether an outcome for item `index` is already recorded.
pub open spec fn has_index(rs: Seq<(usize, OutcomeModel)>, index: usize) -> bool {
    exists|k: int| 0 <= k < rs.len() && (#[trigger] rs[k]).0 == index
}

/// Well-formed recorded outcomes for a run of `n` items: no more entries
/// than items, every index in range, and no index recorded twice.
pub open spec fn results_wf(n: nat, rs: Seq<(usize, OutcomeModel)>) -> bool {
    &&& rs.len() <= n
    &&& forall|k: int| 0 <= k < rs.len() ==> ((#[trigger] rs[k]).0 as nat) < n
    &&& forall|k: int, l: int|
        0 <= k < l < rs.len() ==> (#[trigger] rs[k]).0 != (#[trigger] rs[l]).0
}

/// The state of one run, observable by the consumer while the pipeline
/// writes it.
#[derive(Debug, PartialEq, Clone)]
pub enum NetworkState {
    /// Initial: the schedule document is not yet retrieved.
    FetchingJson,
    /// The schedule is retrieved; the first payload is the full extracted
    /// item sequence, fixed for the run, and the second grows by one entry
    /// per completed download task.
    FetchingImages(Vec<ItemMetadata>, Vec<(usize, FetchOutcome)>),
    /// Terminal: the pipeline failed irrecoverably for this run.
    Error(String),
    /// Terminal: all outcomes collected, one per item.
    Done(Vec<ItemMetadata>, Vec<(usize, FetchOutcome)>),
}

/// The mathematical model of a [`NetworkState`].
#[verifier::ext_equal]
pub enum StateModel {
    FetchingJson,
    FetchingImages(Seq<ItemModel>, Seq<(usize, OutcomeModel)>),
    Error(Seq<char>),
    Done(Seq<ItemModel>, Seq<(usize, OutcomeModel)>),
}

impl View for NetworkState {
    type V = StateModel;

    open spec fn view(&self) -> StateModel {
        match self {
            NetworkState::FetchingJson => StateModel::FetchingJson,
            NetworkState::FetchingImages(items, rs) => StateModel::FetchingImages(
                items_view(items@),
                results_view(rs@),
            ),
            NetworkState::Error(reason) => StateModel::Error(reason@),
            NetworkState::Done(items, rs) => StateModel::Done(items_view(items@), results_view(rs@)),
        }
    }
}

impl StateModel {
    /// The state invariant: recorded outcomes are well-formed against the
    /// item count, and a `Done` state holds exactly one outcome per item.
    pub open spec fn wf(self) -> bool {
        match self {
            StateModel::FetchingJson => true,
            StateModel::FetchingImages(items, rs) => results_wf(items.len(), rs),
            StateModel::Error(_) => true,
            StateModel::Done(items, rs) => results_wf(items.len(), rs) && rs.len() == items.len(),
        }
    }

    /// How many outcomes are recorded.
    pub open spec fn partial_count(self) -> nat {
        match self {
            StateModel::FetchingJson => 0,
            StateModel::FetchingImages(_, rs) => rs.len(),
            StateModel::Error(_) => 0,
            StateModel::Done(_, rs) => rs.len(),
        }
    }
}

/// The error reported when a transition finds the state in an unexpected
/// variant.
pub open spec fn unexpected_transition_msg() -> Seq<char> {
    "unexpected state transition"@
}

/// The model of the schedule-fetch transition: from `FetchingJson`, a
/// retrieval failure is terminal and a retrieved item sequence starts the
/// image phase with no outcome recorded yet; any other variant is an
/// invariant violation.
pub open spec fn schedule_step(
    st: StateModel,
    fetched: Result<Seq<ItemModel>, Seq<char>>,
) -> StateModel {
    match st {
        StateModel::FetchingJson => match fetched {
            Result::Ok(items) => StateModel::FetchingImages(items, Seq::empty()),
            Result::Err(reason) => StateModel::Error(reason),
        },
        _ => StateModel::Error(unexpected_transition_msg()),
    }
}

/// The model of the result handed to [`SharedState::apply_schedule`].
pub open spec fn fetched_view(
    fetched: Result<Vec<ItemMetadata>, String>,
) -> Result<Seq<ItemModel>, Seq<char>> {
    match fetched {
        Result::Ok(items) => Result::Ok(items_view(items@)),
        Result::Err(reason) => Result::Err(reason@),
    }
}

/// Whether an outcome for `index` can be recorded: the run is in its image
/// phase, the index names an item, and no outcome holds that index yet.
pub open spec fn can_record(st: StateModel, index: usize) -> bool {
    &&& st is FetchingImages
    &&& (index as nat) < st->FetchingImages_0.len()
    &&& !has_index(st->FetchingImages_1, index)
}

/// The model of recording one outcome: append it when it can be recorded,
/// leave the state untouched otherwise (a superseded or duplicate write
/// changes nothing).
pub open spec fn record_step(st: StateModel, index: usize, outcome: OutcomeModel) -> StateModel {
    if can_record(st, index) {
        StateModel::FetchingImages(
            st->FetchingImages_0,
            st->FetchingImages_1.push((index, outcome)),
        )
    } else {
        st
    }
}

/// The model of the terminal transition: `Done` exactly when the image
/// phase holds one outcome per item; anything else is an invariant
/// violation.
pub open spec fn finish_step(st: StateModel) -> StateModel {
    match st {
        StateModel::FetchingImages(items, rs) => {
            if rs.len() == items.len() {
                StateModel::Done(items, rs)
            } else {
                StateModel::Error(unexpected_transition_msg())
            }
        },
        _ => StateModel::Error(unexpected_transition_msg()),
    }
}

/// The recorded indices, as a set of integers.
spec fn index_set(rs: Seq<(usize, OutcomeModel)>) -> Set<int> {
    rs.map_values(|p: (usize, OutcomeModel)| p.0 as int).to_set()
}

/// Distinct indices below `n` form a finite subset of `[0, n)` with one
/// element per entry.
proof fn lemma_index_set_card(n: nat, rs: Seq<(usize, OutcomeModel)>)
    requires
        forall|k: int| 0 <= k < rs.len() ==> ((#[trigger] rs[k]).0 as nat) < n,
        forall|k: int, l: int|
            0 <= k < l < rs.len() ==> (#[trigger] rs[k]).0 != (#[trigger] rs[l]).0,
    ensures
        index_set(rs).finite(),
        index_set(rs).len() == rs.len(),
        index_set(rs).subset_of(set_int_range(0, n as int)),
{
    let idxs = rs.map_values(|p: (usize, OutcomeModel)| p.0 as int);
    assert(idxs.no_duplicates()) by {
        assert forall|k: int, l: int|
            0 <= k < idxs.len() && 0 <= l < idxs.len() && k != l implies idxs[k] != idxs[l] by {
            if k < l {
                assert(rs[k].0 != rs[l].0);
            } else {
                assert(rs[l].0 != rs[k].0);
            }
        }
    }
    idxs.unique_seq_to_set();
    seq_to_set_is_finite(idxs);
    assert(idxs.to_set().subset_of(set_int_range(0, n as int))) by {
        assert forall|x: int| idxs.to_set().contains(x) implies 0 <= x < n as int by {
            let k = choose|k: int| 0 <= k < idxs.len() && idxs[k] == x;
            assert(((rs[k]).0 as nat) < n);
        }
    }
}

/// A sequence of distinct indices below `n` cannot be longer than `n`.
proof fn lemma_distinct_bounded(n: nat, rs: Seq<(usize, OutcomeModel)>)
    requires
        forall|k: int| 0 <= k < rs.len() ==> ((#[trigger] rs[k]).0 as nat) < n,
        forall|k: int, l: int|
            0 <= k < l < rs.len() ==> (#[trigger] rs[k]).0 != (#[trigger] rs[l]).0,
    ensures
        rs.len() <= n,
{
    lemma_index_set_card(n, rs);
    lemma_int_range(0, n as int);
    lemma_len_subset(index_set(rs), set_int_range(0, n as int));
}

/// Exactly one outcome per item, no fewer: a well-formed `Done` state
/// records an outcome for every item index (and, by well-formedness, at
/// most one).
pub proof fn lemma_done_covers_every_item(
    items: Seq<ItemModel>,
    rs: Seq<(usize, OutcomeModel)>,
    index: usize,
)
    requires
        StateModel::Done(items, rs).wf(),
        (index as nat) < items.len(),
    ensures
        has_index(rs, index),
{
    let n = items.len();
    lemma_index_set_card(n, rs);
    lemma_int_range(0, n as int);
    if !has_index(rs, index) {
        let idxs = rs.map_values(|p: (usize, OutcomeModel)| p.0 as int);
        assert(!idxs.to_set().contains(index as int)) by {
            if idxs.to_set().contains(index as int) {
                let k = choose|k: int| 0 <= k < idxs.len() && idxs[k] == index as int;
                assert((rs[k]).0 == index);
            }
        }
        index_set(rs).lemma_subset_not_in_lt(set_int_range(0, n as int), index as int);
        assert(false);
    }
}

/// Appending an entry makes its index recorded and leaves every other
/// index as it was.
pub proof fn lemma_has_index_push(
    rs: Seq<(usize, OutcomeModel)>,
    entry: (usize, OutcomeModel),
    index: usize,
)
    ensures
        has_index(rs.push(entry), index) <==> (has_index(rs, index) || entry.0 == index),
{
    let rs2 = rs.push(entry);
    if has_index(rs, index) {
        let k = choose|k: int| 0 <= k < rs.len() && (rs[k]).0 == index;
        assert(rs2[k] == rs[k]);
        assert(has_index(rs2, index));
    }
    if entry.0 == index {
        assert(rs2[rs.len() as int] == entry);
        assert(has_index(rs2, index));
    }
    if has_index(rs2, index) && entry.0 != index {
        let k = choose|k: int| 0 <= k < rs2.len() && (rs2[k]).0 == index;
        assert(k < rs.len());
        assert(rs[k] == rs2[k]);
        assert(has_index(rs, index));
    }
}

/// Recording a fresh, in-range outcome keeps the recorded outcomes
/// well-formed.
pub proof fn lemma_record_push_wf(
    n: nat,
    rs: Seq<(usize, OutcomeModel)>,
    index: usize,
    outcome: OutcomeModel,
)
    requires
        results_wf(n, rs),
        (index as nat) < n,
        !has_index(rs, index),
    ensures
        results_wf(n, rs.push((index, outcome))),
{
    let rs2 = rs.push((index, outcome));
    assert forall|k: int| 0 <= k < rs2.len() implies ((rs2[k]).0 as nat) < n by {
        if k < rs.len() {
            assert(rs2[k] == rs[k]);
        }
    }
    assert forall|k: int, l: int| 0 <= k < l < rs2.len() implies (rs2[k]).0 != (rs2[l]).0 by {
        if l < rs.len() {
            assert(rs2[k] == rs[k] && rs2[l] == rs[l]);
        } else {
            assert(rs2[k] == rs[k]);
            if (rs[k]).0 == index {
                assert(has_index(rs, index));
            }
        }
    }
    lemma_distinct_bounded(n, rs2);
}

/// The shared cell: the observable state of the current run, tagged with
/// the run's generation. The orchestrator and its download tasks write it
/// through the transition methods below; the consumer reads it and starts
/// new runs. A write that names a stale generation changes nothing.
pub struct SharedState {
    generation: u64,
    state: NetworkState,
}

/// The mathematical model of a [`SharedState`].
#[verifier::ext_equal]
pub struct RunModel {
    pub generation: u64,
    pub state: StateModel,
}

impl View for SharedState {
    type V = RunModel;

    closed spec fn view(&self) -> RunModel {
        RunModel { generation: self.generation, state: self.state@ }
    }
}

impl SharedState {
    /// The cell's invariant.
    pub open spec fn wf(self) -> bool {
        self@.state.wf()
    }

    /// A fresh cell: generation zero, nothing fetched yet.
    pub fn new() -> (s: SharedState)
        ensures
            s@.generation == 0,
            s@.state == StateModel::FetchingJson,
            s.wf(),
    {
        SharedState { generation: 0, state: NetworkState::FetchingJson }
    }

    /// The generation of the current run.
    pub fn generation(&self) -> (gen: u64)
        ensures
            gen == self@.generation,
    {
        self.generation
    }

    /// Read access for the consumer.
    pub fn state(&self) -> (st: &NetworkState)
        ensures
            st@ == self@.state,
    {
        &self.state
    }

    /// Supersedes the current run: discards its state in full and opens a
    /// new generation, returned for the new run's writes. Writes of the
    /// superseded run are no-ops from here on.
    pub fn begin_new_run(&mut self) -> (gen: u64)
        requires
            old(self)@.generation < u64::MAX,
        ensures
            final(self)@.generation == old(self)@.generation + 1,
            gen == final(self)@.generation,
            final(self)@.state == StateModel::FetchingJson,
            final(self).wf(),
    {
        self.generation = self.generation + 1;
        self.state = NetworkState::FetchingJson;
        self.generation
    }

    /// Applies the schedule-fetch result of run `gen`: an extracted item
    /// sequence starts the image phase, a failure reason is terminal.
    pub fn apply_schedule(&mut self, gen: u64, fetched: Result<Vec<ItemMetadata>, String>)
        ensures
            final(self)@.generation == old(self)@.generation,
            gen != old(self)@.generation ==> *final(self) == *old(self),
            gen == old(self)@.generation ==> final(self)@.state == schedule_step(
                old(self)@.state,
                fetched_view(fetched),
            ),
            old(self).wf() ==> final(self).wf(),
    {
        if gen == self.generation {
            let fresh = matches!(&self.state, NetworkState::FetchingJson);
            if fresh {
                match fetched {
                    Result::Ok(items) => {
                        self.state = NetworkState::FetchingImages(items, Vec::new());
                        proof {
                            assert(results_view(Seq::empty()) =~= Seq::empty());
                            assert(self.state@ =~= schedule_step(
                                old(self)@.state,
                                fetched_view(fetched),
                            ));
                        }
                    },
                    Result::Err(reason) => {
                        self.state = NetworkState::Error(reason);
                    },
                }
            } else {
                self.state = NetworkState::Error(String::from_str("unexpected state transition"));
            }
        }
    }

    /// Records the outcome of item `index` for run `gen`. Returns whether
    /// the outcome was recorded; a stale generation, a state outside the
    /// image phase, an index out of range or an index already recorded
    /// leaves the state untouched and returns false, so the caller can
    /// detect the anomaly.
    pub fn record_outcome(&mut self, gen: u64, index: usize, outcome: FetchOutcome) -> (recorded:
        bool)
        ensures
            final(self)@.generation == old(self)@.generation,
            gen != old(self)@.generation ==> *final(self) == *old(self),
            gen == old(self)@.generation ==> final(self)@.state == record_step(
                old(self)@.state,
                index,
                outcome@,
            ),
            recorded == (gen == old(self)@.generation && can_record(old(self)@.state, index)),
            final(self)@.state.partial_count() >= old(self)@.state.partial_count(),
            old(self).wf() ==> final(self).wf(),
    {
        if gen != self.generation {
            return false;
        }
        let mut taken = NetworkState::FetchingJson;
        core::mem::swap(&mut self.state, &mut taken);
        match taken {
            NetworkState::FetchingImages(items, mut rs) => {
                let ghost old_rs = results_view(rs@);
                if index < items.len() && !contains_index(&rs, index) {
                    rs.push((index, outcome));
                    proof {
                        assert(results_view(rs@) =~= old_rs.push((index, outcome@)));
                        if old(self).wf() {
                            lemma_record_push_wf(items_view(items@).len(), old_rs, index, outcome@);
                        }
                    }
                    self.state = NetworkState::FetchingImages(items, rs);
                    proof {
                        assert(self.state@ =~= record_step(old(self)@.state, index, outcome@));
                    }
                    true
                } else {
                    self.state = NetworkState::FetchingImages(items, rs);
                    proof {
                        assert(*self =~= *old(self));
                    }
                    false
                }
            },
            other => {
                self.state = other;
                proof {
                    assert(*self =~= *old(self));
                }
                false
            },
        }
    }

    /// Closes run `gen`: the terminal transition. `Done` is reached exactly
    /// when one outcome per item is recorded; closing a run in any other
    /// state is an invariant violation and terminal as an error.
    pub fn finish_run(&mut self, gen: u64)
        ensures
            final(self)@.generation == old(self)@.generation,
            gen != old(self)@.generation ==> *final(self) == *old(self),
            gen == old(self)@.generation ==> final(self)@.state == finish_step(old(self)@.state),
            gen == old(self)@.generation ==> (final(self)@.state is Done <==> (
            old(self)@.state matches StateModel::FetchingImages(items, rs) && rs.len()
                == items.len())),
            old(self).wf() ==> final(self).wf(),
    {
        if gen != self.generation {
            return ;
        }
        let mut taken = NetworkState::FetchingJson;
        core::mem::swap(&mut self.state, &mut taken);
        match taken {
            NetworkState::FetchingImages(items, rs) => {
                if rs.len() == items.len() {
                    self.state = NetworkState::Done(items, rs);
                } else {
                    self.state = NetworkState::Error(
                        String::from_str("unexpected state transition"),
                    );
                }
            },
            _ => {
                self.state = NetworkState::Error(String::from_str("unexpected state transition"));
            },
        }
    }
}

/// Whether an outcome for `index` is already recorded, executably.
fn contains_index(rs: &Vec<(usize, FetchOutcome)>, index: usize) -> (found: bool)
    ensures
        found == has_index(results_view(rs@), index),
{
    let mut k: usize = 0;
    while k < rs.len()
        invariant
            0 <= k <= rs@.len(),
            forall|l: int| 0 <= l < k ==> (#[trigger] rs@[l]).0 != index,
        decreases rs@.len() - k,
    {
        if rs[k].0 == index {
            proof {
                assert((results_view(rs@)[k as int]).0 == index);
            }
            return true;
        }
        k += 1;
    }
    proof {
        assert forall|l: int| 0 <= l < results_view(rs@).len() implies (#[trigger] results_view(
            rs@,
        )[l]).0 != index by {
            assert((results_view(rs@)[l]).0 == rs@[l].0);
        }
    }
    false
}

/// The model of a whole fan-in: the outcomes of a run's download tasks
/// recorded one by one, in the order the tasks happened to complete.
pub open spec fn record_all(st: StateModel, events: Seq<(usize, OutcomeModel)>) -> StateModel
    decreases events.len(),
{
    if events.len() == 0 {
        st
    } else {
        record_all(record_step(st, events[0].0, events[0].1), events.drop_first())
    }
}

/// The recorded-outcome count never decreases while outcomes are recorded,
/// whatever the order and whatever the writes attempt.
pub proof fn lemma_partial_count_monotonic(st: StateModel, events: Seq<(usize, OutcomeModel)>)
    ensures
        record_all(st, events).partial_count() >= st.partial_count(),
    decreases events.len(),
{
    if events.len() > 0 {
        let st1 = record_step(st, events[0].0, events[0].1);
        assert(st1.partial_count() >= st.partial_count());
        lemma_partial_count_monotonic(st1, events.drop_first());
    }
}

/// Fan-in: from an image phase, recording events with distinct in-range
/// indices disjoint from what is already recorded - in any completion
/// order - appends exactly those events, keeps the items untouched and the
/// state well-formed. No event is lost and none is counted twice.
pub proof fn lemma_fan_in(st: StateModel, events: Seq<(usize, OutcomeModel)>)
    requires
        st is FetchingImages,
        st.wf(),
        forall|k: int|
            0 <= k < events.len() ==> ((#[trigger] events[k]).0 as nat)
                < st->FetchingImages_0.len(),
        forall|k: int, l: int|
            0 <= k < l < events.len() ==> (#[trigger] events[k]).0 != (#[trigger] events[l]).0,
        forall|k: int|
            0 <= k < events.len() ==> !has_index(st->FetchingImages_1, (#[trigger] events[k]).0),
    ensures
        record_all(st, events) == StateModel::FetchingImages(
            st->FetchingImages_0,
            st->FetchingImages_1 + events,
        ),
        record_all(st, events).wf(),
    decreases events.len(),
{
    let items = st->FetchingImages_0;
    let rs = st->FetchingImages_1;
    if events.len() == 0 {
        assert(rs + events =~= rs);
        assert(record_all(st, events) =~= StateModel::FetchingImages(items, rs + events));
    } else {
        let entry = events[0];
        let rest = events.drop_first();
        assert(can_record(st, entry.0));
        let st1 = record_step(st, entry.0, entry.1);
        assert((entry.0, entry.1) == entry);
        assert(st1 == StateModel::FetchingImages(items, rs.push(entry)));
        lemma_record_push_wf(items.len(), rs, entry.0, entry.1);
        assert forall|k: int|
            0 <= k < rest.len() implies !has_index(
            st1->FetchingImages_1,
            (#[trigger] rest[k]).0,
        ) by {
            assert(rest[k] == events[k + 1]);
            assert(events[k + 1].0 != entry.0);
            assert(!has_index(rs, events[k + 1].0));
            lemma_has_index_push(rs, entry, events[k + 1].0);
        }
        assert forall|k: int, l: int|
            0 <= k < l < rest.len() implies (#[trigger] rest[k]).0 != (#[trigger] rest[l]).0 by {
            assert(rest[k] == events[k + 1] && rest[l] == events[l + 1]);
        }
        assert forall|k: int|
            0 <= k < rest.len() implies ((#[trigger] rest[k]).0 as nat) < items.len() by {
            assert(rest[k] == events[k + 1]);
        }
        lemma_fan_in(st1, rest);
        assert(rs.push(entry) + rest =~= rs + events);
    }
}

/// Writes from distinct download tasks are commutative: recording two
/// outcomes with distinct fresh indices in either order yields image
/// phases with the same items and the same recorded entries - only the
/// recording order differs, and nothing depends on it.
pub proof fn lemma_record_writes_commute(
    st: StateModel,
    e1: (usize, OutcomeModel),
    e2: (usize, OutcomeModel),
)
    requires
        can_record(st, e1.0),
        can_record(st, e2.0),
        e1.0 != e2.0,
    ensures
        ({
            let one = record_step(record_step(st, e1.0, e1.1), e2.0, e2.1);
            let two = record_step(record_step(st, e2.0, e2.1), e1.0, e1.1);
            &&& one is FetchingImages
            &&& two is FetchingImages
            &&& one->FetchingImages_0 == two->FetchingImages_0
            &&& one->FetchingImages_1.to_multiset() == two->FetchingImages_1.to_multiset()
        }),
{
    broadcast use vstd::seq_lib::group_to_multiset_ensures;

    let rs = st->FetchingImages_1;
    lemma_has_index_push(rs, e1, e2.0);
    lemma_has_index_push(rs, e2, e1.0);
    assert((e1.0, e1.1) == e1);
    assert((e2.0, e2.1) == e2);
    assert(rs.push(e1).push(e2).to_multiset() =~= rs.to_multiset().insert(e1).insert(e2));
    assert(rs.push(e2).push(e1).to_multiset() =~= rs.to_multiset().insert(e2).insert(e1));
    assert(rs.to_multiset().insert(e1).insert(e2) =~= rs.to_multiset().insert(e2).insert(e1));
}

/// Once the fan-in of a full run has recorded one outcome per item, and
/// only then, the terminal transition reaches `Done`, carrying the items
/// and every recorded outcome.
pub proof fn lemma_fan_in_completes(st: StateModel, events: Seq<(usize, OutcomeModel)>)
    requires
        st is FetchingImages,
        st.wf(),
        forall|k: int|
            0 <= k < events.len() ==> ((#[trigger] events[k]).0 as nat)
                < st->FetchingImages_0.len(),
        forall|k: int, l: int|
            0 <= k < l < events.len() ==> (#[trigger] events[k]).0 != (#[trigger] events[l]).0,
        forall|k: int|
            0 <= k < events.len() ==> !has_index(st->FetchingImages_1, (#[trigger] events[k]).0),
    ensures
        finish_step(record_all(st, events)) is Done <==> st->FetchingImages_1.len() + events.len()
            == st->FetchingImages_0.len(),
        st->FetchingImages_1.len() + events.len() == st->FetchingImages_0.len() ==> finish_step(
            record_all(st, events),
        ) == StateModel::Done(st->FetchingImages_0, st->FetchingImages_1 + events),
{
    lemma_fan_in(st, events);
}

} // verus!
