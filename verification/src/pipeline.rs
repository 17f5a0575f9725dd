//! Per-item download planning and completion.
//!
//! For each extracted item the pipeline resolves the image URL at the
//! canonical resolution, downloads it, persists the bytes under a path
//! derived from the item's identifier, and records one outcome. Everything
//! but the transfer itself is decided here: [`plan_item`] says whether a
//! download is attempted at all and where its bytes go, and
//! [`complete_item`] turns the transfer's verdict into the outcome.

use vstd::prelude::*;
use crate::state::{
    finish_step, has_index, lemma_done_covers_every_item, lemma_fan_in_completes, record_all,
    schedule_step, FetchOutcome, NetworkState, OutcomeModel, SharedState, StateModel,
};
use crate::text::{dec_digits, digit_char, push_decimal};
use crate::types::{
    bucket_items, extract_run_items, missing_metadata_msg, photos_view, ItemMetadata, ItemModel,
    Schedule,
};

verus! {

/// The fixed resolution key used to select which image URL to download.
pub open spec fn canonical_resolution() -> Seq<char> {
    "684x385"@
}

/// The failure reason recorded when an item's photos lack the canonical
/// resolution key.
pub open spec fn url_not_found_msg() -> Seq<char> {
    "URL not found"@
}

/// The directory thumbnails are written to.
pub open spec fn thumbnail_dir() -> Seq<char> {
    "./assets/thumbnails/"@
}

/// The path an item's thumbnail is persisted at, derived from its
/// identifier alone.
pub open spec fn thumb_path(id: u32) -> Seq<char> {
    thumbnail_dir() + dec_digits(id as nat) + ".png"@
}

/// First-match lookup of `key` in a resolution-to-URL list. Keys are
/// treated as unique per item, so the first match is the only one.
pub open spec fn lookup_photo(
    photos: Seq<(Seq<char>, Seq<char>)>,
    key: Seq<char>,
) -> Option<Seq<char>>
    decreases photos.len(),
{
    if photos.len() == 0 {
        Option::None
    } else if photos[0].0 == key {
        Option::Some(photos[0].1)
    } else {
        lookup_photo(photos.drop_first(), key)
    }
}

/// Looks `key` up in an item's photos.
fn photo_url(photos: &Vec<(String, String)>, key: &String) -> (r: Option<String>)
    ensures
        r is Some <==> lookup_photo(photos_view(photos@), key@) is Some,
        r is Some ==> r->Some_0@ == lookup_photo(photos_view(photos@), key@)->Some_0,
{
    let ghost pv = photos_view(photos@);
    proof {
        assert(pv.skip(0) =~= pv);
    }
    let mut k: usize = 0;
    while k < photos.len()
        invariant
            0 <= k <= photos@.len(),
            pv == photos_view(photos@),
            lookup_photo(pv, key@) == lookup_photo(pv.skip(k as int), key@),
        decreases photos@.len() - k,
    {
        let ghost kk = k as int;
        proof {
            assert(pv.skip(kk)[0] == pv[kk]);
        }
        let pair = &photos[k];
        if pair.0 == *key {
            proof {
                assert(pv[kk].0 == key@);
            }
            return Option::Some(pair.1.clone());
        }
        proof {
            assert(pv[kk].0 != key@);
            assert(pv.skip(kk).drop_first() =~= pv.skip(kk + 1));
        }
        k += 1;
    }
    proof {
        assert(pv.skip(pv.len() as int) =~= Seq::<(Seq<char>, Seq<char>)>::empty());
    }
    Option::None
}

/// The directory thumbnails are written to, for the embedding program to
/// create before the first run.
pub fn thumbnail_dir_path() -> (dir: String)
    ensures
        dir@ == thumbnail_dir(),
{
    String::from_str("./assets/thumbnails/")
}

/// The path an item's thumbnail is persisted at.
pub fn thumbnail_path(id: u32) -> (path: String)
    ensures
        path@ == thumb_path(id),
{
    let mut path = String::from_str("./assets/thumbnails/");
    push_decimal(&mut path, id);
    path.append(".png");
    proof {
        assert(path@ =~= thumb_path(id));
    }
    path
}

/// What a download task does for one item: transfer the URL's bytes to the
/// path, or record the already-decided outcome without any network call.
#[derive(Debug, PartialEq, Clone)]
pub enum ItemPlan {
    Fetch(String, String),
    Skip(FetchOutcome),
}

/// The mathematical model of an [`ItemPlan`].
#[verifier::ext_equal]
pub enum PlanModel {
    Fetch(Seq<char>, Seq<char>),
    Skip(OutcomeModel),
}

impl View for ItemPlan {
    type V = PlanModel;

    open spec fn view(&self) -> PlanModel {
        match self {
            ItemPlan::Fetch(url, path) => PlanModel::Fetch(url@, path@),
            ItemPlan::Skip(outcome) => PlanModel::Skip(outcome@),
        }
    }
}

/// An item's plan: download from its canonical-resolution URL and persist
/// at the path derived from its identifier; an item without that key fails
/// at once, with no network call.
pub open spec fn plan_of(item: ItemModel) -> PlanModel {
    match lookup_photo(item.photos, canonical_resolution()) {
        Option::Some(url) => PlanModel::Fetch(url, thumb_path(item.id)),
        Option::None => PlanModel::Skip(OutcomeModel::Failure(url_not_found_msg())),
    }
}

/// Plans one item's download.
pub fn plan_item(item: &ItemMetadata) -> (plan: ItemPlan)
    ensures
        plan@ == plan_of(item@),
{
    let key = String::from_str("684x385");
    match photo_url(&item.photos, &key) {
        Option::Some(url) => {
            let path = thumbnail_path(item.id);
            ItemPlan::Fetch(url, path)
        },
        Option::None => ItemPlan::Skip(
            FetchOutcome::Failure(String::from_str("URL not found")),
        ),
    }
}

/// Plans the whole fan-out: one plan per item, in item order.
pub fn plan_run(items: &Vec<ItemMetadata>) -> (plans: Vec<ItemPlan>)
    ensures
        plans@.len() == items@.len(),
        forall|i: int| 0 <= i < items@.len() ==> (#[trigger] plans@[i])@ == plan_of(items@[i]@),
{
    let mut plans: Vec<ItemPlan> = Vec::new();
    let mut k: usize = 0;
    while k < items.len()
        invariant
            0 <= k <= items@.len(),
            plans@.len() == k,
            forall|i: int| 0 <= i < k ==> (#[trigger] plans@[i])@ == plan_of(items@[i]@),
        decreases items@.len() - k,
    {
        let plan = plan_item(&items[k]);
        plans.push(plan);
        k += 1;
    }
    plans
}

/// Turns the transfer verdict of a planned download into the item's
/// outcome: the persisted path on success, the reported reason on a
/// download or persistence failure.
pub fn complete_item(path: String, transfer: Result<(), String>) -> (outcome: FetchOutcome)
    ensures
        transfer is Ok ==> outcome@ == OutcomeModel::Success(path@),
        transfer is Err ==> outcome@ == OutcomeModel::Failure(transfer->Err_0@),
{
    match transfer {
        Result::Ok(_) => FetchOutcome::Success(path),
        Result::Err(reason) => FetchOutcome::Failure(reason),
    }
}

/// What the schedule fetch of a run comes to: the extracted items of the
/// document's first date bucket, or the reason the run is over - the
/// fetch's own failure, or a document without a date bucket.
pub open spec fn run_fetch_view(
    fetched: Result<Schedule, String>,
) -> Result<Seq<ItemModel>, Seq<char>> {
    match fetched {
        Result::Ok(schedule) => {
            if schedule.dates@.len() == 0 {
                Result::Err(missing_metadata_msg())
            } else {
                Result::Ok(bucket_items(schedule.dates@[0].games@))
            }
        },
        Result::Err(reason) => Result::Err(reason@),
    }
}

/// Opens run `gen` with the result of its schedule fetch: extracts the
/// items, moves the shared state to the image phase (or to the terminal
/// error), and returns the download plans to fan out, one per item in item
/// order. No plans are returned - and nothing is to be fanned out - unless
/// this very call moved the state to the image phase.
pub fn start_run(state: &mut SharedState, gen: u64, fetched: Result<Schedule, String>) -> (plans:
    Option<Vec<ItemPlan>>)
    ensures
        final(state)@.generation == old(state)@.generation,
        gen != old(state)@.generation ==> *final(state) == *old(state),
        gen == old(state)@.generation ==> final(state)@.state == schedule_step(
            old(state)@.state,
            run_fetch_view(fetched),
        ),
        old(state).wf() ==> final(state).wf(),
        plans is Some <==> (gen == old(state)@.generation && old(state)@.state
            is FetchingJson && run_fetch_view(fetched) is Ok),
        plans is Some ==> {
            let items = run_fetch_view(fetched)->Ok_0;
            &&& plans->Some_0@.len() == items.len()
            &&& forall|i: int|
                0 <= i < items.len() ==> (#[trigger] plans->Some_0@[i])@ == plan_of(items[i])
        },
{
    match fetched {
        Result::Err(reason) => {
            state.apply_schedule(gen, Result::Err(reason));
            Option::None
        },
        Result::Ok(schedule) => {
            match extract_run_items(schedule) {
                Result::Err(msg) => {
                    state.apply_schedule(gen, Result::Err(msg));
                    Option::None
                },
                Result::Ok(items) => {
                    let fresh = gen == state.generation() && matches!(
                        state.state(),
                        NetworkState::FetchingJson,
                    );
                    let plans = plan_run(&items);
                    state.apply_schedule(gen, Result::Ok(items));
                    if fresh {
                        Option::Some(plans)
                    } else {
                        Option::None
                    }
                },
            }
        },
    }
}

/// The outcome one item ends with, as a function of the item and of the
/// verdict of its transfer (ignored when no transfer is planned).
pub open spec fn item_result(item: ItemModel, transfer: Result<(), Seq<char>>) -> OutcomeModel {
    match lookup_photo(item.photos, canonical_resolution()) {
        Option::None => OutcomeModel::Failure(url_not_found_msg()),
        Option::Some(_) => match transfer {
            Result::Ok(_) => OutcomeModel::Success(thumb_path(item.id)),
            Result::Err(reason) => OutcomeModel::Failure(reason),
        },
    }
}

/// An item whose photos lack the canonical resolution key is planned as
/// `Skip`, and the outcome it carries is the item's result whatever any
/// transfer would have said: no network call can change it. An item
/// planned as `Fetch` ends as its transfer decides, at the planned path.
pub proof fn lemma_plan_decides_outcome(item: ItemModel, transfer: Result<(), Seq<char>>)
    ensures
        plan_of(item) is Skip <==> lookup_photo(item.photos, canonical_resolution()) is None,
        plan_of(item) is Skip ==> plan_of(item)->Skip_0 == item_result(item, transfer),
        plan_of(item) is Fetch && transfer is Ok ==> item_result(item, transfer)
            == OutcomeModel::Success(plan_of(item)->Fetch_1),
        plan_of(item) is Fetch && transfer is Err ==> item_result(item, transfer)
            == OutcomeModel::Failure(transfer->Err_0),
{
}

/// The shape of a whole completed run: from a fresh image phase, each
/// item's result is recorded once, in whatever order the download tasks
/// happen to complete; the terminal transition then reaches `Done`
/// carrying exactly those events, and every item index is recorded - by
/// well-formedness, exactly once - with the outcome that the item and its
/// own transfer verdict determine.
pub proof fn lemma_run_reaches_done(
    items: Seq<ItemModel>,
    verdicts: Seq<Result<(), Seq<char>>>,
    events: Seq<(usize, OutcomeModel)>,
)
    requires
        verdicts.len() == items.len(),
        events.len() == items.len(),
        forall|k: int| 0 <= k < events.len() ==> ((#[trigger] events[k]).0 as nat) < items.len(),
        forall|k: int, l: int|
            0 <= k < l < events.len() ==> (#[trigger] events[k]).0 != (#[trigger] events[l]).0,
        forall|k: int|
            0 <= k < events.len() ==> (#[trigger] events[k]).1 == item_result(
                items[events[k].0 as int],
                verdicts[events[k].0 as int],
            ),
    ensures
        finish_step(record_all(StateModel::FetchingImages(items, Seq::empty()), events))
            == StateModel::Done(items, events),
        StateModel::Done(items, events).wf(),
        forall|i: usize| (i as nat) < items.len() ==> has_index(events, i),
{
    let st0 = StateModel::FetchingImages(items, Seq::empty());
    lemma_fan_in_completes(st0, events);
    assert(Seq::empty() + events =~= events);
    assert forall|i: usize| (i as nat) < items.len() implies has_index(events, i) by {
        lemma_done_covers_every_item(items, events, i);
    }
}

/// Rerunning the pipeline on the same items, when each transfer succeeds
/// in one run exactly when it succeeds in the other, gives outcomes that
/// agree up to failure text: successes at the same item positions, with
/// the same persisted paths.
pub proof fn lemma_rerun_matches(
    items: Seq<ItemModel>,
    first: Seq<Result<(), Seq<char>>>,
    second: Seq<Result<(), Seq<char>>>,
)
    requires
        first.len() == items.len(),
        second.len() == items.len(),
        forall|i: int|
            0 <= i < items.len() ==> ((#[trigger] first[i]) is Ok <==> (#[trigger] second[i]) is Ok),
    ensures
        forall|i: int|
            0 <= i < items.len() ==> ((#[trigger] item_result(items[i], first[i])) is Success
                <==> item_result(items[i], second[i]) is Success),
        forall|i: int|
            0 <= i < items.len() ==> (#[trigger] item_result(items[i], first[i]) is Success
                ==> item_result(items[i], first[i]) == item_result(items[i], second[i])),
{
    assert forall|i: int|
        0 <= i < items.len() implies ((#[trigger] item_result(items[i], first[i])) is Success
        <==> item_result(items[i], second[i]) is Success) && (item_result(items[i], first[i])
        is Success ==> item_result(items[i], first[i]) == item_result(items[i], second[i])) by {
        assert(first[i] is Ok <==> second[i] is Ok);
    }
}

/// The decimal rendering has at least one digit, and at least two for
/// numbers of two digits.
proof fn lemma_dec_digits_len(n: nat)
    ensures
        dec_digits(n).len() >= 1,
        n >= 10 ==> dec_digits(n).len() >= 2,
    decreases n,
{
    if n >= 10 {
        lemma_dec_digits_len(n / 10);
    }
}

/// Distinct numbers have distinct decimal renderings.
proof fn lemma_dec_digits_injective(a: nat, b: nat)
    requires
        a != b,
    ensures
        dec_digits(a) != dec_digits(b),
    decreases a + b,
{
    lemma_dec_digits_len(a);
    lemma_dec_digits_len(b);
    if a < 10 && b < 10 {
        assert(digit_char(a) != digit_char(b));
        assert(dec_digits(a)[0] == digit_char(a));
        assert(dec_digits(b)[0] == digit_char(b));
    } else if a < 10 {
        assert(dec_digits(a).len() == 1);
    } else if b < 10 {
        assert(dec_digits(b).len() == 1);
    } else {
        if dec_digits(a) == dec_digits(b) {
            assert(dec_digits(a).last() == digit_char(a % 10));
            assert(dec_digits(b).last() == digit_char(b % 10));
            assert(a % 10 == b % 10) by {
                if a % 10 != b % 10 {
                    assert(digit_char(a % 10) != digit_char(b % 10));
                }
            }
            assert(a / 10 != b / 10);
            lemma_dec_digits_injective(a / 10, b / 10);
            assert(dec_digits(a).drop_last() =~= dec_digits(a / 10));
            assert(dec_digits(b).drop_last() =~= dec_digits(b / 10));
            assert(false);
        }
    }
}

/// Item identifiers are unique within a run, so download tasks never
/// persist to the same path: the thumbnail path is injective in the
/// identifier, and writes to distinct paths need no coordination.
pub proof fn lemma_thumbnail_path_injective(a: u32, b: u32)
    requires
        a != b,
    ensures
        thumb_path(a) != thumb_path(b),
{
    lemma_dec_digits_injective(a as nat, b as nat);
    let prefix = thumbnail_dir();
    let suffix = ".png"@;
    let da = dec_digits(a as nat);
    let db = dec_digits(b as nat);
    if thumb_path(a) == thumb_path(b) {
        assert(thumb_path(a).len() == prefix.len() + da.len() + suffix.len());
        assert(thumb_path(b).len() == prefix.len() + db.len() + suffix.len());
        assert(da.len() == db.len());
        assert forall|i: int| 0 <= i < da.len() implies da[i] == db[i] by {
            assert(thumb_path(a)[prefix.len() + i] == da[i]);
            assert(thumb_path(b)[prefix.len() + i] == db[i]);
        }
        assert(da =~= db);
        assert(false);
    }
}

} // verus!
