//! The schedule document returned by the remote schedule endpoint, and the
//! extraction of per-item metadata from it.
//!
//! A document is a list of date buckets, each a list of games; a game
//! carries optional editorial content. Extraction projects each game with
//! editorial content into an [`ItemMetadata`] record and silently drops the
//! games without one.

use vstd::prelude::*;

verus! {

/// One image cut: the URL of the image at one resolution.
#[derive(Debug, PartialEq, Clone)]
pub struct Cut {
    pub src: String,
}

/// The image cuts of a game's recap photo, keyed by resolution
/// (for example `"684x385"`). Keys are treated as unique per photo.
#[derive(Debug, PartialEq, Clone)]
pub struct Photo {
    pub cuts: Vec<(String, Cut)>,
}

/// The editorial recap body: display text and the recap photo.
#[derive(Debug, PartialEq, Clone)]
pub struct Mlb {
    pub headline: String,
    pub subhead: String,
    pub blurb: String,
    pub photo: Photo,
}

/// The recap of a game.
#[derive(Debug, PartialEq, Clone)]
pub struct Recap {
    pub mlb: Mlb,
}

/// The editorial content attached to a game.
#[derive(Debug, PartialEq, Clone)]
pub struct Editorial {
    pub recap: Recap,
}

/// A game's content; the editorial part is optional.
#[derive(Debug, PartialEq, Clone)]
pub struct Game {
    pub game_pk: u32,
    pub game_date: String,
    pub content: Content,
}

/// The wrapper holding a game's optional editorial content.
#[derive(Debug, PartialEq, Clone)]
pub struct Content {
    pub editorial: Option<Editorial>,
}

/// One date bucket of the schedule document.
#[derive(Debug, PartialEq, Clone)]
pub struct DateItem {
    pub games: Vec<Game>,
}

/// The schedule document: a list of date buckets.
#[derive(Debug, PartialEq, Clone)]
pub struct Schedule {
    pub dates: Vec<DateItem>,
}

/// One extracted item: the metadata of a game that had editorial content.
/// `photos` maps a resolution key to an image URL; keys are treated as
/// unique per item. Immutable once constructed.
#[derive(Debug, PartialEq, Clone)]
pub struct ItemMetadata {
    pub date: String,
    pub id: u32,
    pub headline: String,
    pub subhead: String,
    pub blurb: String,
    pub photos: Vec<(String, String)>,
}

/// The mathematical model of an [`ItemMetadata`].
#[verifier::ext_equal]
pub struct ItemModel {
    pub date: Seq<char>,
    pub id: u32,
    pub headline: Seq<char>,
    pub subhead: Seq<char>,
    pub blurb: Seq<char>,
    pub photos: Seq<(Seq<char>, Seq<char>)>,
}

/// The model of a resolution-to-URL list.
pub open spec fn photos_view(photos: Seq<(String, String)>) -> Seq<(Seq<char>, Seq<char>)> {
    photos.map_values(|p: (String, String)| (p.0@, p.1@))
}

/// The model of a resolution-to-cut list, keeping only each cut's URL.
pub open spec fn cuts_view(cuts: Seq<(String, Cut)>) -> Seq<(Seq<char>, Seq<char>)> {
    cuts.map_values(|p: (String, Cut)| (p.0@, p.1.src@))
}

impl View for ItemMetadata {
    type V = ItemModel;

    open spec fn view(&self) -> ItemModel {
        ItemModel {
            date: self.date@,
            id: self.id,
            headline: self.headline@,
            subhead: self.subhead@,
            blurb: self.blurb@,
            photos: photos_view(self.photos@),
        }
    }
}

/// The model of a sequence of extracted items.
pub open spec fn items_view(items: Seq<ItemMetadata>) -> Seq<ItemModel> {
    items.map_values(|m: ItemMetadata| m@)
}

/// What one game contributes: its item metadata if it has editorial
/// content, nothing otherwise.
pub open spec fn project(g: Game) -> Option<ItemModel> {
    match g.content.editorial {
        Option::Some(ed) => Option::Some(
            ItemModel {
                date: g.game_date@,
                id: g.game_pk,
                headline: ed.recap.mlb.headline@,
                subhead: ed.recap.mlb.subhead@,
                blurb: ed.recap.mlb.blurb@,
                photos: cuts_view(ed.recap.mlb.photo.cuts@),
            },
        ),
        Option::None => Option::None,
    }
}

/// The items of one date bucket, in game order, keeping exactly the games
/// with editorial content.
pub open spec fn bucket_items(games: Seq<Game>) -> Seq<ItemModel>
    decreases games.len(),
{
    if games.len() == 0 {
        Seq::empty()
    } else {
        bucket_items(games.drop_last()) + (match project(games.last()) {
            Option::Some(m) => seq![m],
            Option::None => Seq::empty(),
        })
    }
}

/// Turns a cut list into the resolution-to-URL list of an item.
fn cuts_to_photos(cuts: Vec<(String, Cut)>) -> (photos: Vec<(String, String)>)
    ensures
        photos_view(photos@) == cuts_view(cuts@),
{
    let ghost orig = cuts@;
    let mut rest = cuts;
    let mut photos: Vec<(String, String)> = Vec::new();
    while rest.len() > 0
        invariant
            photos@.len() + rest@.len() == orig.len(),
            rest@ == orig.skip(photos@.len() as int),
            photos_view(photos@) == cuts_view(orig.take(photos@.len() as int)),
        decreases rest@.len(),
    {
        let ghost i = photos@.len() as int;
        let p = rest.remove(0);
        photos.push((p.0, p.1.src));
        proof {
            assert(rest@ =~= orig.skip(i + 1));
            assert(orig.take(i + 1) =~= orig.take(i).push(orig[i]));
            assert(cuts_view(orig.take(i + 1)) =~= cuts_view(orig.take(i)).push(
                (orig[i].0@, orig[i].1.src@),
            ));
            assert(photos_view(photos@) =~= cuts_view(orig.take(i + 1)));
        }
    }
    proof {
        assert(orig.take(orig.len() as int) =~= orig);
    }
    photos
}

/// Builds the item of one game, or nothing if the game lacks editorial
/// content.
fn game_item(game: Game) -> (r: Option<ItemMetadata>)
    ensures
        r is Some <==> project(game) is Some,
        r is Some ==> r->Some_0@ == project(game)->Some_0,
{
    match game.content.editorial {
        Option::Some(editorial) => {
            let mlb = editorial.recap.mlb;
            let photos = cuts_to_photos(mlb.photo.cuts);
            let item = ItemMetadata {
                date: game.game_date,
                id: game.game_pk,
                headline: mlb.headline,
                subhead: mlb.subhead,
                blurb: mlb.blurb,
                photos,
            };
            proof {
                assert(item@ =~= project(game)->Some_0);
            }
            Option::Some(item)
        },
        Option::None => Option::None,
    }
}

/// Extracts the items of one date bucket, in game order.
fn extract_bucket(games: Vec<Game>) -> (items: Vec<ItemMetadata>)
    ensures
        items_view(items@) == bucket_items(games@),
{
    let ghost orig = games@;
    let mut rest = games;
    let ghost mut done: int = 0;
    let mut items: Vec<ItemMetadata> = Vec::new();
    while rest.len() > 0
        invariant
            0 <= done <= orig.len(),
            done + rest@.len() == orig.len(),
            rest@ == orig.skip(done),
            items_view(items@) == bucket_items(orig.take(done)),
        decreases rest@.len(),
    {
        let ghost i = done;
        let game = rest.remove(0);
        proof {
            assert(game == orig[i]);
            assert(rest@ =~= orig.skip(i + 1));
            assert(orig.take(i + 1).drop_last() =~= orig.take(i));
            assert(orig.take(i + 1).last() == orig[i]);
        }
        match game_item(game) {
            Option::Some(item) => {
                items.push(item);
                proof {
                    assert(items_view(items@) =~= bucket_items(orig.take(i)).push(item@));
                    assert(bucket_items(orig.take(i + 1)) =~= bucket_items(orig.take(i)).push(
                        item@,
                    ));
                }
            },
            Option::None => {
                proof {
                    assert(bucket_items(orig.take(i + 1)) =~= bucket_items(orig.take(i)));
                }
            },
        }
        proof {
            done = done + 1;
        }
    }
    proof {
        assert(orig.take(orig.len() as int) =~= orig);
    }
    items
}

impl Schedule {
    /// Compacts the schedule document into the relevant item metadata,
    /// one list per date bucket, filtering out the games that have no
    /// editorial content.
    pub fn into_item_metadata_data(self) -> (r: Vec<Vec<ItemMetadata>>)
        ensures
            r@.len() == self.dates@.len(),
            forall|i: int|
                0 <= i < r@.len() ==> items_view((#[trigger] r@[i])@) == bucket_items(
                    self.dates@[i].games@,
                ),
    {
        let ghost orig = self.dates@;
        let mut rest = self.dates;
        let mut out: Vec<Vec<ItemMetadata>> = Vec::new();
        while rest.len() > 0
            invariant
                out@.len() + rest@.len() == orig.len(),
                rest@ == orig.skip(out@.len() as int),
                forall|i: int|
                    0 <= i < out@.len() ==> items_view((#[trigger] out@[i])@) == bucket_items(
                        orig[i].games@,
                    ),
            decreases rest@.len(),
        {
            let ghost i = out@.len() as int;
            let bucket = rest.remove(0);
            proof {
                assert(bucket == orig[i]);
                assert(rest@ =~= orig.skip(i + 1));
            }
            let items = extract_bucket(bucket.games);
            out.push(items);
        }
        out
    }
}

/// The error reported when the schedule document has no date bucket.
pub open spec fn missing_metadata_msg() -> Seq<char> {
    "missing metadata"@
}

/// The items of a run for a schedule document: the extraction of the first
/// date bucket. A document without a date bucket is a fatal extraction
/// failure, reported as `Err`; this is the only input rejected.
pub fn extract_run_items(schedule: Schedule) -> (r: Result<Vec<ItemMetadata>, String>)
    ensures
        r is Ok <==> schedule.dates@.len() > 0,
        r is Err ==> r->Err_0@ == missing_metadata_msg(),
        r is Ok ==> items_view(r->Ok_0@) == bucket_items(schedule.dates@[0].games@),
{
    if schedule.dates.len() == 0 {
        Result::Err(String::from_str("missing metadata"))
    } else {
        let mut buckets = schedule.into_item_metadata_data();
        let first = buckets.remove(0);
        Result::Ok(first)
    }
}

} // verus!
