//! A row of the grid: a title and, once its images are known, one cell per
//! image.

use vstd::prelude::*;
use crate::context::{token, EventCtx, LifeCycleCtx, LifeCycleCtxView, Requests, Work, WorkView};
use crate::event::{Event, LifeCycle, PromiseToken, Slot};
use crate::json::{at, child, text, text_of, Json, LoadError};
use crate::thumbnail::{Thumbnail, ThumbnailView};

verus! {

/// A record that describes one row of the catalog.
#[derive(Clone, Debug, PartialEq, Eq)]
pub struct ContentSetMetadata {
    pub title: String,
    pub ref_id: String,
}

/// The mathematical value of a [`ContentSetMetadata`].
pub struct MetadataView {
    pub title: Seq<char>,
    pub ref_id: Seq<char>,
}

impl View for ContentSetMetadata {
    type V = MetadataView;

    open spec fn view(&self) -> MetadataView {
        MetadataView { title: self.title@, ref_id: self.ref_id@ }
    }
}

/// One row of the grid.
#[derive(Clone, Debug, PartialEq, Eq)]
pub struct ContentSet {
    pub row: usize,
    pub data: ContentSetMetadata,
    /// The fetch of this row's images.
    pub children_promise: Slot,
    /// The cells of the row, or `None` while a loading indicator stands in
    /// for them.
    pub children: Option<Vec<Thumbnail>>,
}

/// The mathematical value of a [`ContentSet`].
pub struct ContentSetView {
    pub row: nat,
    pub data: MetadataView,
    pub slot: Slot,
    pub children: Option<Seq<ThumbnailView>>,
}

/// What comes before the reference of a row in the address of its images.
pub const CONTENT_SET_URL_PREFIX: &'static str =
    "https://cd-static.bamgrid.com/dp-117731241344/sets/";

/// What comes after the reference of a row in the address of its images.
pub const CONTENT_SET_URL_SUFFIX: &'static str = ".json";

/// The address of the images of the row with the reference `ref_id`.
pub open spec fn content_set_url(ref_id: Seq<char>) -> Seq<char> {
    CONTENT_SET_URL_PREFIX@ + ref_id + CONTENT_SET_URL_SUFFIX@
}

/// Builds the address of the images of the row with the reference `ref_id`.
pub fn make_content_set_url(ref_id: &str) -> (url: String)
    ensures
        url@ == content_set_url(ref_id@),
{
    let mut url = String::from_str(CONTENT_SET_URL_PREFIX);
    url.append(ref_id);
    url.append(CONTENT_SET_URL_SUFFIX);
    url
}

/// The text of each string in `strings`, in order.
pub open spec fn string_views(strings: Seq<String>) -> Seq<Seq<char>> {
    Seq::new(strings.len(), |i: int| strings[i]@)
}

/// The items of the row document `json`: the list under
/// `data.CuratedSet.items`, and no items where there is no such list.
pub open spec fn items_of(json: Json) -> Seq<Json> {
    match at(at(at(Some(json), "data"@), "CuratedSet"@), "items"@) {
        Some(Json::Array(items)) => items@,
        _ => Seq::empty(),
    }
}

/// The image source that `item` suggests: the address under
/// `program.default.url` of the first tile under `image.tile`, or none where
/// there is no tile or the first one has no such address. An item whose
/// `image.tile` is not an object is an error.
pub open spec fn tile_url(item: Json) -> Result<Option<Seq<char>>, LoadError> {
    match at(at(Some(item), "image"@), "tile"@) {
        Some(Json::Object(tiles)) => Ok(
            if tiles@.len() == 0 {
                None
            } else {
                text_of(at(at(at(Some(tiles@[0].value), "program"@), "default"@), "url"@))
            },
        ),
        _ => Err(LoadError::TileNotAnObject),
    }
}

/// The image sources of the first `n` items, in order; an item that suggests
/// none is left out, and the first erroneous item makes the whole an error.
pub open spec fn tile_urls(items: Seq<Json>, n: int) -> Result<Seq<Seq<char>>, LoadError>
    decreases n,
{
    if n <= 0 {
        Ok(Seq::empty())
    } else {
        match tile_urls(items, n - 1) {
            Ok(urls) => match tile_url(items[n - 1]) {
                Ok(Some(url)) => Ok(urls.push(url)),
                Ok(None) => Ok(urls),
                Err(error) => Err(error),
            },
            Err(error) => Err(error),
        }
    }
}

/// The image sources that the row document `json` holds.
pub open spec fn content_set_images(json: Json) -> Result<Seq<Seq<char>>, LoadError> {
    tile_urls(items_of(json), items_of(json).len() as int)
}

/// Reads the image sources out of the row document `json`.
///
/// The items are the list under `data.CuratedSet.items`; a document without
/// that list has no items. Each item gives the address of its first tile, in
/// order; an item without tiles, or whose first tile has no address, is
/// passed over. An item whose `image.tile` is not an object makes the
/// document unreadable.
pub fn load_content_set(json: &Json) -> (images: Result<Vec<String>, LoadError>)
    ensures
        match images {
            Ok(found) => content_set_images(*json) == Ok::<Seq<Seq<char>>, LoadError>(
                string_views(found@),
            ),
            Err(error) => content_set_images(*json) == Err::<Seq<Seq<char>>, LoadError>(error),
        },
{
    let mut images: Vec<String> = Vec::new();
    let items = match child(child(json.get("data"), "CuratedSet"), "items") {
        Some(value) => match value.as_array() {
            Some(items) => items,
            None => {
                assert(string_views(images@) =~= Seq::empty());
                return Ok(images);
            },
        },
        None => {
            assert(string_views(images@) =~= Seq::empty());
            return Ok(images);
        },
    };
    assert(string_views(images@) =~= Seq::empty());
    let mut i: usize = 0;
    while i < items.len()
        invariant
            i <= items.len(),
            items_of(*json) == items@,
            tile_urls(items@, i as int) == Ok::<Seq<Seq<char>>, LoadError>(string_views(images@)),
        decreases items.len() - i,
    {
        let tiles = match child(items[i].get("image"), "tile") {
            Some(value) => match value.as_object() {
                Some(tiles) => tiles,
                None => {
                    proof {
                        assert(tile_urls(items@, i + 1) is Err);
                        lemma_tile_error_stays(items@, i + 1, items@.len() as int);
                    }
                    return Err(LoadError::TileNotAnObject);
                },
            },
            None => {
                proof {
                    assert(tile_urls(items@, i + 1) is Err);
                    lemma_tile_error_stays(items@, i + 1, items@.len() as int);
                }
                return Err(LoadError::TileNotAnObject);
            },
        };
        if tiles.len() > 0 {
            let url = text(child(child(tiles[0].value.get("program"), "default"), "url"));
            let ghost before = images@;
            match url {
                Some(url) => {
                    images.push(String::from_str(url));
                    assert(string_views(images@) =~= string_views(before).push(url@));
                },
                None => {},
            }
        }
        i += 1;
    }
    Ok(images)
}

/// Once the first `m` items hold an error, so do the first `n`, for every
/// larger `n`, and it is the same error.
pub proof fn lemma_tile_error_stays(items: Seq<Json>, m: int, n: int)
    requires
        m <= n,
        tile_urls(items, m) is Err,
    ensures
        tile_urls(items, n) == tile_urls(items, m),
    decreases n - m,
{
    if m < n {
        lemma_tile_error_stays(items, m, n - 1);
    }
}

/// The values of the cells in `cells`, in order.
pub open spec fn thumbnail_views(cells: Seq<Thumbnail>) -> Seq<ThumbnailView> {
    Seq::new(cells.len(), |j: int| cells[j]@)
}

/// What the first `n` cells of `cells` together ask for in response to `event`.
pub open spec fn cell_requests(cells: Seq<ThumbnailView>, event: Event, n: int) -> Requests {
    Requests {
        anim_frame: exists|j: int| 0 <= j < n && (#[trigger] cells[j]).requests(event).anim_frame,
        layout: exists|j: int| 0 <= j < n && (#[trigger] cells[j]).requests(event).layout,
        pan: exists|j: int| 0 <= j < n && (#[trigger] cells[j]).requests(event).pan,
        skip_children: false,
    }
}

impl ContentSetView {
    /// A row as it is when created: nothing launched, no cells yet.
    pub open spec fn fresh(row: nat, data: MetadataView) -> ContentSetView {
        ContentSetView { row, data, slot: Slot::Idle, children: None }
    }

    /// The image sources that `event` delivers to this row, if it delivers any.
    pub open spec fn delivery(self, event: Event) -> Option<Seq<Seq<char>>> {
        match event {
            Event::PromiseResult(result) => result.images_for(self.slot),
            _ => None,
        }
    }

    /// The row with its cells built from `images`, one per image, in order.
    pub open spec fn resolve(self, images: Seq<Seq<char>>) -> ContentSetView {
        ContentSetView {
            slot: Slot::Resolved,
            children: Some(
                Seq::new(images.len(), |j: int| ThumbnailView::fresh(self.row, j as nat, images[j])),
            ),
            ..self
        }
    }

    /// The row after `event` was handed to each of its cells.
    pub open spec fn forward(self, event: Event) -> ContentSetView {
        ContentSetView {
            children: match self.children {
                Some(cells) => Some(Seq::new(cells.len(), |j: int| cells[j].on_event(event))),
                None => None,
            },
            ..self
        }
    }

    /// The row after `event`.
    pub open spec fn on_event(self, event: Event) -> ContentSetView {
        match self.delivery(event) {
            Some(images) => self.resolve(images),
            None => self.forward(event),
        }
    }

    /// The row launches its fetch on `event`: it joins the tree and has not
    /// launched one before.
    pub open spec fn launches(self, event: LifeCycle) -> bool {
        event == LifeCycle::WidgetAdded && self.slot == Slot::Idle
    }

    /// The work this row hands to the background runner.
    pub open spec fn work(self) -> WorkView {
        WorkView::LoadContentSet(content_set_url(self.data.ref_id))
    }

    /// The row after the notification `event`, where `promise` is the token
    /// that the background runner hands out next.
    pub open spec fn lifecycle(self, event: LifeCycle, promise: PromiseToken) -> ContentSetView {
        if self.launches(event) {
            ContentSetView { slot: Slot::Pending(promise), ..self }
        } else {
            self
        }
    }

    /// The context `ctx` after this row handled the notification `event`.
    pub open spec fn lifecycle_ctx(self, ctx: LifeCycleCtxView, event: LifeCycle) -> LifeCycleCtxView {
        if self.launches(event) {
            ctx.launch(self.work())
        } else {
            ctx
        }
    }

    /// What the row and its cells ask for in response to `event`: to keep the
    /// event from the new cells where it delivers them, and else whatever the
    /// cells ask for.
    pub open spec fn requests(self, event: Event) -> Requests {
        match (self.delivery(event), self.children) {
            (Some(_), _) => Requests::skip(),
            (None, Some(cells)) => cell_requests(cells, event, cells.len() as int),
            (None, None) => Requests::none(),
        }
    }
}

impl View for ContentSet {
    type V = ContentSetView;

    open spec fn view(&self) -> ContentSetView {
        ContentSetView {
            row: self.row as nat,
            data: self.data@,
            slot: self.children_promise,
            children: match self.children {
                Some(cells) => Some(thumbnail_views(cells@)),
                None => None,
            },
        }
    }
}

/// Hands `event` to every cell in `cells`, first to last.
fn forward_to_cells(cells: &mut Vec<Thumbnail>, ctx: &mut EventCtx, event: &Event)
    ensures
        final(cells)@.len() == old(cells)@.len(),
        forall|j: int|
            0 <= j < old(cells)@.len() ==> (#[trigger] final(cells)@[j])@ == old(cells)@[j]@.on_event(
                *event,
            ),
        final(ctx)@ == old(ctx)@.merge(
            cell_requests(thumbnail_views(old(cells)@), *event, old(cells)@.len() as int),
        ),
{
    let ghost before = cells@;
    let ghost views = thumbnail_views(cells@);
    let ghost ctx_before = ctx@;
    let n: usize = cells.len();
    let mut j: usize = 0;
    while j < n
        invariant
            j <= n,
            n == before.len(),
            cells@.len() == n,
            views == thumbnail_views(before),
            forall|k: int| 0 <= k < j ==> (#[trigger] cells@[k])@ == before[k]@.on_event(*event),
            forall|k: int| j <= k < n ==> cells@[k] == before[k],
            ctx@ == ctx_before.merge(cell_requests(views, *event, j as int)),
        decreases n - j,
    {
        cells[j].on_event(ctx, event);
        assert(views[j as int] == before[j as int]@);
        j += 1;
    }
}

impl ContentSet {
    /// A row with the number `row` for the record `data`; it shows a loading
    /// indicator in place of its cells.
    pub fn new(row: usize, data: ContentSetMetadata) -> (content_set: ContentSet)
        ensures
            content_set@ == ContentSetView::fresh(row as nat, data@),
    {
        ContentSet { row, data, children_promise: Slot::Idle, children: None }
    }

    /// Handles one event.
    ///
    /// The result of this row's own fetch replaces the loading indicator by one
    /// cell per image, numbered from zero in the order of the list; the event
    /// is then kept from the new cells. Every other event is handed to each
    /// cell in turn.
    pub fn on_event(&mut self, ctx: &mut EventCtx, event: &Event)
        ensures
            final(self)@ == old(self)@.on_event(*event),
            final(ctx)@ == old(ctx)@.merge(old(self)@.requests(*event)),
    {
        match event {
            Event::PromiseResult(result) => {
                if let Some(images) = result.try_get_content_set(self.children_promise) {
                    let mut cells: Vec<Thumbnail> = Vec::new();
                    let mut column: usize = 0;
                    while column < images.len()
                        invariant
                            column <= images.len(),
                            cells@.len() == column,
                            forall|j: int|
                                0 <= j < column ==> (#[trigger] cells@[j])@ == ThumbnailView::fresh(
                                    self.row as nat,
                                    j as nat,
                                    images@[j]@,
                                ),
                        decreases images.len() - column,
                    {
                        cells.push(Thumbnail::new(self.row, column, images[column].clone()));
                        column += 1;
                    }
                    self.children_promise = Slot::Resolved;
                    self.children = Some(cells);
                    ctx.skip_child();
                    proof {
                        let got = old(self)@.delivery(*event).unwrap();
                        assert(self@.children.unwrap() =~= old(self)@.resolve(got).children.unwrap());
                    }
                    return ;
                }
            },
            _ => {},
        }
        match &mut self.children {
            Some(cells) => {
                forward_to_cells(cells, ctx, event);
            },
            None => {},
        }
        proof {
            if self@.children is Some {
                assert(self@.children.unwrap() =~= old(self)@.forward(*event).children.unwrap());
            }
        }
    }

    /// Handles one lifecycle notification.
    ///
    /// When the row joins the tree and has launched no fetch yet, it launches
    /// the fetch of its images and keeps the token. Nothing else changes.
    pub fn lifecycle(&mut self, ctx: &mut LifeCycleCtx, event: &LifeCycle)
        requires
            old(self)@.launches(*event) ==> old(ctx)@.tokens_left() > 0,
        ensures
            final(self)@ == old(self)@.lifecycle(*event, token(old(ctx)@.next_token)),
            final(ctx)@ == old(self)@.lifecycle_ctx(old(ctx)@, *event),
    {
        match event {
            LifeCycle::WidgetAdded => {
                match self.children_promise {
                    Slot::Idle => {
                        let url = make_content_set_url(self.data.ref_id.as_str());
                        let promise = ctx.compute_in_background(Work::LoadContentSet(url));
                        self.children_promise = Slot::Pending(promise);
                    },
                    _ => {},
                }
            },
            _ => {},
        }
    }
}

} // verus!
