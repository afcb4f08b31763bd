//! The root of the tree: it owns the rows and the coordinate of the selected
//! cell.

use vstd::prelude::*;
use crate::content_set::{ContentSet, ContentSetMetadata, ContentSetView, MetadataView};
use crate::context::{
    token, EventCtx, EventCtxView, LifeCycleCtx, LifeCycleCtxView, Requests, TaskView, Work,
    WorkView,
};
use crate::event::{Command, Event, Key, LifeCycle, Slot};
use crate::json::{at, child, text, text_of, Json, LoadError};

verus! {

/// The address of the rows of the catalog.
pub const COLLECTION_URL: &'static str = "https://cd-static.bamgrid.com/dp-117731241344/home.json";

/// The root of the tree.
#[derive(Debug, PartialEq, Eq)]
pub struct RootWidget {
    /// The fetch of the rows.
    pub children_promise: Slot,
    /// The rows, or `None` while a loading indicator stands in for them.
    pub children: Option<Vec<ContentSet>>,
    /// The coordinate `(row, column)` of the selected cell.
    pub selected_item: (usize, usize),
}

/// The mathematical value of a [`RootWidget`].
pub struct RootView {
    pub slot: Slot,
    pub children: Option<Seq<ContentSetView>>,
    pub selected_item: (usize, usize),
}

/// The values of the rows in `rows`, in order.
pub open spec fn content_set_views(rows: Seq<ContentSet>) -> Seq<ContentSetView> {
    Seq::new(rows.len(), |i: int| rows[i]@)
}

/// One step up along an axis; it stays at the largest coordinate.
pub open spec fn step_up(x: usize) -> usize {
    if x < usize::MAX {
        (x + 1) as usize
    } else {
        x
    }
}

/// One step down along an axis; it stays at zero.
pub open spec fn step_down(x: usize) -> usize {
    if x > 0 {
        (x - 1) as usize
    } else {
        x
    }
}

/// The coordinate reached from `at` by the key `key`: an arrow key moves one
/// step along one axis, any other key moves nothing.
pub open spec fn navigate(at: (usize, usize), key: Key) -> (usize, usize) {
    match key {
        Key::ArrowDown => (step_up(at.0), at.1),
        Key::ArrowUp => (step_down(at.0), at.1),
        Key::ArrowRight => (at.0, step_up(at.1)),
        Key::ArrowLeft => (at.0, step_down(at.1)),
        Key::Other => at,
    }
}

/// What the first `n` rows of `rows` together ask for in response to `event`.
pub open spec fn row_requests(rows: Seq<ContentSetView>, event: Event, n: int) -> Requests {
    Requests {
        anim_frame: exists|i: int| 0 <= i < n && (#[trigger] rows[i]).requests(event).anim_frame,
        layout: exists|i: int| 0 <= i < n && (#[trigger] rows[i]).requests(event).layout,
        pan: exists|i: int| 0 <= i < n && (#[trigger] rows[i]).requests(event).pan,
        skip_children: exists|i: int|
            0 <= i < n && (#[trigger] rows[i]).requests(event).skip_children,
    }
}

/// How many of the first `n` rows of `rows` launch their fetch on `event`.
pub open spec fn launches_before(rows: Seq<ContentSetView>, event: LifeCycle, n: int) -> int
    decreases n,
{
    if n <= 0 {
        0
    } else {
        launches_before(rows, event, n - 1) + if rows[n - 1].launches(event) {
            1int
        } else {
            0int
        }
    }
}

/// The tasks that the first `n` rows of `rows` launch on `event`, in row
/// order, where tokens are numbered from `first`.
pub open spec fn row_tasks(rows: Seq<ContentSetView>, event: LifeCycle, first: int, n: int) -> Seq<
    TaskView,
>
    decreases n,
{
    if n <= 0 {
        Seq::empty()
    } else {
        let before = row_tasks(rows, event, first, n - 1);
        if rows[n - 1].launches(event) {
            before.push(
                TaskView {
                    token: token(first + launches_before(rows, event, n - 1)),
                    work: rows[n - 1].work(),
                },
            )
        } else {
            before
        }
    }
}

impl RootView {
    /// The root as it is when created: nothing launched, no rows yet, the
    /// selection at the origin.
    pub open spec fn fresh() -> RootView {
        RootView { slot: Slot::Idle, children: None, selected_item: (0, 0) }
    }

    /// The row records that `event` delivers to the root, if it delivers any.
    pub open spec fn delivery(self, event: Event) -> Option<Seq<MetadataView>> {
        match event {
            Event::PromiseResult(result) => result.rows_for(self.slot),
            _ => None,
        }
    }

    /// The root with its rows built from `records`, one per record, in order.
    pub open spec fn resolve(self, records: Seq<MetadataView>) -> RootView {
        RootView {
            slot: Slot::Resolved,
            children: Some(
                Seq::new(records.len(), |i: int| ContentSetView::fresh(i as nat, records[i])),
            ),
            ..self
        }
    }

    /// The root after it handled `event` itself, before it hands it on.
    pub open spec fn own_step(self, event: Event) -> RootView {
        match event {
            Event::KeyDown(key) => RootView {
                selected_item: navigate(self.selected_item, key),
                ..self
            },
            _ => self,
        }
    }

    /// The root after `event` was handed to each of its rows.
    pub open spec fn forward(self, event: Event) -> RootView {
        RootView {
            children: match self.children {
                Some(rows) => Some(Seq::new(rows.len(), |i: int| rows[i].on_event(event))),
                None => None,
            },
            ..self
        }
    }

    /// The root after `event`.
    pub open spec fn on_event(self, event: Event) -> RootView {
        match self.delivery(event) {
            Some(records) => self.resolve(records),
            None => self.own_step(event).forward(event),
        }
    }

    /// The context `ctx` after the root handled `event` itself.
    pub open spec fn own_ctx(self, ctx: EventCtxView, event: Event) -> EventCtxView {
        match event {
            Event::KeyDown(key) => {
                let at = navigate(self.selected_item, key);
                EventCtxView {
                    commands: ctx.commands.push(Command::ChangeSelectedItem(at.0, at.1)),
                    ..ctx
                }
            },
            Event::Command(Command::RequestFocus) => EventCtxView { focus_requested: true, ..ctx },
            _ => ctx,
        }
    }

    /// What the rows ask for when `event` is handed to them.
    pub open spec fn requests(self, event: Event) -> Requests {
        match self.children {
            Some(rows) => row_requests(rows, event, rows.len() as int),
            None => Requests::none(),
        }
    }

    /// The context `ctx` after the whole tree handled `event`.
    pub open spec fn ctx_after(self, ctx: EventCtxView, event: Event) -> EventCtxView {
        match self.delivery(event) {
            Some(_) => ctx.merge(Requests::skip()),
            None => self.own_ctx(ctx, event).merge(self.requests(event)),
        }
    }

    /// The root launches its fetch on `event`: it joins the tree and has not
    /// launched one before.
    pub open spec fn launches(self, event: LifeCycle) -> bool {
        event == LifeCycle::WidgetAdded && self.slot == Slot::Idle
    }

    /// The work the root hands to the background runner.
    pub open spec fn work() -> WorkView {
        WorkView::LoadCollection(COLLECTION_URL@)
    }

    /// How many fetches the tree launches on `event`.
    pub open spec fn launch_count(self, event: LifeCycle) -> int {
        (if self.launches(event) {
            1int
        } else {
            0int
        }) + match self.children {
            Some(rows) => launches_before(rows, event, rows.len() as int),
            None => 0,
        }
    }

    /// The tree after the notification `event`, where tokens are numbered
    /// from `first`: the root comes first, then the rows in order.
    pub open spec fn lifecycle(self, event: LifeCycle, first: int) -> RootView {
        let base = if self.launches(event) {
            first + 1
        } else {
            first
        };
        RootView {
            slot: if self.launches(event) {
                Slot::Pending(token(first))
            } else {
                self.slot
            },
            children: match self.children {
                Some(rows) => Some(
                    Seq::new(
                        rows.len(),
                        |i: int| rows[i].lifecycle(event, token(base + launches_before(rows, event, i))),
                    ),
                ),
                None => None,
            },
            ..self
        }
    }

    /// The context `ctx` after the root handled the notification `event`
    /// itself.
    pub open spec fn own_lifecycle_ctx(self, ctx: LifeCycleCtxView, event: LifeCycle) -> LifeCycleCtxView {
        match event {
            LifeCycle::BuildFocusChain => LifeCycleCtxView {
                focus_registered: true,
                commands: ctx.commands.push(Command::RequestFocus),
                ..ctx
            },
            LifeCycle::WidgetAdded => if self.slot == Slot::Idle {
                ctx.launch(Self::work())
            } else {
                ctx
            },
            LifeCycle::Other => ctx,
        }
    }

    /// The context `ctx` after the whole tree handled the notification
    /// `event`.
    pub open spec fn lifecycle_ctx(self, ctx: LifeCycleCtxView, event: LifeCycle) -> LifeCycleCtxView {
        let own = self.own_lifecycle_ctx(ctx, event);
        match self.children {
            Some(rows) => LifeCycleCtxView {
                next_token: own.next_token + launches_before(rows, event, rows.len() as int),
                launched: own.launched + row_tasks(
                    rows,
                    event,
                    own.next_token,
                    rows.len() as int,
                ),
                ..own
            },
            None => own,
        }
    }
}

impl View for RootWidget {
    type V = RootView;

    open spec fn view(&self) -> RootView {
        RootView {
            slot: self.children_promise,
            children: match self.children {
                Some(rows) => Some(content_set_views(rows@)),
                None => None,
            },
            selected_item: self.selected_item,
        }
    }
}

/// The values of the records in `records`, in order.
pub open spec fn metadata_views(records: Seq<ContentSetMetadata>) -> Seq<MetadataView> {
    Seq::new(records.len(), |i: int| records[i]@)
}

/// The containers of the catalog document `json`, where it holds a list of
/// them under `data.StandardCollection.containers`.
pub open spec fn containers_of(json: Json) -> Option<Seq<Json>> {
    match at(at(at(Some(json), "data"@), "StandardCollection"@), "containers"@) {
        Some(Json::Array(containers)) => Some(containers@),
        _ => None,
    }
}

/// The row record that `container` describes: its title under
/// `set.text.title.full.set.default.content` and its reference under
/// `set.refId`, where both are strings.
pub open spec fn record_of(container: Json) -> Option<MetadataView> {
    let set = at(Some(container), "set"@);
    let title = text_of(
        at(at(at(at(at(at(set, "text"@), "title"@), "full"@), "set"@), "default"@), "content"@),
    );
    let ref_id = text_of(at(set, "refId"@));
    match (title, ref_id) {
        (Some(title), Some(ref_id)) => Some(MetadataView { title, ref_id }),
        _ => None,
    }
}

/// The row records of the first `n` containers, in order; a container that
/// describes no record is left out.
pub open spec fn records_of(containers: Seq<Json>, n: int) -> Seq<MetadataView>
    decreases n,
{
    if n <= 0 {
        Seq::empty()
    } else {
        match record_of(containers[n - 1]) {
            Some(record) => records_of(containers, n - 1).push(record),
            None => records_of(containers, n - 1),
        }
    }
}

/// The row records that the catalog document `json` holds.
pub open spec fn collection_records(json: Json) -> Result<Seq<MetadataView>, LoadError> {
    match containers_of(json) {
        Some(containers) => Ok(records_of(containers, containers.len() as int)),
        None => Err(LoadError::NoContainers),
    }
}

/// Reads the row records out of the catalog document `json`.
///
/// The document must hold a list under `data.StandardCollection.containers`.
/// Each container of the list gives one record, in order; a container
/// without a title or without a reference is passed over.
pub fn load_collection(json: &Json) -> (records: Result<Vec<ContentSetMetadata>, LoadError>)
    ensures
        match records {
            Ok(found) => collection_records(*json) == Ok::<Seq<MetadataView>, LoadError>(
                metadata_views(found@),
            ),
            Err(error) => collection_records(*json) == Err::<Seq<MetadataView>, LoadError>(error),
        },
{
    let containers = match child(child(json.get("data"), "StandardCollection"), "containers") {
        Some(value) => match value.as_array() {
            Some(containers) => containers,
            None => {
                return Err(LoadError::NoContainers);
            },
        },
        None => {
            return Err(LoadError::NoContainers);
        },
    };
    let mut records: Vec<ContentSetMetadata> = Vec::new();
    let mut i: usize = 0;
    while i < containers.len()
        invariant
            i <= containers.len(),
            metadata_views(records@) == records_of(containers@, i as int),
        decreases containers.len() - i,
    {
        let set = containers[i].get("set");
        let title = text(
            child(
                child(child(child(child(child(set, "text"), "title"), "full"), "set"), "default"),
                "content",
            ),
        );
        let ref_id = text(child(set, "refId"));
        let ghost before = records@;
        match (title, ref_id) {
            (Some(title), Some(ref_id)) => {
                records.push(
                    ContentSetMetadata {
                        title: String::from_str(title),
                        ref_id: String::from_str(ref_id),
                    },
                );
                assert(metadata_views(records@) =~= metadata_views(before).push(
                    MetadataView { title: title@, ref_id: ref_id@ },
                ));
            },
            _ => {},
        }
        i += 1;
    }
    Ok(records)
}

/// A copy of `record`.
fn copy_of(record: &ContentSetMetadata) -> (copy: ContentSetMetadata)
    ensures
        copy@ == record@,
{
    ContentSetMetadata { title: record.title.clone(), ref_id: record.ref_id.clone() }
}

/// Hands `event` to every row in `rows`, first to last.
fn forward_to_rows(rows: &mut Vec<ContentSet>, ctx: &mut EventCtx, event: &Event)
    ensures
        final(rows)@.len() == old(rows)@.len(),
        forall|i: int|
            0 <= i < old(rows)@.len() ==> (#[trigger] final(rows)@[i])@ == old(rows)@[i]@.on_event(
                *event,
            ),
        final(ctx)@ == old(ctx)@.merge(
            row_requests(content_set_views(old(rows)@), *event, old(rows)@.len() as int),
        ),
{
    let ghost before = rows@;
    let ghost views = content_set_views(rows@);
    let ghost ctx_before = ctx@;
    let n: usize = rows.len();
    let mut i: usize = 0;
    while i < n
        invariant
            i <= n,
            n == before.len(),
            rows@.len() == n,
            views == content_set_views(before),
            forall|k: int| 0 <= k < i ==> (#[trigger] rows@[k])@ == before[k]@.on_event(*event),
            forall|k: int| i <= k < n ==> rows@[k] == before[k],
            ctx@ == ctx_before.merge(row_requests(views, *event, i as int)),
        decreases n - i,
    {
        rows[i].on_event(ctx, event);
        assert(views[i as int] == before[i as int]@);
        i += 1;
    }
}

/// Hands the notification `event` to every row in `rows`, first to last.
fn notify_rows(rows: &mut Vec<ContentSet>, ctx: &mut LifeCycleCtx, event: &LifeCycle)
    requires
        launches_before(content_set_views(old(rows)@), *event, old(rows)@.len() as int) <= old(
            ctx,
        )@.tokens_left(),
    ensures
        final(rows)@.len() == old(rows)@.len(),
        forall|i: int|
            0 <= i < old(rows)@.len() ==> (#[trigger] final(rows)@[i])@ == old(rows)@[i]@.lifecycle(
                *event,
                token(
                    old(ctx)@.next_token + launches_before(content_set_views(old(rows)@), *event, i),
                ),
            ),
        final(ctx)@ == (LifeCycleCtxView {
            next_token: old(ctx)@.next_token + launches_before(
                content_set_views(old(rows)@),
                *event,
                old(rows)@.len() as int,
            ),
            launched: old(ctx)@.launched + row_tasks(
                content_set_views(old(rows)@),
                *event,
                old(ctx)@.next_token,
                old(rows)@.len() as int,
            ),
            ..old(ctx)@
        }),
{
    let ghost before = rows@;
    let ghost views = content_set_views(rows@);
    let ghost ctx_before = ctx@;
    let n: usize = rows.len();
    let mut i: usize = 0;
    while i < n
        invariant
            i <= n,
            n == before.len(),
            rows@.len() == n,
            views == content_set_views(before),
            launches_before(views, *event, n as int) <= ctx_before.tokens_left(),
            forall|k: int|
                0 <= k < i ==> (#[trigger] rows@[k])@ == before[k]@.lifecycle(
                    *event,
                    token(ctx_before.next_token + launches_before(views, *event, k)),
                ),
            forall|k: int| i <= k < n ==> rows@[k] == before[k],
            ctx@ == (LifeCycleCtxView {
                next_token: ctx_before.next_token + launches_before(views, *event, i as int),
                launched: ctx_before.launched + row_tasks(
                    views,
                    *event,
                    ctx_before.next_token,
                    i as int,
                ),
                ..ctx_before
            }),
        decreases n - i,
    {
        proof {
            assert(views[i as int] == before[i as int]@);
            lemma_launches_monotone(views, *event, i + 1, n as int);
        }
        rows[i].lifecycle(ctx, event);
        proof {
            assert(ctx@.launched =~= ctx_before.launched + row_tasks(
                views,
                *event,
                ctx_before.next_token,
                i + 1,
            ));
        }
        i += 1;
    }
}

/// The count of launches among the first `n` rows does not shrink as `n`
/// grows, and is never negative.
pub proof fn lemma_launches_monotone(rows: Seq<ContentSetView>, event: LifeCycle, m: int, n: int)
    requires
        m <= n,
    ensures
        0 <= launches_before(rows, event, m) <= launches_before(rows, event, n),
    decreases n - m, n,
{
    if m < n {
        lemma_launches_monotone(rows, event, m, n - 1);
    } else if m > 0 {
        lemma_launches_monotone(rows, event, m - 1, n - 1);
    }
}

impl RootWidget {
    /// A root that shows a loading indicator in place of its rows, with the
    /// selection at the origin.
    pub fn new() -> (root: RootWidget)
        ensures
            root@ == RootView::fresh(),
    {
        RootWidget { children_promise: Slot::Idle, children: None, selected_item: (0, 0) }
    }

    /// Handles one event and hands it on to the rows.
    ///
    /// The result of the root's own fetch replaces the loading indicator by
    /// one row per record, numbered from zero in the order of the list; the
    /// event is then kept from the new rows. A key moves the selection and
    /// submits the command that announces the new coordinate. The command
    /// that asks for the focus makes the root request it. Every event that
    /// does not deliver the rows is handed to each row in turn.
    pub fn on_event(&mut self, ctx: &mut EventCtx, event: &Event)
        ensures
            final(self)@ == old(self)@.on_event(*event),
            final(ctx)@ == old(self)@.ctx_after(old(ctx)@, *event),
    {
        match event {
            Event::PromiseResult(result) => {
                if let Some(records) = result.try_get_collection(self.children_promise) {
                    let mut rows: Vec<ContentSet> = Vec::new();
                    let mut row: usize = 0;
                    while row < records.len()
                        invariant
                            row <= records.len(),
                            rows@.len() == row,
                            forall|i: int|
                                0 <= i < row ==> (#[trigger] rows@[i])@ == ContentSetView::fresh(
                                    i as nat,
                                    records@[i]@,
                                ),
                        decreases records.len() - row,
                    {
                        rows.push(ContentSet::new(row, copy_of(&records[row])));
                        row += 1;
                    }
                    self.children_promise = Slot::Resolved;
                    self.children = Some(rows);
                    ctx.skip_child();
                    proof {
                        let got = old(self)@.delivery(*event).unwrap();
                        assert(self@.children.unwrap() =~= old(self)@.resolve(got).children.unwrap());
                    }
                    return ;
                }
            },
            Event::KeyDown(key) => {
                match key {
                    Key::ArrowDown => {
                        self.selected_item.0 = self.selected_item.0.saturating_add(1);
                    },
                    Key::ArrowLeft => {
                        self.selected_item.1 = self.selected_item.1.saturating_sub(1);
                    },
                    Key::ArrowRight => {
                        self.selected_item.1 = self.selected_item.1.saturating_add(1);
                    },
                    Key::ArrowUp => {
                        self.selected_item.0 = self.selected_item.0.saturating_sub(1);
                    },
                    Key::Other => {},
                }
                ctx.submit_command(
                    Command::ChangeSelectedItem(self.selected_item.0, self.selected_item.1),
                );
            },
            Event::Command(Command::RequestFocus) => {
                ctx.request_focus();
            },
            _ => {},
        }
        match &mut self.children {
            Some(rows) => {
                forward_to_rows(rows, ctx, event);
            },
            None => {},
        }
        proof {
            if self@.children is Some {
                assert(self@.children.unwrap() =~= old(self)@.on_event(*event).children.unwrap());
            }
        }
    }

    /// Handles one lifecycle notification and hands it on to the rows.
    ///
    /// When the focus chain is built, the root registers for the focus and
    /// submits the command by which it will later request it. When the root
    /// joins the tree and has launched no fetch yet, it launches the fetch of
    /// the rows and keeps the token.
    pub fn lifecycle(&mut self, ctx: &mut LifeCycleCtx, event: &LifeCycle)
        requires
            old(self)@.launch_count(*event) <= old(ctx)@.tokens_left(),
        ensures
            final(self)@ == old(self)@.lifecycle(*event, old(ctx)@.next_token),
            final(ctx)@ == old(self)@.lifecycle_ctx(old(ctx)@, *event),
    {
        proof {
            if self@.children is Some {
                let rows = self@.children.unwrap();
                lemma_launches_monotone(rows, *event, 0, rows.len() as int);
            }
        }
        match event {
            LifeCycle::BuildFocusChain => {
                ctx.register_for_focus();
                ctx.submit_command(Command::RequestFocus);
            },
            LifeCycle::WidgetAdded => {
                match self.children_promise {
                    Slot::Idle => {
                        let promise = ctx.compute_in_background(
                            Work::LoadCollection(String::from_str(COLLECTION_URL)),
                        );
                        self.children_promise = Slot::Pending(promise);
                    },
                    _ => {},
                }
            },
            LifeCycle::Other => {},
        }
        match &mut self.children {
            Some(rows) => {
                notify_rows(rows, ctx, event);
            },
            None => {},
        }
        proof {
            if self@.children is Some {
                assert(self@.children.unwrap() =~= old(self)@.lifecycle(
                    *event,
                    old(ctx)@.next_token,
                ).children.unwrap());
            }
        }
    }
}

} // verus!
