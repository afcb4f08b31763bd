//! What a handler asks of its host during one pass.

use vstd::prelude::*;
use crate::event::{Command, PromiseToken};

verus! {

/// The requests that handlers made during one event pass.
#[derive(Debug, PartialEq, Eq)]
pub struct EventCtx {
    /// Some node wants another animation frame.
    pub anim_frame_requested: bool,
    /// Some node wants its geometry laid out again.
    pub layout_requested: bool,
    /// A node that became selected wants to be scrolled into view.
    pub pan_requested: bool,
    /// The root wants the input focus.
    pub focus_requested: bool,
    /// Some node replaced its subtree and kept the event from it.
    pub children_skipped: bool,
    /// The commands submitted, oldest first.
    pub commands: Vec<Command>,
}

/// The mathematical value of an [`EventCtx`].
pub struct EventCtxView {
    pub anim_frame_requested: bool,
    pub layout_requested: bool,
    pub pan_requested: bool,
    pub focus_requested: bool,
    pub children_skipped: bool,
    pub commands: Seq<Command>,
}

/// What a part of the tree asks for in response to one event.
pub struct Requests {
    pub anim_frame: bool,
    pub layout: bool,
    pub pan: bool,
    pub skip_children: bool,
}

impl Requests {
    /// No request at all.
    pub open spec fn none() -> Requests {
        Requests { anim_frame: false, layout: false, pan: false, skip_children: false }
    }

    /// The one request to keep the event from a subtree.
    pub open spec fn skip() -> Requests {
        Requests { anim_frame: false, layout: false, pan: false, skip_children: true }
    }
}

impl EventCtxView {
    /// The context with nothing requested.
    pub open spec fn empty() -> EventCtxView {
        EventCtxView {
            anim_frame_requested: false,
            layout_requested: false,
            pan_requested: false,
            focus_requested: false,
            children_skipped: false,
            commands: Seq::empty(),
        }
    }

    /// This context with the requests `r` added.
    pub open spec fn merge(self, r: Requests) -> EventCtxView {
        EventCtxView {
            anim_frame_requested: self.anim_frame_requested || r.anim_frame,
            layout_requested: self.layout_requested || r.layout,
            pan_requested: self.pan_requested || r.pan,
            children_skipped: self.children_skipped || r.skip_children,
            ..self
        }
    }
}

impl View for EventCtx {
    type V = EventCtxView;

    open spec fn view(&self) -> EventCtxView {
        EventCtxView {
            anim_frame_requested: self.anim_frame_requested,
            layout_requested: self.layout_requested,
            pan_requested: self.pan_requested,
            focus_requested: self.focus_requested,
            children_skipped: self.children_skipped,
            commands: self.commands@,
        }
    }
}

impl EventCtx {
    /// A context with nothing requested.
    pub fn new() -> (ctx: EventCtx)
        ensures
            ctx@ == EventCtxView::empty(),
    {
        EventCtx {
            anim_frame_requested: false,
            layout_requested: false,
            pan_requested: false,
            focus_requested: false,
            children_skipped: false,
            commands: Vec::new(),
        }
    }

    /// Asks for another animation frame.
    pub fn request_anim_frame(&mut self)
        ensures
            final(self)@ == (EventCtxView { anim_frame_requested: true, ..old(self)@ }),
    {
        self.anim_frame_requested = true;
    }

    /// Asks for a new layout pass.
    pub fn request_layout(&mut self)
        ensures
            final(self)@ == (EventCtxView { layout_requested: true, ..old(self)@ }),
    {
        self.layout_requested = true;
    }

    /// Asks that the calling node be scrolled into view.
    pub fn request_pan_to_this(&mut self)
        ensures
            final(self)@ == (EventCtxView { pan_requested: true, ..old(self)@ }),
    {
        self.pan_requested = true;
    }

    /// Asks for the input focus.
    pub fn request_focus(&mut self)
        ensures
            final(self)@ == (EventCtxView { focus_requested: true, ..old(self)@ }),
    {
        self.focus_requested = true;
    }

    /// Tells the host that the calling node kept the event from its subtree.
    pub fn skip_child(&mut self)
        ensures
            final(self)@ == (EventCtxView { children_skipped: true, ..old(self)@ }),
    {
        self.children_skipped = true;
    }

    /// Queues `command` for a later pass.
    pub fn submit_command(&mut self, command: Command)
        ensures
            final(self)@ == (EventCtxView {
                commands: old(self)@.commands.push(command),
                ..old(self)@
            }),
    {
        self.commands.push(command);
    }
}


/// A unit of work for the background runner.
#[derive(Clone, Debug, PartialEq, Eq)]
pub enum Work {
    /// Fetch the rows of the catalog from this address.
    LoadCollection(String),
    /// Fetch the image sources of one row from this address.
    LoadContentSet(String),
}

/// The mathematical value of a [`Work`].
pub enum WorkView {
    LoadCollection(Seq<char>),
    LoadContentSet(Seq<char>),
}

impl View for Work {
    type V = WorkView;

    open spec fn view(&self) -> WorkView {
        match *self {
            Work::LoadCollection(url) => WorkView::LoadCollection(url@),
            Work::LoadContentSet(url) => WorkView::LoadContentSet(url@),
        }
    }
}

/// A background computation that a node launched, with the token that its
/// result will carry.
#[derive(Clone, Debug, PartialEq, Eq)]
pub struct BackgroundTask {
    pub token: PromiseToken,
    pub work: Work,
}

/// The mathematical value of a [`BackgroundTask`].
pub struct TaskView {
    pub token: PromiseToken,
    pub work: WorkView,
}

impl View for BackgroundTask {
    type V = TaskView;

    open spec fn view(&self) -> TaskView {
        TaskView { token: self.token, work: self.work@ }
    }
}

/// The values of the tasks in `tasks`, in order.
pub open spec fn task_views(tasks: Seq<BackgroundTask>) -> Seq<TaskView> {
    Seq::new(tasks.len(), |i: int| tasks[i]@)
}

/// The token with the number `id`.
pub open spec fn token(id: int) -> PromiseToken {
    PromiseToken { id: id as u64 }
}

/// The requests that handlers made during one lifecycle pass, and the source
/// of fresh tokens.
#[derive(Debug, PartialEq, Eq)]
pub struct LifeCycleCtx {
    /// The number of the next token to hand out.
    pub next_token: u64,
    /// The computations launched, oldest first.
    pub launched: Vec<BackgroundTask>,
    /// The root registered for the input focus.
    pub focus_registered: bool,
    /// The commands submitted, oldest first.
    pub commands: Vec<Command>,
}

/// The mathematical value of a [`LifeCycleCtx`].
pub struct LifeCycleCtxView {
    pub next_token: int,
    pub launched: Seq<TaskView>,
    pub focus_registered: bool,
    pub commands: Seq<Command>,
}

impl LifeCycleCtxView {
    /// The context of a pass that starts with the token number `next_token`
    /// and in which nothing was requested yet.
    pub open spec fn starting_at(next_token: int) -> LifeCycleCtxView {
        LifeCycleCtxView {
            next_token,
            launched: Seq::empty(),
            focus_registered: false,
            commands: Seq::empty(),
        }
    }

    /// How many tokens can still be handed out.
    pub open spec fn tokens_left(self) -> int {
        u64::MAX - self.next_token
    }

    /// This context after `work` was launched under the next token.
    pub open spec fn launch(self, work: WorkView) -> LifeCycleCtxView {
        LifeCycleCtxView {
            next_token: self.next_token + 1,
            launched: self.launched.push(TaskView { token: token(self.next_token), work }),
            ..self
        }
    }
}

impl View for LifeCycleCtx {
    type V = LifeCycleCtxView;

    open spec fn view(&self) -> LifeCycleCtxView {
        LifeCycleCtxView {
            next_token: self.next_token as int,
            launched: task_views(self.launched@),
            focus_registered: self.focus_registered,
            commands: self.commands@,
        }
    }
}

impl LifeCycleCtx {
    /// A context for a pass in which tokens are numbered from `next_token`.
    pub fn new(next_token: u64) -> (ctx: LifeCycleCtx)
        ensures
            ctx@ == LifeCycleCtxView::starting_at(next_token as int),
    {
        let ctx = LifeCycleCtx {
            next_token,
            launched: Vec::new(),
            focus_registered: false,
            commands: Vec::new(),
        };
        assert(ctx@.launched =~= Seq::empty());
        ctx
    }

    /// Registers the calling node as a candidate for the input focus.
    pub fn register_for_focus(&mut self)
        ensures
            final(self)@ == (LifeCycleCtxView { focus_registered: true, ..old(self)@ }),
    {
        self.focus_registered = true;
    }

    /// Queues `command` for a later pass.
    pub fn submit_command(&mut self, command: Command)
        ensures
            final(self)@ == (LifeCycleCtxView {
                commands: old(self)@.commands.push(command),
                ..old(self)@
            }),
    {
        self.commands.push(command);
    }

    /// Launches `work` and returns the token that its result will carry: the
    /// next unused one.
    pub fn compute_in_background(&mut self, work: Work) -> (promise: PromiseToken)
        requires
            old(self)@.tokens_left() > 0,
        ensures
            promise == token(old(self)@.next_token),
            final(self)@ == old(self)@.launch(work@),
    {
        let promise = PromiseToken { id: self.next_token };
        self.launched.push(BackgroundTask { token: promise, work });
        self.next_token += 1;
        assert(self@.launched =~= old(self)@.launch(work@).launched);
        promise
    }
}

} // verus!
