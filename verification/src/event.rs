//! The events and lifecycle notifications that travel through the tree.

use vstd::prelude::*;
use crate::content_set::{ContentSetMetadata, MetadataView};

verus! {

/// The keys the screen reacts to. Every other key is `Other`.
#[derive(Clone, Copy, Debug, PartialEq, Eq, Structural)]
pub enum Key {
    ArrowDown,
    ArrowLeft,
    ArrowRight,
    ArrowUp,
    Other,
}

/// A command sent through the event stream.
#[derive(Clone, Copy, Debug, PartialEq, Eq, Structural)]
pub enum Command {
    /// The selection moved to the cell `(row, column)`.
    ChangeSelectedItem(usize, usize),
    /// The root asks itself to take the input focus.
    RequestFocus,
    /// A command that no node of this tree handles.
    Other,
}

/// Correlates a background computation with the event that delivers its result.
#[derive(Clone, Copy, Debug, PartialEq, Eq, Structural)]
pub struct PromiseToken {
    pub id: u64,
}

/// The state of a node's one background computation.
#[derive(Clone, Copy, Debug, PartialEq, Eq, Structural)]
pub enum Slot {
    /// Nothing was launched yet.
    Idle,
    /// A computation runs; its result will carry this token.
    Pending(PromiseToken),
    /// The result arrived and was applied.
    Resolved,
}

/// What a finished background computation hands back.
#[derive(Clone, Debug, PartialEq, Eq)]
pub enum Payload {
    /// The rows of the catalog, in display order.
    Collection(Vec<ContentSetMetadata>),
    /// The image sources of one row, in column order.
    ContentSet(Vec<String>),
}

/// The completion of a background computation.
#[derive(Clone, Debug, PartialEq, Eq)]
pub struct PromiseResult {
    pub token: PromiseToken,
    pub payload: Payload,
}

impl PromiseResult {
    /// The rows this result delivers to a node whose slot is `slot`.
    pub open spec fn rows_for(self, slot: Slot) -> Option<Seq<MetadataView>> {
        match self.payload {
            Payload::Collection(rows) if slot == Slot::Pending(self.token) => Some(
                Seq::new(rows@.len(), |i: int| rows@[i]@),
            ),
            _ => None,
        }
    }

    /// The image sources this result delivers to a node whose slot is `slot`.
    pub open spec fn images_for(self, slot: Slot) -> Option<Seq<Seq<char>>> {
        match self.payload {
            Payload::ContentSet(images) if slot == Slot::Pending(self.token) => Some(
                Seq::new(images@.len(), |i: int| images@[i]@),
            ),
            _ => None,
        }
    }

    /// The row records of this result, if `slot` waits for this very result
    /// and the result holds row records.
    pub fn try_get_collection(&self, slot: Slot) -> (rows: Option<&Vec<ContentSetMetadata>>)
        ensures
            rows is Some <==> self.rows_for(slot) is Some,
            rows matches Some(v) ==> self.payload == Payload::Collection(*v),
    {
        match slot {
            Slot::Pending(token) => {
                if token.id == self.token.id {
                    match &self.payload {
                        Payload::Collection(rows) => Some(rows),
                        _ => None,
                    }
                } else {
                    None
                }
            },
            _ => None,
        }
    }

    /// The image sources of this result, if `slot` waits for this very result
    /// and the result holds image sources.
    pub fn try_get_content_set(&self, slot: Slot) -> (images: Option<&Vec<String>>)
        ensures
            images is Some <==> self.images_for(slot) is Some,
            images matches Some(v) ==> self.payload == Payload::ContentSet(*v),
    {
        match slot {
            Slot::Pending(token) => {
                if token.id == self.token.id {
                    match &self.payload {
                        Payload::ContentSet(images) => Some(images),
                        _ => None,
                    }
                } else {
                    None
                }
            },
            _ => None,
        }
    }
}

/// An event of the main event stream.
#[derive(Clone, Debug, PartialEq, Eq)]
pub enum Event {
    /// A background computation finished.
    PromiseResult(PromiseResult),
    /// A key went down.
    KeyDown(Key),
    /// A command was delivered.
    Command(Command),
    /// A frame tick, with the nanoseconds since the previous one.
    AnimFrame(u64),
    /// Any other event; the tree hands it on and does nothing else.
    Other,
}

/// A notification about a node's place in the tree.
#[derive(Clone, Copy, Debug, PartialEq, Eq, Structural)]
pub enum LifeCycle {
    /// The focus chain is being built.
    BuildFocusChain,
    /// The node became part of the live tree.
    WidgetAdded,
    /// Any other notification.
    Other,
}

} // verus!
