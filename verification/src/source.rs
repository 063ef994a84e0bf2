//! The event queue that the touch events arrive in.
//!
//! The queue and its readers belong to `bevy_app`. Verus does not look inside
//! them: what this file says of them is taken on trust from that crate's
//! source, and everything else in the crate is proved against it.

use crate::event::TouchInput;
use bevy_app::{EventReader, Events};
use vstd::prelude::*;

verus! {

/// `bevy_app::Events`: a queue of events, kept for two of its own updates.
#[verifier::external_type_specification]
#[verifier::external_body]
#[verifier::reject_recursive_types(T)]
pub struct ExEvents<T>(bevy_app::Events<T>);

/// `bevy_app::EventReader`: one consumer's place in an `Events` queue.
#[verifier::external_type_specification]
#[verifier::external_body]
#[verifier::reject_recursive_types(T)]
pub struct ExEventReader<T>(bevy_app::EventReader<T>);

/// The events that the queue holds, oldest first.
pub uninterp spec fn buffered_events(events: Events<TouchInput>) -> Seq<TouchInput>;

/// The events of the queue that the reader has not handed out yet, oldest
/// first: what `EventReader::iter` yields for the two.
pub uninterp spec fn unread_events(
    reader: EventReader<TouchInput>,
    events: Events<TouchInput>,
) -> Seq<TouchInput>;

/// `EventReader::default`. The reader it makes starts at count zero: it has
/// handed out nothing, so for any queue everything that the queue holds is
/// still unread.
#[verifier::external_body]
pub(crate) fn fresh_reader() -> (reader: EventReader<TouchInput>)
    ensures
        forall|events: Events<TouchInput>| #[trigger]
            unread_events(reader, events) == buffered_events(events),
{
    EventReader::default()
}

/// `EventReader::iter`, with the events it yields copied into a vector in the
/// order in which it yields them. The call sets the reader's count to the
/// number of events that the queue has been sent, and no event in the queue is
/// numbered that high: asked again about the same queue, the reader has
/// nothing unread.
#[verifier::external_body]
pub(crate) fn read_unseen(
    reader: &mut EventReader<TouchInput>,
    events: &Events<TouchInput>,
) -> (unseen: Vec<TouchInput>)
    ensures
        unseen@ == unread_events(*old(reader), *events),
        unread_events(*final(reader), *events).len() == 0,
{
    reader.iter(events).cloned().collect()
}

} // verus!
