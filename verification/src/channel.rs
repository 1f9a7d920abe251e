//! The outbound channel of a connection, and the frames that travel on it.
//!
//! The channel is an unbounded `tokio` queue whose items are the frames that
//! the owner of the receiving half relays to the transport. Nothing here is
//! proved: each item states what is taken on trust of the outside code.

use tokio::sync::mpsc::UnboundedSender;
use vstd::prelude::*;
use warp::ws::Message;

verus! {

/// `tokio::sync::mpsc::UnboundedSender`, the sending half of an unbounded
/// queue. Its inside is hidden: a value is only carried, cloned and sent on.
#[verifier::external_type_specification]
#[verifier::external_body]
#[verifier::reject_recursive_types(T)]
pub struct ExUnboundedSender<T>(UnboundedSender<T>);

/// `warp::ws::Message`, one WebSocket frame. Its inside is hidden.
#[verifier::external_type_specification]
#[verifier::external_body]
pub struct ExMessage(Message);

/// `warp::Error`, the error of a transport. Its inside is hidden.
#[verifier::external_type_specification]
#[verifier::external_body]
pub struct ExTransportError(warp::Error);

/// What travels on an outbound channel: a frame for the transport, or the
/// transport error that ends the relay.
pub type Outgoing = Result<Message, warp::Error>;

/// The handle through which the broadcaster hands frames to one connection.
pub type Channel = UnboundedSender<Outgoing>;

/// The text frame that `warp::ws::Message::text` makes of `payload`.
pub uninterp spec fn text_frame_of(payload: Seq<char>) -> Message;

/// What `warp::ws::Message::is_close` answers for `frame`.
pub uninterp spec fn frame_is_close(frame: Message) -> bool;

/// `UnboundedSender::clone`: a second handle on the same queue. The two
/// handles share one queue, whose count of senders the call raises by one; a
/// handle carries nothing else, so the two are stated to be equal.
#[verifier::external_body]
pub(crate) fn clone_channel(channel: &Channel) -> (handle: Channel)
    ensures
        handle == *channel,
{
    channel.clone()
}

/// `warp::ws::Message::text`: the text frame that holds `payload`. The frame
/// is opaque here; it is a function of the payload alone, and is stated to be
/// the one that `text_frame_of` names.
#[verifier::external_body]
pub(crate) fn text_frame(payload: &str) -> (frame: Message)
    ensures
        frame == text_frame_of(payload@),
{
    Message::text(payload)
}

/// `UnboundedSender::send`: puts `frame` on the queue, which is never full,
/// without waiting, and tells whether the queue took it. It refuses when the
/// receiving half is closed or dropped, which no argument shows, so nothing
/// is stated of the answer.
#[verifier::external_body]
pub(crate) fn enqueue(channel: &Channel, frame: Message) -> (accepted: bool) {
    channel.send(Ok(frame)).is_ok()
}

/// `warp::ws::Message::is_close`: whether `frame` is a close frame. The
/// answer depends on the frame alone, and is stated to be the one that
/// `frame_is_close` names.
#[verifier::external_body]
pub(crate) fn is_close_frame(frame: &Message) -> (close: bool)
    ensures
        close == frame_is_close(*frame),
{
    frame.is_close()
}

} // verus!
