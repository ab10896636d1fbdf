//! A live connection to a peer, one round at a time.
use vstd::prelude::*;

use crate::message;
use crate::message::{AmpMessage, MessageView};
use crate::roundtrip;
use crate::strmap;

verus! {

/// Seconds between two keepalives: an empty message goes out this often.
pub const KEEPALIVE_INTERVAL: u64 = 15;

/// Seconds without anything from the peer after which it is considered dead.
pub const READ_TIMEOUT: u64 = 45;

/// What can happen on a connection.
#[derive(Debug)]
pub enum ConnectionInput {
    /// The peer sent a text frame.
    Text(String),
    /// The peer sent a close frame.
    Close,
    /// The peer sent a frame of another sort.
    OtherFrame,
    /// Reading failed.
    ReadError,
    /// The peer's stream is at its end.
    StreamEnded,
    /// Nothing came for [`READ_TIMEOUT`].
    ReadTimeout,
    /// This node has a message for the peer.
    Outgoing(AmpMessage),
    /// [`KEEPALIVE_INTERVAL`] has passed.
    KeepaliveDue,
    /// A frame could not be written.
    WriteFailed,
    /// Nobody takes delivered messages any more.
    InboxClosed,
}

/// What a [`ConnectionInput`] says.
pub enum InputView {
    Text(Seq<char>),
    Close,
    OtherFrame,
    ReadError,
    StreamEnded,
    ReadTimeout,
    Outgoing(MessageView),
    KeepaliveDue,
    WriteFailed,
    InboxClosed,
}

impl View for ConnectionInput {
    type V = InputView;

    open spec fn view(&self) -> InputView {
        match *self {
            ConnectionInput::Text(s) => InputView::Text(s@),
            ConnectionInput::Close => InputView::Close,
            ConnectionInput::OtherFrame => InputView::OtherFrame,
            ConnectionInput::ReadError => InputView::ReadError,
            ConnectionInput::StreamEnded => InputView::StreamEnded,
            ConnectionInput::ReadTimeout => InputView::ReadTimeout,
            ConnectionInput::Outgoing(m) => InputView::Outgoing(m@),
            ConnectionInput::KeepaliveDue => InputView::KeepaliveDue,
            ConnectionInput::WriteFailed => InputView::WriteFailed,
            ConnectionInput::InboxClosed => InputView::InboxClosed,
        }
    }
}

/// What a connection does about an input.
#[derive(Debug)]
pub enum ConnectionStep {
    /// Wait for the next input.
    Continue,
    /// Hand a message to the inbox, and wait.
    Deliver(AmpMessage),
    /// Write a text frame, and wait.
    Write(String),
    /// End the connection.
    Stop,
}

/// What a [`ConnectionStep`] says.
pub enum StepView {
    Continue,
    Deliver(MessageView),
    Write(Seq<char>),
    Stop,
}

impl View for ConnectionStep {
    type V = StepView;

    open spec fn view(&self) -> StepView {
        match *self {
            ConnectionStep::Continue => StepView::Continue,
            ConnectionStep::Deliver(m) => StepView::Deliver(m@),
            ConnectionStep::Write(s) => StepView::Write(s@),
            ConnectionStep::Stop => StepView::Stop,
        }
    }
}

/// A message without headers and body.
pub open spec fn is_empty_view(m: MessageView) -> bool {
    m.headers.len() == 0 && m.body.len() == 0
}

/// The empty message.
pub open spec fn empty_view() -> MessageView {
    MessageView { headers: Seq::empty(), body: Seq::empty() }
}

/// What a connection does about a text frame: it delivers the message that the frame spells, unless
/// that is a keepalive.
pub open spec fn text_step(raw: Seq<char>) -> StepView {
    match message::parse_message(raw) {
        Some(m) => if is_empty_view(m) {
            StepView::Continue
        } else {
            StepView::Deliver(m)
        },
        None => StepView::Continue,
    }
}

/// What a connection does about an input.
pub open spec fn next_step(input: InputView) -> StepView {
    match input {
        InputView::Text(raw) => text_step(raw),
        InputView::OtherFrame => StepView::Continue,
        InputView::Outgoing(m) => StepView::Write(message::wire(m)),
        InputView::KeepaliveDue => StepView::Write(message::wire(empty_view())),
        _ => StepView::Stop,
    }
}

/// What a live connection does about an input.
///
/// It writes what this node has for the peer, and a keepalive where one is due. It delivers what
/// the peer sends, keepalives and what is no message left out. It ends with the peer's stream, with
/// a failure to read or write, and when the peer stays silent.
pub fn connection_step(input: ConnectionInput) -> (r: ConnectionStep)
    ensures
        r@ == next_step(input@),
{
    match input {
        ConnectionInput::Text(raw) => match AmpMessage::parse(raw.as_str()) {
            Some(m) => if m.is_empty_message() {
                ConnectionStep::Continue
            } else {
                ConnectionStep::Deliver(m)
            },
            None => ConnectionStep::Continue,
        },
        ConnectionInput::OtherFrame => ConnectionStep::Continue,
        ConnectionInput::Outgoing(m) => ConnectionStep::Write(m.to_wire()),
        ConnectionInput::KeepaliveDue => ConnectionStep::Write(AmpMessage::empty().to_wire()),
        ConnectionInput::Close => ConnectionStep::Stop,
        ConnectionInput::ReadError => ConnectionStep::Stop,
        ConnectionInput::StreamEnded => ConnectionStep::Stop,
        ConnectionInput::ReadTimeout => ConnectionStep::Stop,
        ConnectionInput::WriteFailed => ConnectionStep::Stop,
        ConnectionInput::InboxClosed => ConnectionStep::Stop,
    }
}

/// A peer is given three keepalives' time before it is considered dead.
pub proof fn law_three_keepalives()
    ensures
        READ_TIMEOUT == 3 * KEEPALIVE_INTERVAL,
        KEEPALIVE_INTERVAL == 15,
{
}

/// What a keepalive writes keeps the other end waiting: it is not delivered there.
pub proof fn law_keepalive_is_not_delivered()
    ensures
        match next_step(InputView::KeepaliveDue) {
            StepView::Write(raw) => raw == message::EMPTY_MESSAGE@ && next_step(
                InputView::Text(raw),
            ) == StepView::Continue,
            _ => false,
        },
{
    roundtrip::law_empty_message();
}

/// What one end writes of a message with plain headers, the other end delivers unless it is a
/// keepalive: the same headers in the same order, and the body with its last line ended.
pub proof fn law_message_arrives(m: MessageView)
    requires
        strmap::distinct_keys(m.headers),
        roundtrip::are_plain_headers(m.headers),
        !is_empty_view(m),
    ensures
        match next_step(InputView::Outgoing(m)) {
            StepView::Write(raw) => next_step(InputView::Text(raw)) == StepView::Deliver(
                MessageView { headers: m.headers, body: message::wire_body(m.body) },
            ),
            _ => false,
        },
{
    roundtrip::law_write_read(m);
}

/// A message that the peer sends is delivered as it is exactly where it is a message and not a
/// keepalive; anything else in a text frame keeps the connection waiting.
pub proof fn law_messages_are_delivered(raw: Seq<char>, m: MessageView)
    ensures
        next_step(InputView::Text(raw)) == StepView::Deliver(m) <==> message::parse_message(raw)
            == Some(m) && (m.headers.len() > 0 || m.body.len() > 0),
        next_step(InputView::Text(raw)) is Deliver || next_step(InputView::Text(raw)) is Continue,
{
}

/// A connection ends exactly with the peer's stream, with a failure to read or write, when the peer
/// stays silent, and when nobody takes messages any more.
pub proof fn law_connection_ends(input: InputView)
    ensures
        next_step(input) is Stop <==> {
            ||| input is Close
            ||| input is StreamEnded
            ||| input is ReadError
            ||| input is WriteFailed
            ||| input is ReadTimeout
            ||| input is InboxClosed
        },
{
}

/// A connection writes exactly what this node has for the peer, and keepalives: what it writes of a
/// message is that message on the wire.
pub proof fn law_connection_writes(input: InputView)
    ensures
        next_step(input) is Write <==> input is Outgoing || input is KeepaliveDue,
        input matches InputView::Outgoing(m) ==> next_step(input) == StepView::Write(
            message::wire(m),
        ),
        input is OtherFrame ==> next_step(input) is Continue,
{
}

/// Only the empty message is written as a keepalive is.
pub proof fn law_only_the_empty_message_is_a_keepalive(m: MessageView)
    ensures
        is_empty_view(m) <==> message::wire(m) == message::EMPTY_MESSAGE@,
        is_empty_view(m) <==> m == empty_view(),
{
    roundtrip::law_empty_message();
    let empty = MessageView { headers: Seq::empty(), body: Seq::empty() };
    if is_empty_view(m) {
        assert(m.headers =~= empty.headers);
        assert(m.body =~= empty.body);
    }
    if m.headers.len() > 0 {
        let line = message::header_text(m.headers[0]).push('\n');
        assert(message::header_lines(m.headers) == line + message::header_lines(
            m.headers.drop_first(),
        ));
    }
}

/// What happens on a connection is told apart: a text frame by its text, and a message to be sent by
/// what it says.
pub proof fn law_inputs_say_what_happens(input: ConnectionInput)
    ensures
        match input {
            ConnectionInput::Text(s) => input@ == InputView::Text(s@),
            ConnectionInput::Close => input@ is Close,
            ConnectionInput::OtherFrame => input@ is OtherFrame,
            ConnectionInput::ReadError => input@ is ReadError,
            ConnectionInput::StreamEnded => input@ is StreamEnded,
            ConnectionInput::ReadTimeout => input@ is ReadTimeout,
            ConnectionInput::Outgoing(m) => input@ == InputView::Outgoing(m@),
            ConnectionInput::KeepaliveDue => input@ is KeepaliveDue,
            ConnectionInput::WriteFailed => input@ is WriteFailed,
            ConnectionInput::InboxClosed => input@ is InboxClosed,
        },
{
}

/// What a connection does is told apart: a delivered message by what it says, and a written frame by
/// its text.
pub proof fn law_steps_say_what_is_done(step: ConnectionStep)
    ensures
        match step {
            ConnectionStep::Continue => step@ is Continue,
            ConnectionStep::Deliver(m) => step@ == StepView::Deliver(m@),
            ConnectionStep::Write(s) => step@ == StepView::Write(s@),
            ConnectionStep::Stop => step@ is Stop,
        },
{
}

} // verus!
