//! The messages of the native socket: what the webview asks to send, what the
//! socket carries, and what the webview is given.

use vstd::prelude::*;

verus! {

/// Why a socket closes.
#[derive(PartialEq, Eq, Debug)]
pub struct CloseFramePayload {
    pub code: u16,
    pub reason: String,
}

/// What the webview asks to send.
#[derive(PartialEq, Eq, Debug)]
pub enum WebSocketMessage {
    Text(String),
    Binary(Vec<u8>),
    Ping(Vec<u8>),
    Pong(Vec<u8>),
    Close(Option<CloseFramePayload>),
}

/// What the socket carries.
#[derive(PartialEq, Eq, Debug)]
pub enum SocketMessage {
    Text(String),
    Binary(Vec<u8>),
    Ping(Vec<u8>),
    Pong(Vec<u8>),
    Close(Option<CloseFramePayload>),
    /// A frame that was not assembled to a message.
    Frame,
}

/// What the webview is given.
#[derive(PartialEq, Eq, Debug)]
pub enum OutboundMessage {
    Text(String),
    Binary(Vec<u8>),
    Ping(Vec<u8>),
    Pong(Vec<u8>),
    Close(Option<CloseFramePayload>),
    Error(String),
}

/// What a message holds.
pub enum MessageView {
    Text(Seq<char>),
    Binary(Seq<u8>),
    Ping(Seq<u8>),
    Pong(Seq<u8>),
    Close(Option<(u16, Seq<char>)>),
    Frame,
    Error(Seq<char>),
}

/// The code and the reason of a close frame, where it has them.
pub open spec fn close_view(payload: Option<CloseFramePayload>) -> Option<(u16, Seq<char>)> {
    match payload {
        Some(frame) => Some((frame.code, frame.reason@)),
        None => None,
    }
}

impl View for WebSocketMessage {
    type V = MessageView;

    open spec fn view(&self) -> MessageView {
        match self {
            WebSocketMessage::Text(value) => MessageView::Text(value@),
            WebSocketMessage::Binary(value) => MessageView::Binary(value@),
            WebSocketMessage::Ping(value) => MessageView::Ping(value@),
            WebSocketMessage::Pong(value) => MessageView::Pong(value@),
            WebSocketMessage::Close(payload) => MessageView::Close(close_view(*payload)),
        }
    }
}

impl View for SocketMessage {
    type V = MessageView;

    open spec fn view(&self) -> MessageView {
        match self {
            SocketMessage::Text(value) => MessageView::Text(value@),
            SocketMessage::Binary(value) => MessageView::Binary(value@),
            SocketMessage::Ping(value) => MessageView::Ping(value@),
            SocketMessage::Pong(value) => MessageView::Pong(value@),
            SocketMessage::Close(payload) => MessageView::Close(close_view(*payload)),
            SocketMessage::Frame => MessageView::Frame,
        }
    }
}

impl View for OutboundMessage {
    type V = MessageView;

    open spec fn view(&self) -> MessageView {
        match self {
            OutboundMessage::Text(value) => MessageView::Text(value@),
            OutboundMessage::Binary(value) => MessageView::Binary(value@),
            OutboundMessage::Ping(value) => MessageView::Ping(value@),
            OutboundMessage::Pong(value) => MessageView::Pong(value@),
            OutboundMessage::Close(payload) => MessageView::Close(close_view(*payload)),
            OutboundMessage::Error(error) => MessageView::Error(error@),
        }
    }
}

/// What the webview is given for what the socket carries: the same, but an error
/// for a raw frame.
pub open spec fn outbound(message: MessageView) -> MessageView {
    match message {
        MessageView::Frame => MessageView::Error("unexpected raw WebSocket frame"@),
        other => other,
    }
}

/// The message ends the connection for the webview.
pub open spec fn is_terminal(message: MessageView) -> bool {
    message is Close || message is Error
}

/// What the socket carries for what the webview asks to send.
pub fn socket_message(message: WebSocketMessage) -> (carried: SocketMessage)
    ensures
        carried@ == message@,
{
    match message {
        WebSocketMessage::Text(value) => SocketMessage::Text(value),
        WebSocketMessage::Binary(value) => SocketMessage::Binary(value),
        WebSocketMessage::Ping(value) => SocketMessage::Ping(value),
        WebSocketMessage::Pong(value) => SocketMessage::Pong(value),
        WebSocketMessage::Close(payload) => SocketMessage::Close(payload),
    }
}

/// What the webview is given for what the socket carries.
pub fn outbound_message(message: SocketMessage) -> (given: OutboundMessage)
    ensures
        given@ == outbound(message@),
{
    match message {
        SocketMessage::Text(value) => OutboundMessage::Text(value),
        SocketMessage::Binary(value) => OutboundMessage::Binary(value),
        SocketMessage::Ping(value) => OutboundMessage::Ping(value),
        SocketMessage::Pong(value) => OutboundMessage::Pong(value),
        SocketMessage::Close(payload) => OutboundMessage::Close(payload),
        SocketMessage::Frame => OutboundMessage::Error(
            "unexpected raw WebSocket frame".to_owned(),
        ),
    }
}

impl OutboundMessage {
    /// Whether the message ends the connection for the webview.
    pub fn is_terminal(&self) -> (terminal: bool)
        ensures
            terminal == is_terminal(self@),
    {
        match self {
            OutboundMessage::Close(_) => true,
            OutboundMessage::Error(_) => true,
            _ => false,
        }
    }
}

/// The part of a message that must hold no key backup, and what it is called.
pub enum EgressCheck<'a> {
    Text(&'a str, &'static str),
    Binary(&'a [u8], &'static str),
    /// Nothing to look at.
    Exempt,
}

/// What is to be looked at before a message goes out: text and binary frames, the
/// single way out for what the webview sends.
pub fn egress_check<'a>(message: &'a WebSocketMessage) -> (check: EgressCheck<'a>)
    ensures
        match message@ {
            MessageView::Text(value) => check matches EgressCheck::Text(found, context) && found@
                == value && context@ == "websocket text frame"@,
            MessageView::Binary(value) => check matches EgressCheck::Binary(found, context)
                && found@ == value && context@ == "websocket binary frame"@,
            _ => check is Exempt,
        },
{
    match message {
        WebSocketMessage::Text(value) => EgressCheck::Text(value.as_str(), "websocket text frame"),
        WebSocketMessage::Binary(value) => EgressCheck::Binary(
            value.as_slice(),
            "websocket binary frame",
        ),
        _ => EgressCheck::Exempt,
    }
}

/// How far a request to send came.
pub enum SendProgress {
    /// The message was not let out, for this reason.
    Refused(String),
    /// The connection was not found, for this reason.
    NotFound(String),
    /// The queue of the connection stayed full.
    QueueTimedOut,
    /// The connection has no queue any more.
    QueueClosed,
    /// No reply came.
    ReplyTimedOut,
    /// The connection ended without a reply.
    ReplyClosed,
    /// The connection replied.
    Replied(Result<(), String>),
}

/// Lets a message out to the socket, or not, by what the guard found in it.
pub fn guarded_message(message: WebSocketMessage, verdict: Result<(), String>) -> (next: Result<
    SocketMessage,
    SendProgress,
>)
    ensures
        match verdict {
            Ok(_) => next matches Ok(carried) && carried@ == message@,
            Err(reason) => next == Err::<SocketMessage, SendProgress>(
                SendProgress::Refused(reason),
            ),
        },
{
    match verdict {
        Ok(_) => Ok(socket_message(message)),
        Err(reason) => Err(SendProgress::Refused(reason)),
    }
}

/// The error of a request to send, where there is one.
pub open spec fn send_error(progress: SendProgress) -> Option<Seq<char>> {
    match progress {
        SendProgress::Refused(reason) => Some(reason@),
        SendProgress::NotFound(reason) => Some(reason@),
        SendProgress::QueueTimedOut => Some("WebSocket send queue timed out"@),
        SendProgress::QueueClosed => Some("WebSocket connection closed"@),
        SendProgress::ReplyTimedOut => Some("WebSocket send timed out"@),
        SendProgress::ReplyClosed => Some("WebSocket connection closed"@),
        SendProgress::Replied(Ok(_)) => None,
        SendProgress::Replied(Err(error)) => Some(error@),
    }
}

/// The error of a result, where it has one.
pub open spec fn error_view(result: Result<(), String>) -> Option<Seq<char>> {
    match result {
        Ok(_) => None,
        Err(error) => Some(error@),
    }
}

/// What a request to send comes to.
pub fn send_result(progress: SendProgress) -> (result: Result<(), String>)
    ensures
        error_view(result) == send_error(progress),
{
    match progress {
        SendProgress::Refused(reason) => Err(reason),
        SendProgress::NotFound(reason) => Err(reason),
        SendProgress::QueueTimedOut => Err("WebSocket send queue timed out".to_owned()),
        SendProgress::QueueClosed => Err("WebSocket connection closed".to_owned()),
        SendProgress::ReplyTimedOut => Err("WebSocket send timed out".to_owned()),
        SendProgress::ReplyClosed => Err("WebSocket connection closed".to_owned()),
        SendProgress::Replied(result) => result,
    }
}

/// What came of writing a message to the socket.
pub enum WriteOutcome {
    Written,
    TimedOut,
    Failed(String),
}

/// The error of a write, where there is one.
pub open spec fn write_error(outcome: WriteOutcome) -> Option<Seq<char>> {
    match outcome {
        WriteOutcome::Written => None,
        WriteOutcome::TimedOut => Some("WebSocket send timed out"@),
        WriteOutcome::Failed(error) => Some(error@),
    }
}

/// What a write comes to.
pub fn write_result(outcome: WriteOutcome) -> (result: Result<(), String>)
    ensures
        error_view(result) == write_error(outcome),
{
    match outcome {
        WriteOutcome::Written => Ok(()),
        WriteOutcome::TimedOut => Err("WebSocket send timed out".to_owned()),
        WriteOutcome::Failed(error) => Err(error),
    }
}

/// Why a connection did not open.
pub enum ConnectFailure {
    /// The URL gives no request, for this reason.
    InvalidRequest(String),
    /// The epoch is no header value.
    InvalidHeader,
    /// All connections were ended meanwhile.
    Cancelled,
    TimedOut,
    /// The handshake failed, for this reason.
    Failed(String),
}

/// The text of a failure.
pub open spec fn connect_error(failure: ConnectFailure) -> Seq<char> {
    match failure {
        ConnectFailure::InvalidRequest(reason) => reason@,
        ConnectFailure::InvalidHeader => "invalid WebSocket request"@,
        ConnectFailure::Cancelled => "WebSocket connection cancelled"@,
        ConnectFailure::TimedOut => "WebSocket connection timed out"@,
        ConnectFailure::Failed(reason) => reason@,
    }
}

impl ConnectFailure {
    /// The text of the failure.
    pub fn into_message(self) -> (message: String)
        ensures
            message@ == connect_error(self),
    {
        match self {
            ConnectFailure::InvalidRequest(reason) => reason,
            ConnectFailure::InvalidHeader => "invalid WebSocket request".to_owned(),
            ConnectFailure::Cancelled => "WebSocket connection cancelled".to_owned(),
            ConnectFailure::TimedOut => "WebSocket connection timed out".to_owned(),
            ConnectFailure::Failed(reason) => reason,
        }
    }
}

/// What is sent and comes back is given to the webview as it was.
pub proof fn echoed_message_is_unchanged(message: WebSocketMessage)
    ensures
        outbound(message@) == message@,
{
}

/// What the socket carries is given to the webview as it is, but for a raw frame,
/// which is an error.
pub proof fn webview_is_given_what_came(message: MessageView)
    ensures
        !(message is Frame) ==> outbound(message) == message,
        message is Frame ==> outbound(message) == MessageView::Error(
            "unexpected raw WebSocket frame"@,
        ),
        is_terminal(message) == (message is Close || message is Error),
{
}

/// Messages are seen with all that they hold.
pub proof fn messages_are_seen_whole(
    characters: String,
    bytes: Vec<u8>,
    code: u16,
    reason: String,
)
    ensures
        WebSocketMessage::Text(characters)@ == MessageView::Text(characters@),
        WebSocketMessage::Binary(bytes)@ == MessageView::Binary(bytes@),
        WebSocketMessage::Ping(bytes)@ == MessageView::Ping(bytes@),
        WebSocketMessage::Pong(bytes)@ == MessageView::Pong(bytes@),
        WebSocketMessage::Close(None)@ == MessageView::Close(None),
        WebSocketMessage::Close(Some(CloseFramePayload { code, reason }))@ == MessageView::Close(
            Some((code, reason@)),
        ),
        SocketMessage::Text(characters)@ == MessageView::Text(characters@),
        SocketMessage::Binary(bytes)@ == MessageView::Binary(bytes@),
        SocketMessage::Ping(bytes)@ == MessageView::Ping(bytes@),
        SocketMessage::Pong(bytes)@ == MessageView::Pong(bytes@),
        SocketMessage::Close(None)@ == MessageView::Close(None),
        SocketMessage::Close(Some(CloseFramePayload { code, reason }))@ == MessageView::Close(
            Some((code, reason@)),
        ),
        SocketMessage::Frame@ == MessageView::Frame,
        OutboundMessage::Text(characters)@ == MessageView::Text(characters@),
        OutboundMessage::Binary(bytes)@ == MessageView::Binary(bytes@),
        OutboundMessage::Ping(bytes)@ == MessageView::Ping(bytes@),
        OutboundMessage::Pong(bytes)@ == MessageView::Pong(bytes@),
        OutboundMessage::Close(None)@ == MessageView::Close(None),
        OutboundMessage::Close(Some(CloseFramePayload { code, reason }))@ == MessageView::Close(
            Some((code, reason@)),
        ),
        OutboundMessage::Error(reason)@ == MessageView::Error(reason@),
{
}

/// A request to send succeeds exactly if the connection replied that it was
/// written. Every reason that was given is the error; what timed out or was closed
/// has its own text.
pub proof fn send_succeeds_exactly_if_written(progress: SendProgress)
    ensures
        send_error(progress) is None <==> progress matches SendProgress::Replied(Ok(_)),
        progress matches SendProgress::Replied(Err(reason)) ==> send_error(progress) == Some(
            reason@,
        ),
        progress matches SendProgress::Refused(reason) ==> send_error(progress) == Some(reason@),
        progress matches SendProgress::NotFound(reason) ==> send_error(progress) == Some(reason@),
        progress is QueueTimedOut ==> send_error(progress) == Some(
            "WebSocket send queue timed out"@,
        ),
        progress is ReplyTimedOut ==> send_error(progress) == Some("WebSocket send timed out"@),
        progress is QueueClosed || progress is ReplyClosed ==> send_error(progress) == Some(
            "WebSocket connection closed"@,
        ),
{
}

/// A write succeeds exactly if it was written; a failure has its reason as error.
pub proof fn write_succeeds_exactly_if_written(outcome: WriteOutcome)
    ensures
        write_error(outcome) is None <==> outcome is Written,
        outcome matches WriteOutcome::Failed(reason) ==> write_error(outcome) == Some(reason@),
        outcome is TimedOut ==> write_error(outcome) == Some("WebSocket send timed out"@),
        forall|result: Result<(), String>| #[trigger]
            error_view(result) is None <==> result is Ok,
        forall|reason: String| #[trigger]
            error_view(Err::<(), String>(reason)) == Some(reason@),
{
}

/// A reason that was given is the text of the failure; the others have their own.
pub proof fn connect_failure_tells_its_reason(failure: ConnectFailure)
    ensures
        failure matches ConnectFailure::InvalidRequest(reason) ==> connect_error(failure)
            == reason@,
        failure matches ConnectFailure::Failed(reason) ==> connect_error(failure) == reason@,
        failure is InvalidHeader ==> connect_error(failure) == "invalid WebSocket request"@,
        failure is Cancelled ==> connect_error(failure) == "WebSocket connection cancelled"@,
        failure is TimedOut ==> connect_error(failure) == "WebSocket connection timed out"@,
{
}

} // verus!
