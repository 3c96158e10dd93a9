//! WebSocket endpoint: who may connect, and what goes over the socket.

use vstd::prelude::*;

use crate::models::OutputMode;
use crate::state::{fail, failure, DeviceHandle, Reply};

verus! {

/// Whether frames go to clients in that mode.
pub open spec fn may_stream(mode: OutputMode) -> bool {
    mode != OutputMode::Dump
}

/// Whether a client may connect to a device's frame stream: the refusal, if not.
///
/// In `dump` mode frames are written exclusively to the session file, and the answer
/// is `403`. The check comes before the WebSocket handshake, so that any HTTP client
/// receives it.
///
/// Each binary message is one unmodified serialized frame as received from the
/// ESP32: a COBS-framed postcard record without its trailing zero.
pub fn ws_handler(dev: &DeviceHandle) -> (r: Option<Reply>)
    ensures
        r is None <==> may_stream(dev@.state.output_mode),
        r matches Some(reply) ==> reply@ == failure(
            403,
            "Server is in dump-only mode; WebSocket streaming is disabled"@,
        ),
{
    if dev.state.output_mode == OutputMode::Dump {
        Some(
            fail(403, "Server is in dump-only mode; WebSocket streaming is disabled".to_owned()),
        )
    } else {
        None
    }
}

/// What happens to a client's socket.
#[derive(Debug)]
pub enum SocketEvent {
    /// The device was unplugged.
    Shutdown,
    /// A frame came from the device.
    Frame(Vec<u8>),
    /// The client was too slow, and missed so many frames.
    Lagged(u64),
    /// No more frames will come.
    StreamClosed,
    /// A frame could not be sent to the client.
    SendFailed,
    /// The client closed the socket, or is gone.
    ClientClosed,
    /// The client sent something else: a ping, a pong, a message.
    ClientMessage,
}

/// What is done with a client's socket.
#[derive(Debug)]
pub enum SocketStep {
    /// Send these bytes as one binary message.
    Send(Vec<u8>),
    /// Wait for the next event.
    Wait,
    /// Send a close message, and stop.
    CloseAndStop,
    /// Stop.
    Stop,
}

/// What is done with a client's socket after an event.
pub open spec fn socket_step(event: SocketEvent) -> SocketStep {
    match event {
        SocketEvent::Shutdown => SocketStep::CloseAndStop,
        SocketEvent::Frame(data) => SocketStep::Send(data),
        SocketEvent::Lagged(_) => SocketStep::Wait,
        SocketEvent::ClientMessage => SocketStep::Wait,
        SocketEvent::StreamClosed => SocketStep::Stop,
        SocketEvent::SendFailed => SocketStep::Stop,
        SocketEvent::ClientClosed => SocketStep::Stop,
    }
}

/// One step of a client's socket. A client that lags misses frames but stays
/// connected; what it sends is ignored.
pub fn handle_socket(event: SocketEvent) -> (r: SocketStep)
    ensures
        r == socket_step(event),
{
    match event {
        SocketEvent::Shutdown => SocketStep::CloseAndStop,
        SocketEvent::Frame(data) => SocketStep::Send(data),
        SocketEvent::Lagged(_) => SocketStep::Wait,
        SocketEvent::ClientMessage => SocketStep::Wait,
        SocketEvent::StreamClosed => SocketStep::Stop,
        SocketEvent::SendFailed => SocketStep::Stop,
        SocketEvent::ClientClosed => SocketStep::Stop,
    }
}

// ── Laws ──────────────────────────────────────────────────────────────────

/// A client gets every frame as it is, and nothing but frames. It stays connected when it
/// lags and whatever it sends, and is let go when it closes, when a frame cannot be sent,
/// or when no more frames come; only an unplugged device has the socket closed.
pub proof fn law_sockets_carry_frames(event: SocketEvent)
    ensures
        event matches SocketEvent::Frame(data) ==> socket_step(event) == SocketStep::Send(data),
        socket_step(event) is Send <==> event is Frame,
        socket_step(event) is Wait <==> event is Lagged || event is ClientMessage,
        socket_step(event) is CloseAndStop <==> event is Shutdown,
        socket_step(event) is Stop <==> event is StreamClosed || event is SendFailed
            || event is ClientClosed,
{
}

/// Clients may connect while frames are streamed, also where they are dumped besides;
/// where they are only dumped, they may not.
pub proof fn law_who_may_stream()
    ensures
        may_stream(OutputMode::Stream),
        may_stream(OutputMode::Both),
        !may_stream(OutputMode::Dump),
{
}

} // verus!
