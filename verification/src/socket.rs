//! The cloud socket's connection states: what each frame or failure of the
//! WebSocket leads to. Connecting, reading frames, parsing their JSON and
//! sleeping between attempts are the caller's part.
use vstd::prelude::*;

verus! {

/// What happened on the socket.
#[derive(Debug)]
pub enum SocketEvent {
    /// The connection was made.
    Connected,
    /// A connection could not be made.
    ConnectFailed,
    /// A text frame arrived.
    Text(String),
    /// A binary frame arrived.
    Binary,
    /// The server closed the connection.
    Close,
    /// Reading failed.
    Error,
    /// Another frame (ping, pong) arrived.
    Other,
}

/// What the client does next.
#[derive(Debug)]
pub enum SocketAction {
    /// Read the next frame.
    ReadNext,
    /// Parse this text as a socket message and hand it to the subscribers,
    /// then read the next frame.
    Broadcast(String),
    /// Wait this many seconds, then connect again.
    Reconnect(u64),
}

/// Seconds between connection attempts.
pub const RECONNECT_DELAY_SECS: u64 = 5;

/// Whether the client is connected.
#[derive(Debug)]
pub struct SocketState {
    connected: bool,
}

impl SocketState {
    pub closed spec fn connected_spec(&self) -> bool {
        self.connected
    }

    pub fn new() -> (r: Self)
        ensures
            !r.connected_spec(),
    {
        SocketState { connected: false }
    }

    pub fn is_connected(&self) -> (r: bool)
        ensures
            r == self.connected_spec(),
    {
        self.connected
    }

    /// The step after `event`: a connection is kept and read; a text frame
    /// is passed on; a close or an error ends the connection, and a failed
    /// or ended connection is tried again after five seconds.
    pub fn on_event(&mut self, event: SocketEvent) -> (r: SocketAction)
        ensures
            match event {
                SocketEvent::Connected => r is ReadNext && final(self).connected_spec(),
                SocketEvent::ConnectFailed => (r matches SocketAction::Reconnect(s) && s == RECONNECT_DELAY_SECS)
                    && final(self).connected_spec() == old(self).connected_spec(),
                SocketEvent::Text(t) => (r matches SocketAction::Broadcast(x) && x@ == t@)
                    && final(self).connected_spec() == old(self).connected_spec(),
                SocketEvent::Binary => r is ReadNext && final(self).connected_spec() == old(self).connected_spec(),
                SocketEvent::Other => r is ReadNext && final(self).connected_spec() == old(self).connected_spec(),
                SocketEvent::Close => (r matches SocketAction::Reconnect(s) && s == RECONNECT_DELAY_SECS) && !final(self).connected_spec(),
                SocketEvent::Error => (r matches SocketAction::Reconnect(s) && s == RECONNECT_DELAY_SECS) && !final(self).connected_spec(),
            },
    {
        match event {
            SocketEvent::Connected => {
                self.connected = true;
                SocketAction::ReadNext
            },
            SocketEvent::ConnectFailed => SocketAction::Reconnect(RECONNECT_DELAY_SECS),
            SocketEvent::Text(t) => SocketAction::Broadcast(t),
            SocketEvent::Binary => SocketAction::ReadNext,
            SocketEvent::Other => SocketAction::ReadNext,
            SocketEvent::Close => {
                self.connected = false;
                SocketAction::Reconnect(RECONNECT_DELAY_SECS)
            },
            SocketEvent::Error => {
                self.connected = false;
                SocketAction::Reconnect(RECONNECT_DELAY_SECS)
            },
        }
    }
}

} // verus!
