//! The voice monitor's side of a browser's websocket: who is in the voice
//! channel, how the socket answers its messages, and when it has gone quiet.

use vstd::prelude::*;

verus! {

/// Seconds between two pings to the browser.
pub const HEARTBEAT_INTERVAL_SECS: u64 = 5;

/// Seconds of silence after which the browser counts as gone.
pub const CLIENT_TIMEOUT_SECS: u64 = 10;

/// The local port on which the bot reports who is in the voice channel.
pub const LOCALPORT: u16 = 2222;

/// Who is in the voice channel, as the bot last reported it.
#[derive(Debug, PartialEq, Eq)]
pub struct ConnectedMembers {
    pub members: Option<Vec<String>>,
    pub avatars: Option<Vec<String>>,
    pub channel: Option<String>,
}

impl Default for ConnectedMembers {
    /// Nothing reported yet.
    fn default() -> (r: Self)
        ensures
            r.members is None,
            r.avatars is None,
            r.channel is None,
    {
        ConnectedMembers { members: None, avatars: None, channel: None }
    }
}

/// Whether a browser last heard from `elapsed_nanos` nanoseconds ago counts as gone:
/// it does once the silence is longer than the time-out.
pub fn heartbeat_expired(elapsed_nanos: u128) -> (r: bool)
    ensures
        r == (elapsed_nanos > CLIENT_TIMEOUT_SECS * 1_000_000_000),
{
    elapsed_nanos > (CLIENT_TIMEOUT_SECS as u128) * 1_000_000_000
}

/// A message that arrives on a browser's websocket.
#[derive(Debug, PartialEq, Eq)]
pub enum WsEvent {
    Ping,
    Pong,
    Text,
    Binary,
    Close,
    /// A continuation, a no-op, or a protocol error.
    Other,
}

/// What the socket does with a message.
#[derive(Debug, PartialEq, Eq)]
pub enum WsAction {
    /// Note that the browser is alive, and answer the ping.
    RefreshAndPong,
    /// Note that the browser is alive.
    Refresh,
    /// Nothing.
    Ignore,
    /// Close the socket with the browser's reason, and stop.
    CloseAndStop,
    /// Stop.
    Stop,
}

/// What the socket does with `event`.
pub fn action_for(event: &WsEvent) -> (a: WsAction)
    ensures
        a == match event {
            WsEvent::Ping => WsAction::RefreshAndPong,
            WsEvent::Pong => WsAction::Refresh,
            WsEvent::Text | WsEvent::Binary => WsAction::Ignore,
            WsEvent::Close => WsAction::CloseAndStop,
            WsEvent::Other => WsAction::Stop,
        },
{
    match event {
        WsEvent::Ping => WsAction::RefreshAndPong,
        WsEvent::Pong => WsAction::Refresh,
        WsEvent::Text | WsEvent::Binary => WsAction::Ignore,
        WsEvent::Close => WsAction::CloseAndStop,
        WsEvent::Other => WsAction::Stop,
    }
}

} // verus!
