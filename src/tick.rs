use vstd::prelude::*;

use crate::message_out::{tick_sync_bytes, MessageOut, MessageOutType};
use crate::world::{disconnect_event_ids, DisconnectEvent};

verus! {

/// Ticks between two TickSync heartbeats.
pub const TICK_SYNC_PERIOD: u16 = 60;

/// The tick counter: 0 at startup, then 1, 2, ... up to `u16::MAX`, then 2 again.
#[derive(Debug, Clone, Copy, PartialEq, Eq, Structural)]
pub struct Tick(pub u16);

/// The tick after `t`; 0 and 1 are never re-entered after the wrap.
pub open spec fn spec_next_tick(t: u16) -> u16 {
    if t == u16::MAX {
        2
    } else {
        (t + 1) as u16
    }
}

impl Tick {
    pub fn new() -> (r: Tick)
        ensures
            r.0 == 0,
    {
        Tick(0)
    }

    /// Advances the counter by one tick, wrapping from `u16::MAX` to 2.
    pub fn advance(&mut self)
        ensures
            final(self).0 == spec_next_tick(old(self).0),
    {
        if self.0 == u16::MAX {
            self.0 = 2;
        } else {
            self.0 = self.0 + 1;
        }
    }
}

/// A connection event drained from the transport.
#[derive(Debug)]
pub enum ServerEvent {
    ClientConnected { client_id: u64 },
    ClientDisconnected { client_id: u64, player_id: String, reason: String },
}

/// The identities of the disconnect events, in drain order.
pub open spec fn disconnected_ids(s: Seq<ServerEvent>) -> Seq<Seq<char>>
    decreases s.len(),
{
    if s.len() == 0 {
        Seq::empty()
    } else {
        match s.last() {
            ServerEvent::ClientDisconnected { player_id, .. } => disconnected_ids(s.drop_last()).push(player_id@),
            ServerEvent::ClientConnected { .. } => disconnected_ids(s.drop_last()),
        }
    }
}

/// Starts a tick: advances the counter, returns the TickSync heartbeat when the
/// new tick is a multiple of the period, and turns the drained transport
/// events into disconnect requests in drain order.
pub fn handle_server_events(tick: &mut Tick, events: Vec<ServerEvent>) -> (r: (Option<MessageOut>, Vec<DisconnectEvent>))
    ensures
        final(tick).0 == spec_next_tick(old(tick).0),
        r.0 is Some <==> final(tick).0 % TICK_SYNC_PERIOD == 0,
        r.0 is Some ==> r.0->Some_0.event_type == MessageOutType::TickSync
            && r.0->Some_0.data@ == tick_sync_bytes(final(tick).0),
        disconnect_event_ids(r.1@) == disconnected_ids(events@),
{
    tick.advance();
    let sync = if tick.0 % TICK_SYNC_PERIOD == 0 {
        Some(MessageOut::tick_sync_message(tick.0))
    } else {
        None
    };
    let ghost evs = events@;
    let mut disconnects: Vec<DisconnectEvent> = Vec::new();
    let n = events.len();
    let mut rest = events;
    let mut i: usize = 0;
    while i < n
        invariant
            n == evs.len(),
            i <= evs.len(),
            disconnect_event_ids(disconnects@) == disconnected_ids(evs.subrange(0, i as int)),
            rest@ == evs.subrange(i as int, evs.len() as int),
        decreases evs.len() - i,
    {
        let ghost before = disconnects@;
        let ev = rest.remove(0);
        proof {
            assert(ev == evs[i as int]);
            assert(evs.subrange(0, i + 1).drop_last() =~= evs.subrange(0, i as int));
            assert(rest@ =~= evs.subrange(i + 1, evs.len() as int));
        }
        match ev {
            ServerEvent::ClientConnected { client_id: _ } => {},
            ServerEvent::ClientDisconnected { client_id: _, player_id, reason: _ } => {
                disconnects.push(DisconnectEvent { player_id });
                proof {
                    assert(disconnect_event_ids(disconnects@) =~= disconnect_event_ids(before).push(evs[i as int]->ClientDisconnected_player_id@));
                }
            },
        }
        i = i + 1;
    }
    assert(evs.subrange(0, evs.len() as int) =~= evs);
    (sync, disconnects)
}

} // verus!
