//! Consumer registry: the two fixed consumer slots, their configuration and
//! connection state, and the supervisor's retry decision.
use vstd::prelude::*;
use crate::config::Config;

verus! {

/// The two fixed consumer slots, in their stable iteration order.
#[derive(PartialEq, Eq, Structural, Clone, Copy, Debug)]
pub enum SlotId {
    Blender,
    Visualizer,
}

/// Position of a slot in the fixed iteration order.
pub open spec fn slot_index(s: SlotId) -> int {
    match s {
        SlotId::Blender => 0,
        SlotId::Visualizer => 1,
    }
}

/// Connection state of one consumer slot.
#[derive(PartialEq, Eq, Structural, Clone, Copy, Debug)]
pub enum ConnState {
    Disconnected,
    Connected,
}

/// One logical forwarding target: its network address, whether the
/// configuration enabled it, and its connection state.
pub struct Consumer {
    pub host: String,
    pub port: u16,
    pub enabled: bool,
    pub state: ConnState,
}

/// The fixed set of downstream consumers, one `Consumer` per slot.
pub struct ConnectionManager {
    pub blender: Consumer,
    pub visualizer: Consumer,
}

/// The first connected slot at or after position `from`, in slot order.
pub open spec fn next_connected_from(m: ConnectionManager, from: int) -> Option<SlotId> {
    if from <= 0 && m.blender.state is Connected {
        Some(SlotId::Blender)
    } else if from <= 1 && m.visualizer.state is Connected {
        Some(SlotId::Visualizer)
    } else {
        None
    }
}

impl ConnectionManager {
    /// Build the registry from the configuration: both slots start
    /// disconnected; enabled flags and ports come from the configuration.
    pub fn new(config: &Config) -> (r: Self)
        ensures
            r.blender.enabled == config.blender,
            r.blender.port == config.blender_port,
            r.blender.state is Disconnected,
            r.visualizer.enabled == config.visualizer,
            r.visualizer.port == config.viz_port,
            r.visualizer.state is Disconnected,
    {
        ConnectionManager {
            blender: Consumer {
                host: config.host.clone(),
                port: config.blender_port,
                enabled: config.blender,
                state: ConnState::Disconnected,
            },
            visualizer: Consumer {
                host: config.host.clone(),
                port: config.viz_port,
                enabled: config.visualizer,
                state: ConnState::Disconnected,
            },
        }
    }

    /// The first slot the supervisor still has to connect: enabled but not
    /// yet connected, in slot order. Disabled slots are never returned, so
    /// no connection is ever attempted for them.
    pub fn next_to_connect(&self) -> (r: Option<SlotId>)
        ensures
            r == Some(SlotId::Blender) <==> self.blender.enabled && self.blender.state
                is Disconnected,
            r == Some(SlotId::Visualizer) <==> !(self.blender.enabled && self.blender.state
                is Disconnected) && self.visualizer.enabled && self.visualizer.state
                is Disconnected,
            r is None <==> !(self.blender.enabled && self.blender.state is Disconnected) && !(
            self.visualizer.enabled && self.visualizer.state is Disconnected),
    {
        if self.blender.enabled && self.blender.state == ConnState::Disconnected {
            Some(SlotId::Blender)
        } else if self.visualizer.enabled && self.visualizer.state == ConnState::Disconnected {
            Some(SlotId::Visualizer)
        } else {
            None
        }
    }

    /// Record that the supervisor established the connection for `slot`.
    pub fn mark_connected(&mut self, slot: SlotId)
        requires
            slot is Blender ==> old(self).blender.enabled && old(self).blender.state
                is Disconnected,
            slot is Visualizer ==> old(self).visualizer.enabled && old(self).visualizer.state
                is Disconnected,
        ensures
            slot is Blender ==> final(self).blender == (Consumer {
                state: ConnState::Connected,
                ..old(self).blender
            }) && final(self).visualizer == old(self).visualizer,
            slot is Visualizer ==> final(self).visualizer == (Consumer {
                state: ConnState::Connected,
                ..old(self).visualizer
            }) && final(self).blender == old(self).blender,
    {
        match slot {
            SlotId::Blender => {
                self.blender.state = ConnState::Connected;
            },
            SlotId::Visualizer => {
                self.visualizer.state = ConnState::Connected;
            },
        }
    }

    /// The first connected slot, in slot order.
    pub fn first_connected(&self) -> (r: Option<SlotId>)
        ensures
            r == next_connected_from(*self, 0),
    {
        if self.blender.state == ConnState::Connected {
            Some(SlotId::Blender)
        } else if self.visualizer.state == ConnState::Connected {
            Some(SlotId::Visualizer)
        } else {
            None
        }
    }

    /// The first connected slot strictly after `slot`, in slot order.
    pub fn connected_after(&self, slot: SlotId) -> (r: Option<SlotId>)
        ensures
            r == next_connected_from(*self, slot_index(slot) + 1),
    {
        match slot {
            SlotId::Blender => {
                if self.visualizer.state == ConnState::Connected {
                    Some(SlotId::Visualizer)
                } else {
                    None
                }
            },
            SlotId::Visualizer => None,
        }
    }
}

/// With one consumer connected and the other not, a delivery pass targets
/// exactly the one connected slot: it is the first target, and no target
/// follows it — the disconnected consumer is never written to.
pub proof fn lemma_single_connected_single_write(m: ConnectionManager)
    requires
        m.blender.state is Connected,
        !(m.visualizer.state is Connected),
    ensures
        next_connected_from(m, 0) == Some(SlotId::Blender),
        next_connected_from(m, slot_index(SlotId::Blender) + 1) is None,
{
}

/// How long the supervisor sleeps between connection attempts, in seconds.
pub const RETRY_DELAY_SECONDS: u64 = 3;

/// What the connection supervisor does after one connection attempt.
#[derive(PartialEq, Eq, Structural, Clone, Copy, Debug)]
pub enum ConnectDecision {
    /// The attempt succeeded; the slot is connected.
    Established,
    /// The attempt failed; sleep for the fixed delay, then retry.
    RetryAfterDelay { seconds: u64 },
}

/// The supervisor's decision after a connection attempt: success means the
/// connection is established; failure always means one more attempt after
/// the fixed delay — the supervisor never gives up.
pub fn on_connect_attempt(success: bool) -> (d: ConnectDecision)
    ensures
        success <==> d is Established,
        !success ==> (d matches ConnectDecision::RetryAfterDelay { seconds } && seconds
            == RETRY_DELAY_SECONDS),
{
    if success {
        ConnectDecision::Established
    } else {
        ConnectDecision::RetryAfterDelay { seconds: RETRY_DELAY_SECONDS }
    }
}

} // verus!
