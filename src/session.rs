use vstd::prelude::*;
use crate::channel::fresh_connection_id;
use tokio::sync::mpsc::UnboundedSender;
use crate::dispatch::AppendRequest;
use crate::registry::{ConnectionRegistry, attach, detach, without};

verus! {

/// Where a session is in its life. Only a registered session receives
/// broadcasts.
#[derive(PartialEq, Eq, Structural, Debug)]
pub enum Phase {
    /// Accepted, not yet through the upgrade gate.
    Connecting,
    /// In the registry, both loops running.
    Registered,
    /// Out of the registry, waiting for the second loop to stop.
    Draining,
    /// Both loops stopped.
    Closed,
}

/// One of a session's two loops.
#[derive(PartialEq, Eq, Structural, Debug)]
pub enum LoopSide {
    /// Reads frames from the socket.
    Read,
    /// Writes queued frames to the socket.
    Write,
}

pub open spec fn other_side(side: LoopSide) -> LoopSide {
    match side {
        LoopSide::Read => LoopSide::Write,
        LoopSide::Write => LoopSide::Read,
    }
}

/// A frame read from the client, or the failure to read one.
pub enum Inbound {
    Text(String),
    Binary,
    Ping,
    Pong,
    Close,
    Failed,
}

/// What the read loop does with one inbound frame.
pub enum ReadStep {
    /// Have the dispatcher store and broadcast this message.
    Append(AppendRequest),
    /// Ignore the frame and read the next one.
    Continue,
    /// Stop reading.
    Stop,
}

/// What the session does once one of its loops has stopped.
#[derive(PartialEq, Eq, Structural, Debug)]
pub enum ExitAction {
    /// The session has just left the registry; ask this loop to stop too.
    StopOther(LoopSide),
    /// Both loops have stopped: the session is closed.
    Finished,
    /// Nothing left to do.
    Nothing,
}

/// The live binding of one connection to one user and one group.
pub struct Session {
    connection_id: u128,
    group_id: i32,
    user_id: i32,
    phase: Phase,
    reading: bool,
    writing: bool,
}

impl Session {
    pub closed spec fn spec_connection_id(&self) -> u128 {
        self.connection_id
    }

    pub closed spec fn spec_group_id(&self) -> i32 {
        self.group_id
    }

    pub closed spec fn spec_user_id(&self) -> i32 {
        self.user_id
    }

    pub closed spec fn spec_phase(&self) -> Phase {
        self.phase
    }

    /// Whether the loop on `side` is still running.
    pub closed spec fn running(&self, side: LoopSide) -> bool {
        match side {
            LoopSide::Read => self.reading,
            LoopSide::Write => self.writing,
        }
    }

    /// A connection just accepted for `group_id`, before the upgrade gate.
    pub fn connecting(connection_id: u128, group_id: i32) -> (s: Session)
        ensures
            s.spec_connection_id() == connection_id,
            s.spec_group_id() == group_id,
            s.spec_phase() == Phase::Connecting,
            !s.running(LoopSide::Read),
            !s.running(LoopSide::Write),
    {
        Session { connection_id, group_id, user_id: 0, phase: Phase::Connecting, reading: false, writing: false }
    }

    /// A connection just accepted for `group_id`, under a fresh random
    /// connection id.
    pub fn accept(group_id: i32) -> (s: Session)
        ensures
            s.spec_group_id() == group_id,
            s.spec_phase() == Phase::Connecting,
            !s.running(LoopSide::Read),
            !s.running(LoopSide::Write),
    {
        Session::connecting(fresh_connection_id(), group_id)
    }

    /// Admission of `user_id`: the session registers its outbound queue `tx`
    /// under its group, and both loops start.
    pub fn join(&mut self, user_id: i32, registry: &mut ConnectionRegistry, tx: UnboundedSender<String>)
        requires
            old(self).spec_phase() == Phase::Connecting,
            old(registry).wf(),
        ensures
            final(registry).wf(),
            final(registry)@ == attach(
                detach(old(registry)@, old(self).spec_connection_id()),
                old(self).spec_group_id(),
                old(self).spec_connection_id(),
                Seq::empty(),
            ),
            final(self).spec_phase() == Phase::Registered,
            final(self).spec_user_id() == user_id,
            final(self).spec_connection_id() == old(self).spec_connection_id(),
            final(self).spec_group_id() == old(self).spec_group_id(),
            final(self).running(LoopSide::Read),
            final(self).running(LoopSide::Write),
    {
        registry.register(self.group_id, self.connection_id, tx);
        self.user_id = user_id;
        self.phase = Phase::Registered;
        self.reading = true;
        self.writing = true;
    }

    /// Refusal at upgrade time: the session closes without ever touching the
    /// registry.
    pub fn refuse(&mut self)
        requires
            old(self).spec_phase() == Phase::Connecting,
        ensures
            final(self).spec_phase() == Phase::Closed,
            final(self).spec_connection_id() == old(self).spec_connection_id(),
            final(self).spec_group_id() == old(self).spec_group_id(),
            !final(self).running(LoopSide::Read),
            !final(self).running(LoopSide::Write),
    {
        self.phase = Phase::Closed;
        self.reading = false;
        self.writing = false;
    }

    /// The read loop's decision on one inbound frame. A text frame of a
    /// registered session goes to the dispatcher as the session's user in
    /// the session's group; close and read failures end the loop; other
    /// frames are ignored.
    pub fn on_inbound(&self, frame: Inbound) -> (step: ReadStep)
        ensures
            match frame {
                Inbound::Text(body) => if self.spec_phase() == Phase::Registered {
                    step matches ReadStep::Append(req) && req.user_id == self.spec_user_id()
                        && req.group_id == self.spec_group_id() && req.content == body
                } else {
                    step is Stop
                },
                Inbound::Close => step is Stop,
                Inbound::Failed => step is Stop,
                _ => step is Continue,
            },
    {
        match frame {
            Inbound::Text(body) => if self.phase == Phase::Registered {
                ReadStep::Append(AppendRequest { user_id: self.user_id, group_id: self.group_id, content: body })
            } else {
                ReadStep::Stop
            },
            Inbound::Close => ReadStep::Stop,
            Inbound::Failed => ReadStep::Stop,
            _ => ReadStep::Continue,
        }
    }

    /// The loop on `side` has stopped. The first loop to stop takes the
    /// session out of the registry and then asks the other loop to stop; when
    /// the second one stops the session is closed.
    pub fn on_loop_exit(&mut self, side: LoopSide, registry: &mut ConnectionRegistry) -> (action: ExitAction)
        requires
            old(registry).wf(),
        ensures
            final(registry).wf(),
            final(self).spec_connection_id() == old(self).spec_connection_id(),
            final(self).spec_group_id() == old(self).spec_group_id(),
            final(self).spec_user_id() == old(self).spec_user_id(),
            !final(self).running(side),
            final(self).running(other_side(side)) == old(self).running(other_side(side)),
            old(self).spec_phase() == Phase::Registered ==> {
                &&& final(registry)@ == without(
                    old(registry)@,
                    old(self).spec_group_id(),
                    old(self).spec_connection_id(),
                )
                &&& final(self).spec_phase() == Phase::Draining
                &&& action == ExitAction::StopOther(other_side(side))
            },
            old(self).spec_phase() != Phase::Registered ==> final(registry)@ == old(registry)@,
            old(self).spec_phase() == Phase::Draining ==> {
                &&& old(self).running(other_side(side)) ==> final(self).spec_phase() == Phase::Draining
                    && action == ExitAction::Nothing
                &&& !old(self).running(other_side(side)) ==> final(self).spec_phase() == Phase::Closed
                    && action == ExitAction::Finished
            },
            old(self).spec_phase() == Phase::Connecting || old(self).spec_phase() == Phase::Closed ==> {
                &&& final(self).spec_phase() == old(self).spec_phase()
                &&& action == ExitAction::Nothing
            },
    {
        let other_running = match side {
            LoopSide::Read => {
                self.reading = false;
                self.writing
            },
            LoopSide::Write => {
                self.writing = false;
                self.reading
            },
        };
        match self.phase {
            Phase::Registered => {
                registry.deregister(self.group_id, self.connection_id);
                self.phase = Phase::Draining;
                match side {
                    LoopSide::Read => ExitAction::StopOther(LoopSide::Write),
                    LoopSide::Write => ExitAction::StopOther(LoopSide::Read),
                }
            },
            Phase::Draining => {
                if other_running {
                    ExitAction::Nothing
                } else {
                    self.phase = Phase::Closed;
                    ExitAction::Finished
                }
            },
            _ => ExitAction::Nothing,
        }
    }

    pub fn connection_id(&self) -> (r: u128)
        ensures
            r == self.spec_connection_id(),
    {
        self.connection_id
    }

    pub fn group_id(&self) -> (r: i32)
        ensures
            r == self.spec_group_id(),
    {
        self.group_id
    }

    pub fn user_id(&self) -> (r: i32)
        ensures
            r == self.spec_user_id(),
    {
        self.user_id
    }

    pub fn phase(&self) -> (r: Phase)
        ensures
            r == self.spec_phase(),
    {
        match self.phase {
            Phase::Connecting => Phase::Connecting,
            Phase::Registered => Phase::Registered,
            Phase::Draining => Phase::Draining,
            Phase::Closed => Phase::Closed,
        }
    }
}

} // verus!
