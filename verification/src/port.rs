//! Spawning of per-port device tasks: each connected port gets its task
//! at most once. The connection status is a hardware reading the caller
//! supplies; the decision and the spawn bookkeeping live here.

use vstd::prelude::*;

verus! {

/// The error of trying to spawn a task for a port with no device on it.
#[derive(Debug, Clone, Copy, PartialEq, Eq, Structural)]
pub struct PortNotConnected;

/// Which ports already have their task spawned, indexed by port number.
pub struct SpawnStatus {
    spawned: Vec<bool>,
}

impl SpawnStatus {
    /// The recorded flags, by port number.
    pub closed spec fn view(&self) -> Seq<bool> {
        self.spawned@
    }

    /// No port spawned yet; ports are numbered 1 up to and including
    /// `max_ports`.
    pub fn new(max_ports: u8) -> (r: SpawnStatus)
        ensures
            r@.len() == max_ports + 1,
            forall|i: int| 0 <= i < r@.len() ==> !r@[i],
    {
        let mut spawned: Vec<bool> = Vec::new();
        let n = (max_ports as usize) + 1;
        let mut i: usize = 0;
        while i < n
            invariant
                i <= n,
                spawned@.len() == i,
                forall|k: int| 0 <= k < i ==> !spawned@[k],
            decreases n - i,
        {
            spawned.push(false);
            i = i + 1;
        }
        SpawnStatus { spawned }
    }

    /// Whether the port's task was already spawned.
    pub fn spawned(&self, port_number: u8) -> (r: bool)
        requires
            port_number < self@.len(),
        ensures
            r == self@[port_number as int],
    {
        self.spawned[port_number as usize]
    }

    /// Record that the port's task is spawned.
    pub fn mark_as_spawned(&mut self, port_number: u8)
        requires
            port_number < old(self)@.len(),
        ensures
            final(self)@ == old(self)@.update(port_number as int, true),
    {
        self.spawned[port_number as usize] = true;
    }

    /// A task may be spawned for a connected port whose task was not
    /// spawned yet.
    pub fn spawnable(&self, port_number: u8, connected: bool) -> (r: bool)
        requires
            port_number < self@.len(),
        ensures
            r == (connected && !self@[port_number as int]),
    {
        connected && !self.spawned(port_number)
    }

    /// Decide whether the port gets its task: mark it spawned and report
    /// success exactly when it is connected and not yet served; an
    /// unconnected port is reported as such, and a port already served is
    /// also not spawned again.
    pub fn try_spawn(&mut self, port_number: u8, connected: bool) -> (r: Result<
        (),
        PortNotConnected,
    >)
        requires
            port_number < old(self)@.len(),
        ensures
            match r {
                Ok(()) => {
                    &&& connected
                    &&& !old(self)@[port_number as int]
                    &&& final(self)@ == old(self)@.update(port_number as int, true)
                },
                Err(PortNotConnected) => {
                    &&& !(connected && !old(self)@[port_number as int])
                    &&& final(self)@ == old(self)@
                },
            },
    {
        if self.spawnable(port_number, connected) {
            self.mark_as_spawned(port_number);
            Ok(())
        } else {
            Err(PortNotConnected)
        }
    }

    /// Try every port against its connection reading, in port order; each
    /// connected, unserved port is marked. Returns how many tasks were
    /// spawned.
    pub fn spawn_all_connected_ports(&mut self, connected: &Vec<bool>) -> (n: usize)
        requires
            connected@.len() == old(self)@.len(),
            old(self)@.len() <= 256,
        ensures
            final(self)@.len() == old(self)@.len(),
            forall|i: int|
                0 <= i < final(self)@.len() ==> #[trigger] final(self)@[i] == (old(self)@[i] || (
                i >= 1 && connected@[i])),
    {
        let mut n: usize = 0;
        let mut port: usize = 1;
        while port < connected.len()
            invariant
                connected@.len() == self@.len(),
                self@.len() == old(self)@.len(),
                self@.len() <= 256,
                1 <= port,
                n <= port,
                forall|i: int|
                    0 <= i < self@.len() ==> #[trigger] self@[i] == (old(self)@[i] || (1 <= i
                        < port && connected@[i])),
            decreases connected@.len() - port,
        {
            let c = connected[port];
            let ghost prev = self@;
            match self.try_spawn(port as u8, c) {
                Ok(()) => {
                    n = n + 1;
                },
                Err(PortNotConnected) => {},
            }
            proof {
                assert(port < 256);
                assert((port as u8) as int == port as int);
                assert forall|i: int|
                    0 <= i < self@.len() implies #[trigger] self@[i] == (old(self)@[i] || (1 <= i
                    < port + 1 && connected@[i])) by {
                    assert((port as u8) as int == port as int);
                    assert(prev[i] == (old(self)@[i] || (1 <= i < port && connected@[i])));
                    if i == port {
                        if c && !prev[i] {
                            assert(self@ == prev.update(port as int, true));
                            assert(self@[i]);
                        } else {
                            assert(self@[i] == prev[i]);
                        }
                    } else {
                        if c && !prev[port as int] {
                            assert(self@ == prev.update(port as int, true));
                        }
                        assert(self@[i] == prev[i]);
                    }
                }
            }
            port = port + 1;
        }
        n
    }
}

} // verus!
