//! A standalone breakpoint table keyed by address, with per-entry enable
//! flags. Each address is held at most once: adding a present address is
//! refused, removing an absent one reports that nothing was found.

use vstd::prelude::*;

verus! {

/// One breakpoint.
#[derive(Debug, Clone, Copy, PartialEq, Eq, Structural)]
pub struct Breakpoint {
    /// The address it arms.
    pub address: u64,
    /// Whether it currently stops execution.
    pub enabled: bool,
}

/// Whether some entry of `s` arms `addr`.
pub open spec fn has_addr(s: Seq<Breakpoint>, addr: u64) -> bool {
    exists|i: int| 0 <= i < s.len() && s[i].address == addr
}

/// Whether some entry of `s` arms `addr` and is enabled.
pub open spec fn has_enabled_addr(s: Seq<Breakpoint>, addr: u64) -> bool {
    exists|i: int| 0 <= i < s.len() && s[i].address == addr && s[i].enabled
}

/// The breakpoint table.
#[derive(Debug)]
pub struct BreakpointManager {
    breakpoints: Vec<Breakpoint>,
}

impl BreakpointManager {
    /// The entries, in insertion order.
    pub closed spec fn view(&self) -> Seq<Breakpoint> {
        self.breakpoints@
    }

    /// Every address appears at most once.
    pub closed spec fn wf(&self) -> bool {
        forall|i: int, j: int|
            0 <= i < self.view().len() && 0 <= j < self.view().len() && i != j ==> (
            #[trigger] self.view()[i]).address != (#[trigger] self.view()[j]).address
    }

    /// An empty table.
    pub fn new() -> (r: BreakpointManager)
        ensures
            r.wf(),
            r.view() == Seq::<Breakpoint>::empty(),
    {
        BreakpointManager { breakpoints: Vec::new() }
    }

    /// Find the index of the entry arming `addr`, if one exists.
    fn find(&self, addr: u64) -> (r: Option<usize>)
        ensures
            match r {
                Some(i) => i < self.view().len() && self.view()[i as int].address == addr,
                None => !has_addr(self.view(), addr),
            },
    {
        let n = self.breakpoints.len();
        let mut i: usize = 0;
        while i < n
            invariant
                n == self.view().len(),
                i <= n,
                forall|j: int| 0 <= j < i ==> (#[trigger] self.view()[j]).address != addr,
            decreases n - i,
        {
            if self.breakpoints[i].address == addr {
                return Some(i);
            }
            i = i + 1;
        }
        None
    }

    /// Add an enabled breakpoint at `addr`; refused when one is already
    /// there, so the same address is never held twice.
    pub fn add_breakpoint(&mut self, address: u64) -> (r: bool)
        requires
            old(self).wf(),
        ensures
            final(self).wf(),
            r == !has_addr(old(self).view(), address),
            r ==> final(self).view() == old(self).view().push(
                Breakpoint { address, enabled: true },
            ),
            !r ==> final(self).view() == old(self).view(),
            has_addr(final(self).view(), address),
    {
        match self.find(address) {
            Some(_) => false,
            None => {
                self.breakpoints.push(Breakpoint { address, enabled: true });
                proof {
                    let after = self.view();
                    assert(after[after.len() - 1].address == address);
                    assert forall|p: int, q: int|
                        0 <= p < after.len() && 0 <= q < after.len() && p != q implies (
                    #[trigger] after[p]).address != (#[trigger] after[q]).address by {
                        let before = old(self).view();
                        if p < before.len() && q < before.len() {
                            assert(before[p].address != before[q].address);
                        }
                    }
                }
                true
            },
        }
    }

    /// Remove the breakpoint at `addr`; reports whether one was found.
    pub fn remove_breakpoint(&mut self, address: u64) -> (r: bool)
        requires
            old(self).wf(),
        ensures
            final(self).wf(),
            r == has_addr(old(self).view(), address),
            !has_addr(final(self).view(), address),
            r ==> exists|i: int|
                0 <= i < old(self).view().len() && old(self).view()[i].address == address && final(self).view() == old(self).view().remove(i),
            !r ==> final(self).view() == old(self).view(),
    {
        match self.find(address) {
            Some(i) => {
                self.breakpoints.remove(i);
                proof {
                    let before = old(self).view();
                    let after = self.view();
                    assert(after =~= before.remove(i as int));
                    assert forall|p: int| 0 <= p < after.len() implies (#[trigger] after[p])
                        == (if p < i {
                        before[p]
                    } else {
                        before[p + 1]
                    }) by {
                        assert(after[p] == before.remove(i as int)[p]);
                    }
                    assert forall|p: int, q: int|
                        0 <= p < after.len() && 0 <= q < after.len() && p != q implies (
                    #[trigger] after[p]).address != (#[trigger] after[q]).address by {
                        let p0 = if p < i {
                            p
                        } else {
                            p + 1
                        };
                        let q0 = if q < i {
                            q
                        } else {
                            q + 1
                        };
                        assert(before[p0].address != before[q0].address);
                    }
                    assert(!has_addr(after, address)) by {
                        if has_addr(after, address) {
                            let p = choose|p: int|
                                0 <= p < after.len() && after[p].address == address;
                            let p0 = if p < i {
                                p
                            } else {
                                p + 1
                            };
                            assert(before[p0].address != before[i as int].address);
                        }
                    }
                }
                true
            },
            None => false,
        }
    }

    /// Whether an enabled breakpoint arms `addr`.
    pub fn has_breakpoint(&self, address: u64) -> (r: bool)
        requires
            self.wf(),
        ensures
            r == has_enabled_addr(self.view(), address),
    {
        match self.find(address) {
            Some(i) => {
                let e = self.breakpoints[i].enabled;
                proof {
                    if e {
                        assert(has_enabled_addr(self.view(), address));
                    } else {
                        if has_enabled_addr(self.view(), address) {
                            let j = choose|j: int|
                                0 <= j < self.view().len() && self.view()[j].address == address
                                    && self.view()[j].enabled;
                            assert(j == i);
                        }
                    }
                }
                e
            },
            None => {
                proof {
                    if has_enabled_addr(self.view(), address) {
                        let j = choose|j: int|
                            0 <= j < self.view().len() && self.view()[j].address == address
                                && self.view()[j].enabled;
                        assert(has_addr(self.view(), address));
                    }
                }
                false
            },
        }
    }

    /// Enable or disable the breakpoint at `addr`; reports whether one was
    /// found.
    pub fn set_breakpoint_enabled(&mut self, address: u64, enabled: bool) -> (r: bool)
        requires
            old(self).wf(),
        ensures
            final(self).wf(),
            r == has_addr(old(self).view(), address),
            r ==> exists|i: int|
                0 <= i < old(self).view().len() && old(self).view()[i].address == address && final(self).view() == old(self).view().update(
                    i,
                    Breakpoint { address, enabled },
                ),
            !r ==> final(self).view() == old(self).view(),
    {
        match self.find(address) {
            Some(i) => {
                self.breakpoints.set(i, Breakpoint { address, enabled });
                proof {
                    let before = old(self).view();
                    let after = self.view();
                    assert forall|p: int, q: int|
                        0 <= p < after.len() && 0 <= q < after.len() && p != q implies (
                    #[trigger] after[p]).address != (#[trigger] after[q]).address by {
                        assert(before[p].address != before[q].address);
                        assert(before[i as int].address == address);
                    }
                }
                true
            },
            None => false,
        }
    }

    /// All entries, in insertion order.
    pub fn get_all_breakpoints(&self) -> (r: Vec<Breakpoint>)
        ensures
            r@ == self.view(),
    {
        let n = self.breakpoints.len();
        let mut out: Vec<Breakpoint> = Vec::new();
        let mut i: usize = 0;
        while i < n
            invariant
                n == self.view().len(),
                i <= n,
                out@ == self.view().take(i as int),
            decreases n - i,
        {
            out.push(self.breakpoints[i]);
            proof {
                assert(out@ =~= self.view().take(i + 1));
            }
            i = i + 1;
        }
        proof {
            assert(self.view().take(n as int) =~= self.view());
        }
        out
    }
}

} // verus!
