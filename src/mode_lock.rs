//! The admission rule of the framebuffer lock: any number of holders at
//! once, as long as they all use the framebuffer the same way.
use vstd::prelude::*;
use crate::framebuffer::FbAccess;

verus! {

/// Who holds the lock: how many, and in which mode.
#[derive(Clone, Copy, Debug, PartialEq, Eq, Structural)]
pub struct ModeState {
    pub mode: FbAccess,
    pub holders: usize,
}

impl ModeState {
    pub fn new() -> (r: Self)
        ensures
            r.holders == 0,
    {
        ModeState { mode: FbAccess::Decoding, holders: 0 }
    }

    /// Whether a requester in mode `m` may enter now.
    pub open spec fn admits(self, m: FbAccess) -> bool {
        self.holders == 0 || self.mode == m
    }

    /// Enters in mode `m` if the lock admits it; otherwise the requester
    /// has to wait and nothing changes.
    pub fn try_acquire(&mut self, m: FbAccess) -> (r: bool)
        requires
            old(self).holders < usize::MAX,
        ensures
            r == old(self).admits(m),
            r ==> *final(self) == (ModeState { mode: m, holders: (old(self).holders + 1) as usize }),
            !r ==> *final(self) == *old(self),
    {
        if self.holders == 0 || self.mode == m {
            self.mode = m;
            self.holders = self.holders + 1;
            true
        } else {
            false
        }
    }

    /// Leaves the lock; true when the last holder left and waiters should
    /// be woken.
    pub fn release(&mut self) -> (r: bool)
        requires
            old(self).holders > 0,
        ensures
            final(self).mode == old(self).mode,
            final(self).holders == old(self).holders - 1,
            r == (final(self).holders == 0),
    {
        self.holders = self.holders - 1;
        self.holders == 0
    }
}

/// While the lock is held in mode `a`, a requester in mode `b` is kept out
/// exactly when `b` differs from `a`; requesters in mode `a` keep entering,
/// however many already hold it.
pub proof fn lemma_mode_exclusion(s: ModeState, a: FbAccess, b: FbAccess)
    requires
        s.holders > 0,
        s.mode == a,
    ensures
        !s.admits(b) <==> a != b,
        s.holders < usize::MAX ==> (ModeState { mode: a, holders: (s.holders + 1) as usize }).admits(a),
{
}

} // verus!
