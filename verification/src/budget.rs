//! The accounting of a bounded cursor: how many bytes have been transferred,
//! and the ceiling that the count may not pass. It decides, before every
//! transfer, whether the transfer may happen; whoever moves the bytes
//! reports back what was moved.

use crate::result::{fails_with, Fault, ReadError};
use vstd::prelude::*;

verus! {

/// The bytes to skip from position `pos` to reach the next multiple of
/// `align`: zero when `pos` is already aligned.
pub open spec fn alignment_pad(pos: nat, align: nat) -> nat
    recommends
        align > 0,
{
    ((align - pos % align) % (align as int)) as nat
}

/// A count of bytes transferred and an optional ceiling on it.
#[derive(Clone, Copy, Debug)]
pub struct Budget {
    pub(crate) total_bytes_read: usize,
    pub(crate) limit_bytes: Option<u128>,
}

/// A ceiling that was set aside on entering a scope, to be put back on
/// leaving it.
#[derive(Clone, Copy, Debug)]
pub struct SavedCeiling {
    limit_bytes: Option<u128>,
}

impl SavedCeiling {
    /// The ceiling that was set aside.
    pub closed spec fn ceiling(&self) -> Option<nat> {
        match self.limit_bytes {
            Some(limit) => Some(limit as nat),
            None => None,
        }
    }
}

impl Budget {
    #[verifier::type_invariant]
    pub(crate) open spec fn inv(&self) -> bool {
        self.limit_bytes matches Some(limit) ==> limit <= self.total_bytes_read + usize::MAX
    }

    /// How many bytes have been transferred.
    pub open(crate) spec fn pos(&self) -> nat {
        self.total_bytes_read as nat
    }

    /// The ceiling on the count, if one is set.
    pub open(crate) spec fn ceiling(&self) -> Option<nat> {
        match self.limit_bytes {
            Some(limit) => Some(limit as nat),
            None => None,
        }
    }

    /// The budget covers `n` more bytes.
    pub open spec fn allows(&self, n: nat) -> bool {
        self.ceiling() matches Some(c) ==> self.pos() + n <= c
    }

    /// How many bytes the budget still covers (zero without a ceiling).
    pub open spec fn remaining(&self) -> nat {
        match self.ceiling() {
            Some(c) => if c >= self.pos() {
                (c - self.pos()) as nat
            } else {
                0
            },
            None => 0,
        }
    }

    /// A budget with nothing transferred and no ceiling.
    pub fn new() -> (b: Self)
        ensures
            b.pos() == 0,
            b.ceiling() is None,
    {
        Budget { total_bytes_read: 0, limit_bytes: None }
    }

    /// A budget with nothing transferred and the ceiling `limit`.
    pub fn with_ceiling(limit: usize) -> (b: Self)
        ensures
            b.pos() == 0,
            b.ceiling() == Some(limit as nat),
    {
        Budget { total_bytes_read: 0, limit_bytes: Some(limit as u128) }
    }

    /// How many bytes have been transferred.
    pub fn total_bytes_read(&self) -> (n: usize)
        ensures
            n == self.pos(),
    {
        self.total_bytes_read
    }

    /// Checks that the budget covers `len` more bytes. To be asked before
    /// every transfer; a refused transfer must not happen, not even in part.
    pub fn check_size(&self, len: usize) -> (r: Result<(), ReadError>)
        ensures
            self.allows(len as nat) ==> r is Ok,
            !self.allows(len as nat) ==> fails_with(
                r,
                Fault::NotEnoughBytes { expected: len as nat, remaining: self.remaining() },
            ),
    {
        proof {
            use_type_invariant(self);
        }
        if let Some(limit) = self.limit_bytes {
            let total = self.total_bytes_read as u128;
            if total + len as u128 > limit {
                let remaining = if limit >= total {
                    (limit - total) as usize
                } else {
                    0
                };
                return Err(ReadError::not_enough_bytes(len, remaining));
            }
        }
        Ok(())
    }

    /// Records that `len` bytes were transferred.
    pub fn advance(&mut self, len: usize)
        requires
            old(self).pos() + len <= usize::MAX,
        ensures
            final(self).pos() == old(self).pos() + len,
            final(self).ceiling() == old(self).ceiling(),
        no_unwind
    {
        proof {
            use_type_invariant(&*self);
        }
        self.total_bytes_read = self.total_bytes_read + len;
    }

    /// Enters a scope of exactly `len` bytes: sets the ceiling `len` bytes
    /// past the count and hands back the ceiling that was in force.
    pub fn enter_scope(&mut self, len: usize) -> (saved: SavedCeiling)
        ensures
            final(self).pos() == old(self).pos(),
            final(self).ceiling() == Some((old(self).pos() + len) as nat),
            saved.ceiling() == old(self).ceiling(),
            saved.ceiling() matches Some(c) ==> c <= old(self).pos() + usize::MAX,
        no_unwind
    {
        proof {
            use_type_invariant(&*self);
        }
        let saved = SavedCeiling { limit_bytes: self.limit_bytes };
        self.limit_bytes = Some(self.total_bytes_read as u128 + len as u128);
        saved
    }

    /// Leaves a scope: puts back the ceiling that was set aside on entering
    /// it. A ceiling that was set aside at a count beyond the present one
    /// belongs to no scope that is open; it is not put back, and the answer
    /// is `false`.
    pub fn exit_scope(&mut self, saved: SavedCeiling) -> (restored: bool)
        ensures
            final(self).pos() == old(self).pos(),
            restored <==> (saved.ceiling() matches Some(c) ==> c <= old(self).pos() + usize::MAX),
            restored ==> final(self).ceiling() == saved.ceiling(),
            !restored ==> final(self).ceiling() == old(self).ceiling(),
        no_unwind
    {
        proof {
            use_type_invariant(&*self);
        }
        if let Some(limit) = saved.limit_bytes {
            if limit > self.total_bytes_read as u128 + usize::MAX as u128 {
                return false;
            }
        }
        self.limit_bytes = saved.limit_bytes;
        true
    }

    /// The bytes to skip to reach the next multiple of `align`.
    pub fn padding(&self, align: usize) -> (pad: usize)
        requires
            align > 0,
        ensures
            pad == alignment_pad(self.pos(), align as nat),
    {
        let offset = self.total_bytes_read % align;
        proof {
            if offset != 0 {
                vstd::arithmetic::div_mod::lemma_small_mod((align - offset) as nat, align as nat);
            } else {
                vstd::arithmetic::div_mod::lemma_mod_self_0(align as int);
            }
        }
        if offset != 0 {
            align - offset
        } else {
            0
        }
    }
}

} // verus!
