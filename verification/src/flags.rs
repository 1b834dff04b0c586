//! The bit sets of `mmap`: protection bits and mapping flags as the caller
//! passes them, and the permissions that a mapping is installed with.

use vstd::prelude::*;

verus! {

/// Page can be read.
pub const PROT_READ: i32 = 1;

/// Page can be written.
pub const PROT_WRITE: i32 = 2;

/// Page can be executed.
pub const PROT_EXEC: i32 = 4;

/// Share changes.
pub const MAP_SHARED: i32 = 1;

/// Changes are private; copy pages on write.
pub const MAP_PRIVATE: i32 = 2;

/// Map address must be exactly as requested, no matter whether it is
/// available.
pub const MAP_FIXED: i32 = 16;

/// Don't use a file.
pub const MAP_ANONYMOUS: i32 = 32;

/// Don't check for reservations.
pub const MAP_NORESERVE: i32 = 0x4000;

/// Allocation is for a stack.
pub const MAP_STACK: i32 = 0x20000;

/// All protection bits.
pub const PROT_ALL: i32 = 7;

/// All mapping flags.
pub const MAP_ALL: i32 = 0x24033;

/// The mapping is readable.
pub const PERM_READ: usize = 1;

/// The mapping is writable.
pub const PERM_WRITE: usize = 2;

/// The mapping is executable.
pub const PERM_EXECUTE: usize = 4;

/// The mapping is accessible from user mode.
pub const PERM_USER: usize = 8;

/// Protection asked for by a caller of `mmap`.
#[derive(Clone, Copy, Debug, PartialEq, Eq, Structural)]
pub struct MmapProt {
    pub read: bool,
    pub write: bool,
    pub execute: bool,
}

/// Flags given by a caller of `mmap`.
#[derive(Clone, Copy, Debug, PartialEq, Eq, Structural)]
pub struct MmapFlags {
    pub shared: bool,
    pub private: bool,
    pub fixed: bool,
    pub anonymous: bool,
    pub noreserve: bool,
    pub stack: bool,
}

/// Permissions that a mapping is installed with.
#[derive(Clone, Copy, Debug, PartialEq, Eq, Structural)]
pub struct MappingFlags {
    pub read: bool,
    pub write: bool,
    pub execute: bool,
    pub user: bool,
}

/// 1 if `b` holds, else 0.
pub open spec fn bit(b: bool) -> int {
    if b {
        1
    } else {
        0
    }
}

impl MmapProt {
    /// No bit outside the three protection bits is set in `bits`.
    pub open spec fn known(bits: i32) -> bool {
        bits & !PROT_ALL == 0
    }

    /// The protection that the bits of `bits` spell.
    pub open spec fn of_bits(bits: i32) -> MmapProt {
        MmapProt {
            read: bits & PROT_READ != 0,
            write: bits & PROT_WRITE != 0,
            execute: bits & PROT_EXEC != 0,
        }
    }

    /// The number whose bits spell this protection.
    pub open spec fn bits_spec(self) -> int {
        PROT_READ * bit(self.read) + PROT_WRITE * bit(self.write) + PROT_EXEC * bit(self.execute)
    }

    /// Reads a protection from raw bits; bits that mean nothing are refused.
    pub fn from_bits(bits: i32) -> (r: Option<MmapProt>)
        ensures
            r == if MmapProt::known(bits) {
                Some(MmapProt::of_bits(bits))
            } else {
                None
            },
    {
        if bits & !PROT_ALL != 0 {
            return None;
        }
        Some(
            MmapProt {
                read: bits & PROT_READ != 0,
                write: bits & PROT_WRITE != 0,
                execute: bits & PROT_EXEC != 0,
            },
        )
    }

    /// The raw bits of this protection.
    pub fn bits(self) -> (r: i32)
        ensures
            r == self.bits_spec(),
    {
        let mut r: i32 = 0;
        if self.read {
            r = r + PROT_READ;
        }
        if self.write {
            r = r + PROT_WRITE;
        }
        if self.execute {
            r = r + PROT_EXEC;
        }
        r
    }

    /// The numbers that spell a protection are those from 0 to 7, and a
    /// protection read from its own bits is itself.
    pub proof fn lemma_bits_round_trip(self)
        ensures
            0 <= self.bits_spec() <= 7,
            MmapProt::known(self.bits_spec() as i32),
            MmapProt::of_bits(self.bits_spec() as i32) == self,
    {
        let b: i32 = self.bits_spec() as i32;
        assert(0 <= b <= 7 ==> b & !7i32 == 0) by (bit_vector);
        assert(b == 0 || b == 2 || b == 4 || b == 6 ==> b & 1i32 == 0) by (bit_vector);
        assert(b == 1 || b == 3 || b == 5 || b == 7 ==> b & 1i32 != 0) by (bit_vector);
        assert(b == 0 || b == 1 || b == 4 || b == 5 ==> b & 2i32 == 0) by (bit_vector);
        assert(b == 2 || b == 3 || b == 6 || b == 7 ==> b & 2i32 != 0) by (bit_vector);
        assert(b == 0 || b == 1 || b == 2 || b == 3 ==> b & 4i32 == 0) by (bit_vector);
        assert(b == 4 || b == 5 || b == 6 || b == 7 ==> b & 4i32 != 0) by (bit_vector);
    }

    /// Known bits are the bits of the protection that they spell.
    pub proof fn lemma_known_bits(bits: i32)
        requires
            MmapProt::known(bits),
        ensures
            MmapProt::of_bits(bits).bits_spec() == bits,
            0 <= bits <= 7,
    {
        assert(bits & !7i32 == 0 ==> bits == (if bits & 1i32 != 0 {
            1i32
        } else {
            0i32
        }) + (if bits & 2i32 != 0 {
            2i32
        } else {
            0i32
        }) + (if bits & 4i32 != 0 {
            4i32
        } else {
            0i32
        })) by (bit_vector);
    }
}

impl MmapFlags {
    /// No bit outside the six mapping flags is set in `bits`.
    pub open spec fn known(bits: i32) -> bool {
        bits & !MAP_ALL == 0
    }

    /// The flags that the bits of `bits` spell.
    pub open spec fn of_bits(bits: i32) -> MmapFlags {
        MmapFlags {
            shared: bits & MAP_SHARED != 0,
            private: bits & MAP_PRIVATE != 0,
            fixed: bits & MAP_FIXED != 0,
            anonymous: bits & MAP_ANONYMOUS != 0,
            noreserve: bits & MAP_NORESERVE != 0,
            stack: bits & MAP_STACK != 0,
        }
    }

    /// The number whose bits spell these flags.
    pub open spec fn bits_spec(self) -> int {
        MAP_SHARED * bit(self.shared) + MAP_PRIVATE * bit(self.private) + MAP_FIXED * bit(
            self.fixed,
        ) + MAP_ANONYMOUS * bit(self.anonymous) + MAP_NORESERVE * bit(self.noreserve) + MAP_STACK
            * bit(self.stack)
    }

    /// Reads flags from raw bits; bits that mean nothing are refused.
    pub fn from_bits(bits: i32) -> (r: Option<MmapFlags>)
        ensures
            r == if MmapFlags::known(bits) {
                Some(MmapFlags::of_bits(bits))
            } else {
                None
            },
    {
        if bits & !MAP_ALL != 0 {
            return None;
        }
        Some(
            MmapFlags {
                shared: bits & MAP_SHARED != 0,
                private: bits & MAP_PRIVATE != 0,
                fixed: bits & MAP_FIXED != 0,
                anonymous: bits & MAP_ANONYMOUS != 0,
                noreserve: bits & MAP_NORESERVE != 0,
                stack: bits & MAP_STACK != 0,
            },
        )
    }

    /// The raw bits of these flags.
    pub fn bits(self) -> (r: i32)
        ensures
            r == self.bits_spec(),
    {
        let mut r: i32 = 0;
        if self.shared {
            r = r + MAP_SHARED;
        }
        if self.private {
            r = r + MAP_PRIVATE;
        }
        if self.fixed {
            r = r + MAP_FIXED;
        }
        if self.anonymous {
            r = r + MAP_ANONYMOUS;
        }
        if self.noreserve {
            r = r + MAP_NORESERVE;
        }
        if self.stack {
            r = r + MAP_STACK;
        }
        r
    }

    /// The numbers that spell flags have no other bits set, and flags read
    /// from their own bits are themselves.
    pub proof fn lemma_bits_round_trip(self)
        ensures
            0 <= self.bits_spec() <= MAP_ALL,
            MmapFlags::known(self.bits_spec() as i32),
            MmapFlags::of_bits(self.bits_spec() as i32) == self,
    {
        let b: i32 = self.bits_spec() as i32;
        let s: i32 = bit(self.shared) as i32;
        let p: i32 = bit(self.private) as i32;
        let f: i32 = bit(self.fixed) as i32;
        let a: i32 = bit(self.anonymous) as i32;
        let n: i32 = bit(self.noreserve) as i32;
        let k: i32 = bit(self.stack) as i32;
        assert(b & !0x24033i32 == 0 && (b & 1i32 != 0 <==> s == 1) && (b & 2i32 != 0 <==> p == 1)
            && (b & 16i32 != 0 <==> f == 1) && (b & 32i32 != 0 <==> a == 1) && (b & 0x4000i32 != 0
            <==> n == 1) && (b & 0x20000i32 != 0 <==> k == 1)) by (bit_vector)
            requires
                0 <= s <= 1,
                0 <= p <= 1,
                0 <= f <= 1,
                0 <= a <= 1,
                0 <= n <= 1,
                0 <= k <= 1,
                b == s + 2 * p + 16 * f + 32 * a + 0x4000 * n + 0x20000 * k,
        ;
    }

    /// Known bits are the bits of the flags that they spell.
    pub proof fn lemma_known_bits(bits: i32)
        requires
            MmapFlags::known(bits),
        ensures
            MmapFlags::of_bits(bits).bits_spec() == bits,
            0 <= bits <= MAP_ALL,
    {
        assert(bits & !0x24033i32 == 0 ==> bits == (if bits & 1i32 != 0 {
            1i32
        } else {
            0i32
        }) + (if bits & 2i32 != 0 {
            2i32
        } else {
            0i32
        }) + (if bits & 16i32 != 0 {
            16i32
        } else {
            0i32
        }) + (if bits & 32i32 != 0 {
            32i32
        } else {
            0i32
        }) + (if bits & 0x4000i32 != 0 {
            0x4000i32
        } else {
            0i32
        }) + (if bits & 0x20000i32 != 0 {
            0x20000i32
        } else {
            0i32
        })) by (bit_vector);
    }
}

impl MappingFlags {
    /// The permissions that a protection is installed as: always accessible
    /// from user mode, and readable, writable and executable as asked.
    pub open spec fn of_prot(prot: MmapProt) -> MappingFlags {
        MappingFlags { read: prot.read, write: prot.write, execute: prot.execute, user: true }
    }

    /// The number whose bits spell these permissions.
    pub open spec fn bits_spec(self) -> int {
        PERM_READ * bit(self.read) + PERM_WRITE * bit(self.write) + PERM_EXECUTE * bit(
            self.execute,
        ) + PERM_USER * bit(self.user)
    }

    /// The raw bits of these permissions.
    pub fn bits(self) -> (r: usize)
        ensures
            r == self.bits_spec(),
    {
        let mut r: usize = 0;
        if self.read {
            r = r + PERM_READ;
        }
        if self.write {
            r = r + PERM_WRITE;
        }
        if self.execute {
            r = r + PERM_EXECUTE;
        }
        if self.user {
            r = r + PERM_USER;
        }
        r
    }
}

impl From<MmapProt> for MappingFlags {
    fn from(value: MmapProt) -> (r: MappingFlags) {
        let mut flags = MappingFlags { read: false, write: false, execute: false, user: true };
        if value.read {
            flags.read = true;
        }
        if value.write {
            flags.write = true;
        }
        if value.execute {
            flags.execute = true;
        }
        flags
    }
}

impl vstd::std_specs::convert::FromSpecImpl<MmapProt> for MappingFlags {
    open spec fn obeys_from_spec() -> bool {
        true
    }

    open spec fn from_spec(value: MmapProt) -> MappingFlags {
        MappingFlags::of_prot(value)
    }
}

} // verus!
