//! The register file: sixteen 8-bit general-purpose registers and the 16-bit
//! index register.

use vstd::prelude::*;

verus! {

/// Name of one of the sixteen general-purpose registers.
///
/// `VF` doubles as the flag register: several instructions write a carry,
/// borrow or collision bit into it. It is otherwise an ordinary register.
#[derive(Debug, Clone, Copy, PartialEq, Eq, Structural)]
pub enum Register {
    V0,
    V1,
    V2,
    V3,
    V4,
    V5,
    V6,
    V7,
    V8,
    V9,
    VA,
    VB,
    VC,
    VD,
    VE,
    VF,
}

impl Register {
    /// Position of the register in the register file, `0` for `V0` up to
    /// `15` for `VF`.
    pub open spec fn ordinal(self) -> int {
        match self {
            Register::V0 => 0,
            Register::V1 => 1,
            Register::V2 => 2,
            Register::V3 => 3,
            Register::V4 => 4,
            Register::V5 => 5,
            Register::V6 => 6,
            Register::V7 => 7,
            Register::V8 => 8,
            Register::V9 => 9,
            Register::VA => 10,
            Register::VB => 11,
            Register::VC => 12,
            Register::VD => 13,
            Register::VE => 14,
            Register::VF => 15,
        }
    }

    /// The register at position `i`; `VF` for every `i` above 14.
    pub open spec fn at(i: int) -> Register {
        if i <= 0 {
            Register::V0
        } else if i == 1 {
            Register::V1
        } else if i == 2 {
            Register::V2
        } else if i == 3 {
            Register::V3
        } else if i == 4 {
            Register::V4
        } else if i == 5 {
            Register::V5
        } else if i == 6 {
            Register::V6
        } else if i == 7 {
            Register::V7
        } else if i == 8 {
            Register::V8
        } else if i == 9 {
            Register::V9
        } else if i == 10 {
            Register::VA
        } else if i == 11 {
            Register::VB
        } else if i == 12 {
            Register::VC
        } else if i == 13 {
            Register::VD
        } else if i == 14 {
            Register::VE
        } else {
            Register::VF
        }
    }

    /// A register has its ordinal in `0..16` and is the register at its
    /// ordinal.
    pub proof fn lemma_ordinal(self)
        ensures
            0 <= self.ordinal() < 16,
            Register::at(self.ordinal()) == self,
    {
    }

    /// The register at `i` has the ordinal `i`, for `i` in `0..16`.
    pub proof fn lemma_at(i: int)
        requires
            0 <= i < 16,
        ensures
            Register::at(i).ordinal() == i,
    {
    }

    /// What `lemma_ordinal` says, of every register at once.
    pub proof fn lemma_ordinals()
        ensures
            forall|reg: Register| 0 <= #[trigger] reg.ordinal() < 16,
            forall|reg: Register| Register::at(#[trigger] reg.ordinal()) == reg,
    {
    }

    /// Position of the register in the register file.
    pub fn index(self) -> (i: usize)
        ensures
            i == self.ordinal(),
            i < 16,
    {
        match self {
            Register::V0 => 0,
            Register::V1 => 1,
            Register::V2 => 2,
            Register::V3 => 3,
            Register::V4 => 4,
            Register::V5 => 5,
            Register::V6 => 6,
            Register::V7 => 7,
            Register::V8 => 8,
            Register::V9 => 9,
            Register::VA => 10,
            Register::VB => 11,
            Register::VC => 12,
            Register::VD => 13,
            Register::VE => 14,
            Register::VF => 15,
        }
    }

    /// The register at position `val`, or `None` when `val` is not below 16.
    pub fn from_u16(val: u16) -> (r: Option<Register>)
        ensures
            val < 16 ==> r == Some(Register::at(val as int)),
            val >= 16 ==> r is None,
    {
        Some(
            match val {
                0 => Register::V0,
                1 => Register::V1,
                2 => Register::V2,
                3 => Register::V3,
                4 => Register::V4,
                5 => Register::V5,
                6 => Register::V6,
                7 => Register::V7,
                8 => Register::V8,
                9 => Register::V9,
                10 => Register::VA,
                11 => Register::VB,
                12 => Register::VC,
                13 => Register::VD,
                14 => Register::VE,
                15 => Register::VF,
                _ => {
                    return None;
                },
            },
        )
    }

    /// The registers `V0` up to and including `max`, in ascending order.
    pub fn iter_until(max: Register) -> (regs: Vec<Register>)
        ensures
            regs@.len() == max.ordinal() + 1,
            forall|i: int| 0 <= i < regs@.len() ==> regs@[i] == Register::at(i),
    {
        let count: usize = max.index() + 1;
        let mut regs: Vec<Register> = Vec::new();
        let mut i: u16 = 0;
        while (i as usize) < count
            invariant
                count <= 16,
                i <= count,
                regs@.len() == i,
                forall|j: int| 0 <= j < i ==> regs@[j] == Register::at(j),
            decreases count - i,
        {
            match Register::from_u16(i) {
                Some(reg) => regs.push(reg),
                None => {},
            }
            i = i + 1;
        }
        regs
    }
}

/// The register file.
///
/// Every register always holds a value; a fresh file holds zero everywhere.
#[derive(Debug)]
pub struct Registers {
    /// The index register, used to address memory.
    pub index: u16,
    /// The general-purpose registers, by ordinal.
    pub v: [u8; 16],
}

impl Registers {
    /// The values of `V0`..`VF`, by ordinal: a sequence of length 16.
    pub open spec fn values(&self) -> Seq<u8> {
        self.v@
    }

    /// A register file with every register, and the index register, at zero.
    pub fn new() -> (regs: Registers)
        ensures
            regs.index == 0,
            regs.values() == Seq::new(16, |i: int| 0u8),
    {
        Registers { index: 0, v: [0u8; 16] }
    }

    /// The value held by `reg`.
    pub fn get(&self, reg: Register) -> (val: u8)
        ensures
            val == self.values()[reg.ordinal()],
    {
        self.v[reg.index()]
    }

    /// Stores `val` in `reg` and leaves every other register as it was.
    pub fn set(&mut self, reg: Register, val: u8)
        ensures
            final(self).values() == old(self).values().update(reg.ordinal(), val),
            final(self).index == old(self).index,
    {
        self.v[reg.index()] = val;
    }

    /// The value of the index register.
    pub fn get_index(&self) -> (val: u16)
        ensures
            val == self.index,
    {
        self.index
    }

    /// Stores `val` in the index register and leaves the others as they were.
    pub fn set_index(&mut self, val: u16)
        ensures
            final(self).index == val,
            final(self).values() == old(self).values(),
    {
        self.index = val;
    }
}

} // verus!
