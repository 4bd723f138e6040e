use vstd::prelude::*;

verus! {

/// One of the sixteen one-byte variable registers V0..VF.
///
/// VF doubles as the flag register: several arithmetic, shift and draw
/// instructions overwrite it as a side effect.
#[derive(Debug, Copy, Clone, PartialEq, Eq, Hash, Structural)]
pub enum VariableRegister {
    V0,
    V1,
    V2,
    V3,
    V4,
    V5,
    V6,
    V7,
    V8,
    V9,
    VA,
    VB,
    VC,
    VD,
    VE,
    VF,
}

/// The register named by a 4-bit value. Callers mask their argument down to a
/// nibble; values 15 and above all name VF.
pub open spec fn reg_of_nibble(n: u8) -> VariableRegister {
    if n == 0 {
        VariableRegister::V0
    } else if n == 1 {
        VariableRegister::V1
    } else if n == 2 {
        VariableRegister::V2
    } else if n == 3 {
        VariableRegister::V3
    } else if n == 4 {
        VariableRegister::V4
    } else if n == 5 {
        VariableRegister::V5
    } else if n == 6 {
        VariableRegister::V6
    } else if n == 7 {
        VariableRegister::V7
    } else if n == 8 {
        VariableRegister::V8
    } else if n == 9 {
        VariableRegister::V9
    } else if n == 10 {
        VariableRegister::VA
    } else if n == 11 {
        VariableRegister::VB
    } else if n == 12 {
        VariableRegister::VC
    } else if n == 13 {
        VariableRegister::VD
    } else if n == 14 {
        VariableRegister::VE
    } else {
        VariableRegister::VF
    }
}

/// The position of a register in the register file, 0 through 15.
pub open spec fn reg_index(r: VariableRegister) -> int {
    match r {
        VariableRegister::V0 => 0,
        VariableRegister::V1 => 1,
        VariableRegister::V2 => 2,
        VariableRegister::V3 => 3,
        VariableRegister::V4 => 4,
        VariableRegister::V5 => 5,
        VariableRegister::V6 => 6,
        VariableRegister::V7 => 7,
        VariableRegister::V8 => 8,
        VariableRegister::V9 => 9,
        VariableRegister::VA => 10,
        VariableRegister::VB => 11,
        VariableRegister::VC => 12,
        VariableRegister::VD => 13,
        VariableRegister::VE => 14,
        VariableRegister::VF => 15,
    }
}

pub proof fn lemma_reg_index_bounds(r: VariableRegister)
    ensures
        0 <= reg_index(r) < 16,
{
}

impl VariableRegister {
    /// The register named by a nibble value. Every nibble names exactly one
    /// register, and that register's position is the nibble itself.
    pub fn from_nibble(n: u8) -> (r: VariableRegister)
        requires
            n < 16,
        ensures
            r == reg_of_nibble(n),
            reg_index(r) == n as int,
    {
        if n == 0 {
            VariableRegister::V0
        } else if n == 1 {
            VariableRegister::V1
        } else if n == 2 {
            VariableRegister::V2
        } else if n == 3 {
            VariableRegister::V3
        } else if n == 4 {
            VariableRegister::V4
        } else if n == 5 {
            VariableRegister::V5
        } else if n == 6 {
            VariableRegister::V6
        } else if n == 7 {
            VariableRegister::V7
        } else if n == 8 {
            VariableRegister::V8
        } else if n == 9 {
            VariableRegister::V9
        } else if n == 10 {
            VariableRegister::VA
        } else if n == 11 {
            VariableRegister::VB
        } else if n == 12 {
            VariableRegister::VC
        } else if n == 13 {
            VariableRegister::VD
        } else if n == 14 {
            VariableRegister::VE
        } else {
            VariableRegister::VF
        }
    }

    /// The position of this register in the register file.
    pub fn index(self) -> (i: usize)
        ensures
            i as int == reg_index(self),
            i < 16,
    {
        match self {
            VariableRegister::V0 => 0,
            VariableRegister::V1 => 1,
            VariableRegister::V2 => 2,
            VariableRegister::V3 => 3,
            VariableRegister::V4 => 4,
            VariableRegister::V5 => 5,
            VariableRegister::V6 => 6,
            VariableRegister::V7 => 7,
            VariableRegister::V8 => 8,
            VariableRegister::V9 => 9,
            VariableRegister::VA => 10,
            VariableRegister::VB => 11,
            VariableRegister::VC => 12,
            VariableRegister::VD => 13,
            VariableRegister::VE => 14,
            VariableRegister::VF => 15,
        }
    }
}

} // verus!
