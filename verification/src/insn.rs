//! The fixed-width bytecode instruction: the unit a program's code consists
//! of and the unit a relocation patches.
//!
//! An instruction is an 8-byte little-endian record: an operation code, a
//! register pair packed in one byte (destination in the low nibble, source in
//! the high nibble), a 16-bit offset and a 32-bit immediate.

use crate::bytes::{le16_at, le32_at, read_u16, read_u32};
use vstd::slice::slice_index_get;
use crate::error::Error;
use vstd::prelude::*;

verus! {

/// Width in bytes of one instruction record.
pub const INSN_SIZE: usize = 8;

/// Source-operand tag marking an immediate as a map-handle reference.
pub const BPF_PSEUDO_MAP_FD: u8 = 1;

/// Source-operand tag marking an immediate as a map-value reference.
pub const BPF_PSEUDO_MAP_VALUE: u8 = 2;

/// One fixed-width bytecode instruction.
#[derive(Debug, Clone, Copy, PartialEq, Eq, Structural)]
pub struct Insn {
    /// Operation code.
    pub code: u8,
    /// Destination register in the low nibble, source register in the high
    /// nibble.
    pub regs: u8,
    /// Signed 16-bit branch or access offset, kept as its raw bit pattern.
    pub off: u16,
    /// Signed 32-bit immediate operand, kept as its raw bit pattern.
    pub imm: u32,
}

/// The instruction stored at byte offset `off` in `s`.
pub open spec fn spec_insn_at(s: Seq<u8>, off: int) -> Insn {
    Insn {
        code: s[off],
        regs: s[off + 1],
        off: le16_at(s, off + 2),
        imm: le32_at(s, off + 4),
    }
}

/// The instruction sequence stored in `s`, taken in 8-byte records.
pub open spec fn spec_insns_of(s: Seq<u8>) -> Seq<Insn> {
    Seq::new(s.len() / (INSN_SIZE as nat), |i: int| spec_insn_at(s, (INSN_SIZE as int) * i))
}

impl Insn {
    /// The source register held in the high nibble of `regs`.
    pub open spec fn spec_src_reg(self) -> u8 {
        self.regs >> 4
    }

    /// Returns the source register.
    pub fn src_reg(&self) -> (r: u8)
        ensures
            r == self.spec_src_reg(),
    {
        self.regs >> 4
    }

    /// This instruction with the source register replaced by `src`.
    pub open spec fn spec_with_src_reg(self, src: u8) -> Insn {
        Insn { regs: (self.regs & 0x0f) | (src << 4), ..self }
    }

    /// Replaces the source register, leaving every other field unchanged.
    pub fn with_src_reg(self, src: u8) -> (r: Insn)
        ensures
            r == self.spec_with_src_reg(src),
    {
        Insn { regs: (self.regs & 0x0f) | (src << 4), ..self }
    }
}

/// Decodes a section's content into instructions.  The content length must
/// be a multiple of the instruction width; anything else indicates a
/// corrupt or foreign section and is rejected.
pub fn decode_insns(b: &[u8]) -> (r: Result<Vec<Insn>, Error>)
    ensures
        b@.len() % (INSN_SIZE as nat) == 0 <==> r is Ok,
        r matches Ok(v) ==> v@ == spec_insns_of(b@),
        r is Err ==> r == Result::<Vec<Insn>, Error>::Err(Error::UnsupportedSectionKind),
{
    let n: usize = b.len();
    if n % INSN_SIZE != 0 {
        return Err(Error::UnsupportedSectionKind);
    }
    let count: usize = n / INSN_SIZE;
    assert(n == (INSN_SIZE as int) * count);
    let mut v: Vec<Insn> = Vec::new();
    let mut i: usize = 0;
    while i < count
        invariant
            0 <= i <= count,
            n == b@.len(),
            n == (INSN_SIZE as int) * count,
            v@.len() == i,
            forall|k: int|
                0 <= k < i ==> v@[k] == spec_insn_at(b@, (INSN_SIZE as int) * k),
        decreases count - i,
    {
        let off: usize = i * INSN_SIZE;
        let insn = Insn {
            code: *slice_index_get(b, off),
            regs: *slice_index_get(b, off + 1),
            off: read_u16(b, off + 2),
            imm: read_u32(b, off + 4),
        };
        v.push(insn);
        i = i + 1;
    }
    assert(v@ =~= spec_insns_of(b@));
    Ok(v)
}

} // verus!
