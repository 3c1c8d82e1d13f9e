//! Relocation resolution: rewriting instruction operands to reference
//! concrete kernel map handles.
//!
//! Each relocation names a target program by its section index, a symbol by
//! its table index, and a byte offset into the program's instruction
//! stream.  Resolution finds the program, resolves the symbol's name, looks
//! the map up by that exact name, and patches the instruction at
//! `offset / instruction width`.  A dangling target, an unresolved symbol
//! name, a misaligned offset or an out-of-range instruction index is a hard
//! error: nothing is ever silently skipped.

use crate::elf::Symbol;
use crate::error::Error;
use crate::insn::{Insn, BPF_PSEUDO_MAP_FD, BPF_PSEUDO_MAP_VALUE, INSN_SIZE};
use crate::map::MapDescriptor;
use crate::program::{Program, ProgramData};
use crate::section::str_eq;
use vstd::arithmetic::div_mod::lemma_add_mod_noop;
use vstd::prelude::*;

verus! {

/// One pending relocation: where to patch and which symbol it references.
#[derive(Debug, Clone, Copy, PartialEq, Eq, Structural)]
pub struct RelocationInfo {
    /// Index of the section holding the program to patch (the relocation
    /// section's own `sh_info` field).
    pub target_sec_idx: usize,
    /// Byte offset of the instruction to patch within the program's
    /// instruction stream.
    pub offset: u64,
    /// Index of the referenced symbol in the symbol table.
    pub sym_idx: usize,
}

/// The first index holding `x` in `s`, or `-1` when none does.
pub open spec fn spec_find_index(s: Seq<usize>, x: usize) -> int
    decreases s.len(),
{
    if s.len() == 0 {
        -1
    } else if s[0] == x {
        0
    } else {
        let r = spec_find_index(s.drop_first(), x);
        if r < 0 {
            -1
        } else {
            r + 1
        }
    }
}

/// `spec_find_index` finds the first occurrence, or reports that none
/// exists.
pub proof fn lemma_find_index(s: Seq<usize>, x: usize)
    ensures
        spec_find_index(s, x) == -1 ==> forall|j: int| 0 <= j < s.len() ==> s[j] != x,
        spec_find_index(s, x) >= 0 ==> {
            let r = spec_find_index(s, x);
            &&& 0 <= r < s.len()
            &&& s[r] == x
            &&& forall|j: int| 0 <= j < r ==> s[j] != x
        },
    decreases s.len(),
{
    if s.len() > 0 && s[0] != x {
        lemma_find_index(s.drop_first(), x);
        let r0 = spec_find_index(s.drop_first(), x);
        if r0 == -1 {
            assert forall|j: int| 0 <= j < s.len() implies s[j] != x by {
                if j > 0 {
                    assert(s.drop_first()[j - 1] != x);
                }
            }
        } else {
            assert(s.drop_first()[r0] == x);
            assert forall|j: int| 0 <= j < r0 + 1 implies s[j] != x by {
                if j > 0 {
                    assert(s.drop_first()[j - 1] != x);
                }
            }
        }
    }
}

/// Scans for the first occurrence of `x`.
pub fn find_index(s: &Vec<usize>, x: usize) -> (r: Option<usize>)
    ensures
        r is Some <==> spec_find_index(s@, x) >= 0,
        r matches Some(i) ==> i == spec_find_index(s@, x) && i < s@.len() && s@[i as int] == x,
{
    proof {
        lemma_find_index(s@, x);
    }
    let n: usize = s.len();
    let mut i: usize = 0;
    while i < n
        invariant
            0 <= i <= n,
            n == s@.len(),
            forall|j: int| 0 <= j < i ==> s@[j] != x,
            spec_find_index(s@, x) == -1 ==> forall|j: int| 0 <= j < s@.len() ==> s@[j] != x,
            spec_find_index(s@, x) >= 0 ==> {
                let r = spec_find_index(s@, x);
                &&& 0 <= r < s@.len()
                &&& s@[r] == x
                &&& forall|j: int| 0 <= j < r ==> s@[j] != x
            },
        decreases n - i,
    {
        if *vstd::slice::slice_index_get(s.as_slice(), i) == x {
            return Some(i);
        }
        i = i + 1;
    }
    None
}

/// The first index of a map named `name`, or `-1` when none carries that
/// name.
pub open spec fn spec_find_map(maps: Seq<MapDescriptor>, name: Seq<char>) -> int
    decreases maps.len(),
{
    if maps.len() == 0 {
        -1
    } else if maps[0].name@ == name {
        0
    } else {
        let r = spec_find_map(maps.drop_first(), name);
        if r < 0 {
            -1
        } else {
            r + 1
        }
    }
}

/// `spec_find_map` finds the first map with the name, or reports that none
/// carries it.
pub proof fn lemma_find_map(maps: Seq<MapDescriptor>, name: Seq<char>)
    ensures
        spec_find_map(maps, name) == -1 ==> forall|j: int|
            0 <= j < maps.len() ==> maps[j].name@ != name,
        spec_find_map(maps, name) >= 0 ==> {
            let r = spec_find_map(maps, name);
            &&& 0 <= r < maps.len()
            &&& maps[r].name@ == name
            &&& forall|j: int| 0 <= j < r ==> maps[j].name@ != name
        },
    decreases maps.len(),
{
    if maps.len() > 0 && maps[0].name@ != name {
        lemma_find_map(maps.drop_first(), name);
        let r0 = spec_find_map(maps.drop_first(), name);
        if r0 == -1 {
            assert forall|j: int| 0 <= j < maps.len() implies maps[j].name@ != name by {
                if j > 0 {
                    assert(maps.drop_first()[j - 1].name@ != name);
                }
            }
        } else {
            assert(maps.drop_first()[r0].name@ == name);
            assert forall|j: int| 0 <= j < r0 + 1 implies maps[j].name@ != name by {
                if j > 0 {
                    assert(maps.drop_first()[j - 1].name@ != name);
                }
            }
        }
    }
}

/// Scans for the first map named `name`.
pub fn find_map(maps: &Vec<MapDescriptor>, name: &str) -> (r: Option<usize>)
    ensures
        r is Some <==> spec_find_map(maps@, name@) >= 0,
        r matches Some(i) ==> i == spec_find_map(maps@, name@) && i < maps@.len() && maps@[
            i as int
        ].name@ == name@,
{
    proof {
        lemma_find_map(maps@, name@);
    }
    let n: usize = maps.len();
    let mut i: usize = 0;
    while i < n
        invariant
            0 <= i <= n,
            n == maps@.len(),
            forall|j: int| 0 <= j < i ==> maps@[j].name@ != name@,
            spec_find_map(maps@, name@) == -1 ==> forall|j: int|
                0 <= j < maps@.len() ==> maps@[j].name@ != name@,
            spec_find_map(maps@, name@) >= 0 ==> {
                let r = spec_find_map(maps@, name@);
                &&& 0 <= r < maps@.len()
                &&& maps@[r].name@ == name@
                &&& forall|j: int| 0 <= j < r ==> maps@[j].name@ != name@
            },
        decreases n - i,
    {
        if str_eq(maps[i].name.as_str(), name) {
            return Some(i);
        }
        i = i + 1;
    }
    None
}


/// The part of one map a relocation reads: its name, its kernel handle and
/// whether it is an inline-data map.
pub open spec fn spec_map_view(m: MapDescriptor) -> (Seq<char>, i32, bool) {
    (m.name@, m.fd, m.section_data)
}

/// The parts of a whole map table that relocation resolution reads.
pub open spec fn spec_map_views(maps: Seq<MapDescriptor>) -> Seq<(Seq<char>, i32, bool)> {
    maps.map_values(|m: MapDescriptor| spec_map_view(m))
}

/// The first index of a map view named `name`, or `-1` when none carries
/// that name.
pub open spec fn spec_find_view(views: Seq<(Seq<char>, i32, bool)>, name: Seq<char>) -> int
    decreases views.len(),
{
    if views.len() == 0 {
        -1
    } else if views[0].0 == name {
        0
    } else {
        let r = spec_find_view(views.drop_first(), name);
        if r < 0 {
            -1
        } else {
            r + 1
        }
    }
}

/// Looking a name up in a map table and in its view agree.
pub proof fn lemma_find_view(maps: Seq<MapDescriptor>, name: Seq<char>)
    ensures
        spec_find_view(spec_map_views(maps), name) == spec_find_map(maps, name),
    decreases maps.len(),
{
    if maps.len() == 0 {
        assert(spec_map_views(maps) =~= Seq::<(Seq<char>, i32, bool)>::empty());
    } else {
        assert(spec_map_views(maps)[0] == spec_map_view(maps[0]));
        if maps[0].name@ != name {
            lemma_find_view(maps.drop_first(), name);
            assert(spec_map_views(maps).drop_first() =~= spec_map_views(maps.drop_first()));
        }
    }
}

/// The instruction patched into a map-handle reference: source operand
/// tagged `BPF_PSEUDO_MAP_FD`, immediate set to the map's handle.
pub open spec fn spec_patch_handle(insn: Insn, fd: i32) -> Insn {
    Insn { imm: fd as u32, ..insn.spec_with_src_reg(BPF_PSEUDO_MAP_FD) }
}

/// The instruction patched into a map-value reference: source operand
/// tagged `BPF_PSEUDO_MAP_VALUE`, immediate set to the map's handle.
pub open spec fn spec_patch_value(insn: Insn, fd: i32) -> Insn {
    Insn { imm: fd as u32, ..insn.spec_with_src_reg(BPF_PSEUDO_MAP_VALUE) }
}

/// The 32-bit immediate produced by adding a symbol value to an immediate,
/// in wrap-around arithmetic.
pub open spec fn spec_imm_plus(imm: u32, v: u64) -> u32 {
    (((imm + v) % 0x1_0000_0000) as u32)
}

/// Adds a symbol value to an immediate in wrap-around 32-bit arithmetic.
pub fn imm_plus(imm: u32, v: u64) -> (r: u32)
    ensures
        r == spec_imm_plus(imm, v),
{
    let v_low: u64 = v % 0x1_0000_0000;
    let sum: u64 = (imm as u64) + v_low;
    let r: u32 = (sum % 0x1_0000_0000) as u32;
    proof {
        lemma_add_mod_noop(imm as int, v as int, 0x1_0000_0000);
        lemma_add_mod_noop(imm as int, v_low as int, 0x1_0000_0000);
        assert((imm as int) % 0x1_0000_0000 == imm as int);
        assert((v as int) % 0x1_0000_0000 == v_low as int);
    }
    r
}

/// The instruction streams of a program list, one per program.
pub open spec fn spec_codes(programs: Seq<Program>) -> Seq<Seq<Insn>> {
    programs.map_values(|p: Program| p.spec_data().code@)
}

/// What resolving one relocation does to the instruction streams: either
/// the new streams, with exactly one program's stream patched, or the typed
/// error that aborts the parse.
pub open spec fn spec_apply_one(
    program_sections: Seq<usize>,
    codes: Seq<Seq<Insn>>,
    maps: Seq<(Seq<char>, i32, bool)>,
    symtab: Seq<Symbol>,
    rel: RelocationInfo,
) -> Result<Seq<Seq<Insn>>, Error> {
    let pi = spec_find_index(program_sections, rel.target_sec_idx);
    if pi < 0 {
        Err(Error::RelocationTargetMissing(rel.target_sec_idx))
    } else if rel.sym_idx >= symtab.len() {
        Err(Error::MalformedObject)
    } else if symtab[rel.sym_idx as int].name is None {
        Err(Error::RelocationSymbolUnresolved(rel.sym_idx))
    } else {
        let name = symtab[rel.sym_idx as int].name->0@;
        let mi = spec_find_view(maps, name);
        if mi < 0 {
            Err(Error::RelocationSymbolUnresolved(rel.sym_idx))
        } else if rel.offset % (INSN_SIZE as u64) != 0 {
            Err(Error::MalformedObject)
        } else {
            let idx = rel.offset as int / (INSN_SIZE as int);
            let code = codes[pi];
            let map = maps[mi];
            if !map.2 {
                if idx >= code.len() {
                    Err(Error::MalformedObject)
                } else {
                    Ok(codes.update(pi, code.update(idx, spec_patch_handle(code[idx], map.1))))
                }
            } else {
                if idx + 1 >= code.len() {
                    Err(Error::MalformedObject)
                } else {
                    Ok(
                        codes.update(
                            pi,
                            code.update(idx, spec_patch_value(code[idx], map.1)).update(
                                idx + 1,
                                Insn {
                                    imm: spec_imm_plus(
                                        code[idx].imm,
                                        symtab[rel.sym_idx as int].value,
                                    ),
                                    ..code[idx + 1]
                                },
                            ),
                        ),
                    )
                }
            }
        }
    }
}

/// What resolving a whole relocation list does: the relocations are
/// consumed in order, and the first failure aborts with its error.
pub open spec fn spec_apply_all(
    program_sections: Seq<usize>,
    codes: Seq<Seq<Insn>>,
    maps: Seq<(Seq<char>, i32, bool)>,
    symtab: Seq<Symbol>,
    rels: Seq<RelocationInfo>,
) -> Result<Seq<Seq<Insn>>, Error>
    decreases rels.len(),
{
    if rels.len() == 0 {
        Ok(codes)
    } else {
        match spec_apply_one(program_sections, codes, maps, symtab, rels[0]) {
            Ok(cs) => spec_apply_all(program_sections, cs, maps, symtab, rels.drop_first()),
            Err(e) => Err(e),
        }
    }
}

impl RelocationInfo {
    /// Resolves this relocation against the collected programs, the
    /// materialized maps and the symbol table, patching the target
    /// program's instruction stream in place.
    ///
    /// For a handle-backed map the instruction at `offset / width` gets its
    /// source operand tagged `BPF_PSEUDO_MAP_FD` and its immediate set to
    /// the map's handle; for an inline-data map the tag is
    /// `BPF_PSEUDO_MAP_VALUE` and the following instruction's immediate
    /// additionally grows by the symbol's value.  Everything else is left
    /// exactly as it was, and an error leaves all programs untouched.
    pub fn apply(
        &self,
        program_sections: &Vec<usize>,
        programs: &mut Vec<Program>,
        maps: &Vec<MapDescriptor>,
        symtab: &Vec<Symbol>,
    ) -> (r: Result<(), Error>)
        requires
            program_sections@.len() == old(programs)@.len(),
        ensures
            spec_apply_one(
                program_sections@,
                spec_codes(old(programs)@),
                spec_map_views(maps@),
                symtab@,
                *self,
            ) matches Err(e) ==> r == Result::<(), Error>::Err(e) && final(programs)@ == old(
                programs,
            )@,
            spec_apply_one(
                program_sections@,
                spec_codes(old(programs)@),
                spec_map_views(maps@),
                symtab@,
                *self,
            ) matches Ok(cs) ==> {
                let pi = spec_find_index(program_sections@, self.target_sec_idx);
                &&& r is Ok
                &&& final(programs)@.len() == old(programs)@.len()
                &&& spec_codes(final(programs)@) == cs
                &&& forall|j: int|
                    0 <= j < old(programs)@.len() && j != pi ==> final(programs)@[j] == old(
                        programs,
                    )@[j]
                &&& final(programs)@[pi] == old(programs)@[pi].spec_with_data(
                    ProgramData {
                        code: final(programs)@[pi].spec_data().code,
                        ..old(programs)@[pi].spec_data()
                    },
                )
            },
    {
        let pi: usize = match find_index(program_sections, self.target_sec_idx) {
            Some(pi) => pi,
            None => {
                return Err(Error::RelocationTargetMissing(self.target_sec_idx));
            },
        };
        if self.sym_idx >= symtab.len() {
            return Err(Error::MalformedObject);
        }
        let sym_value: u64 = symtab[self.sym_idx].value;
        let mapname: &String = match &symtab[self.sym_idx].name {
            Some(n) => n,
            None => {
                return Err(Error::RelocationSymbolUnresolved(self.sym_idx));
            },
        };
        let mi: usize = match find_map(maps, mapname.as_str()) {
            Some(mi) => mi,
            None => {
                proof {
                    lemma_find_view(maps@, mapname@);
                }
                return Err(Error::RelocationSymbolUnresolved(self.sym_idx));
            },
        };
        proof {
            lemma_find_view(maps@, mapname@);
            assert(spec_map_views(maps@)[mi as int] == spec_map_view(maps@[mi as int]));
        }
        if self.offset % (INSN_SIZE as u64) != 0 {
            return Err(Error::MalformedObject);
        }
        let idx64: u64 = self.offset / (INSN_SIZE as u64);
        let map_fd: i32 = maps[mi].fd;
        let map_section_data: bool = maps[mi].section_data;
        assert(pi < programs@.len());
        let prog = &mut programs[pi];
        let d = prog.data_mut();
        let code_len: usize = d.code.len();
        if !map_section_data {
            if idx64 >= code_len as u64 {
                return Err(Error::MalformedObject);
            }
            let idx: usize = idx64 as usize;
            let orig: Insn = d.code[idx];
            d.code[idx] = Insn { imm: map_fd as u32, ..orig.with_src_reg(BPF_PSEUDO_MAP_FD) };
            Ok(())
        } else {
            if idx64 + 1 >= code_len as u64 {
                return Err(Error::MalformedObject);
            }
            let idx: usize = idx64 as usize;
            let orig: Insn = d.code[idx];
            let next: Insn = d.code[idx + 1];
            d.code[idx] = Insn { imm: map_fd as u32, ..orig.with_src_reg(BPF_PSEUDO_MAP_VALUE) };
            d.code[idx + 1] = Insn { imm: imm_plus(orig.imm, sym_value), ..next };
            Ok(())
        }
    }
}

} // verus!
