//! Structural model of a relocatable ELF object, and the reader that builds
//! it from raw bytes.
//!
//! The object is a 64-bit little-endian ELF relocatable file.  Only the
//! structure the loader consumes is modelled: the section list with resolved
//! names and content bytes, and the symbol table with resolved names.
//! Relocation entries stay inside their sections' content and are extracted
//! during the object-model pass.
//!
//! Every structural field is specified as the little-endian read at its
//! documented file offset, so the reader's contract pins the whole model to
//! the raw bytes.

use crate::bytes::{
    bytes_to_string, le16_at, le32_at, le64_at, nul_position, read_u16, read_u32, read_u64,
    spec_nul_position, sub_bytes,
};
use crate::error::Error;
use vstd::prelude::*;
use vstd::slice::{slice_index_get, slice_subrange};
use vstd::utf8::{decode_utf8, valid_utf8};

verus! {

/// Section type tag of a program-content section.
pub const SHT_PROGBITS: u32 = 1;

/// Section type tag of a symbol table section.
pub const SHT_SYMTAB: u32 = 2;

/// Section type tag of a string table section.
pub const SHT_STRTAB: u32 = 3;

/// Section type tag of a zero-initialized section without file content.
pub const SHT_NOBITS: u32 = 8;

/// Section type tag of a relocation section without explicit addends.
pub const SHT_REL: u32 = 9;

/// Byte size of the ELF file header.
pub const ELF_HEADER_SIZE: usize = 64;

/// Byte size of one section header.
pub const SECTION_HEADER_SIZE: usize = 64;

/// Byte size of one symbol-table entry.
pub const SYMBOL_SIZE: usize = 24;

/// One section: a named, typed, contiguous byte range of the object.
pub struct Section {
    /// The section's raw name, or `None` when the string table gives no
    /// usable name for it.
    pub name: Option<String>,
    /// The structural type tag (`sh_type`).
    pub section_type: u32,
    /// The `sh_info` field; for a relocation section, the index of the
    /// section its entries patch.
    pub info: u32,
    /// The section's content bytes; empty for a section without file
    /// content.
    pub data: Vec<u8>,
}

/// One symbol-table entry, with its name already resolved.
pub struct Symbol {
    /// The symbol's name, or `None` when the string table gives no usable
    /// name for it.
    pub name: Option<String>,
    /// The symbol's value (`st_value`).
    pub value: u64,
}

/// The structural content of a relocatable object: its sections and its
/// symbol table.
pub struct ObjectFile {
    /// All sections, in section-header order; index `i` holds section `i`.
    pub sections: Vec<Section>,
    /// All symbol-table entries, in table order.
    pub symbols: Vec<Symbol>,
}

/// The file header is a 64-bit little-endian ELF header announcing 64-byte
/// section headers.
pub open spec fn spec_elf_header_ok(b: Seq<u8>) -> bool {
    &&& b.len() >= ELF_HEADER_SIZE
    &&& b[0] == 0x7fu8
    &&& b[1] == 0x45u8
    &&& b[2] == 0x4cu8
    &&& b[3] == 0x46u8
    &&& b[4] == 2u8
    &&& b[5] == 1u8
    &&& le16_at(b, 58) == 64u16
}

/// File offset of the section-header table.
pub open spec fn spec_shoff(b: Seq<u8>) -> int {
    le64_at(b, 40) as int
}

/// Number of section headers.
pub open spec fn spec_shnum(b: Seq<u8>) -> int {
    le16_at(b, 60) as int
}

/// Index of the section-name string table.
pub open spec fn spec_shstrndx(b: Seq<u8>) -> int {
    le16_at(b, 62) as int
}

/// File offset of section header `i`.
pub open spec fn spec_sh_base(b: Seq<u8>, i: int) -> int {
    spec_shoff(b) + (SECTION_HEADER_SIZE as int) * i
}

/// The `sh_name` field of section `i`: an offset into the section-name
/// string table.
pub open spec fn spec_sh_name(b: Seq<u8>, i: int) -> u32 {
    le32_at(b, spec_sh_base(b, i))
}

/// The `sh_type` field of section `i`.
pub open spec fn spec_sh_type(b: Seq<u8>, i: int) -> u32 {
    le32_at(b, spec_sh_base(b, i) + 4)
}

/// The `sh_offset` field of section `i`.
pub open spec fn spec_sh_offset(b: Seq<u8>, i: int) -> int {
    le64_at(b, spec_sh_base(b, i) + 24) as int
}

/// The `sh_size` field of section `i`.
pub open spec fn spec_sh_size(b: Seq<u8>, i: int) -> int {
    le64_at(b, spec_sh_base(b, i) + 32) as int
}

/// The `sh_link` field of section `i`.
pub open spec fn spec_sh_link(b: Seq<u8>, i: int) -> u32 {
    le32_at(b, spec_sh_base(b, i) + 40)
}

/// The `sh_info` field of section `i`.
pub open spec fn spec_sh_info(b: Seq<u8>, i: int) -> u32 {
    le32_at(b, spec_sh_base(b, i) + 44)
}

/// Section `i`'s content range lies inside the file (trivially so for a
/// section without file content).
pub open spec fn spec_section_bounds_ok(b: Seq<u8>, i: int) -> bool {
    spec_sh_type(b, i) == SHT_NOBITS || spec_sh_offset(b, i) + spec_sh_size(b, i) <= b.len()
}

/// The content bytes of section `i`.
pub open spec fn spec_section_data(b: Seq<u8>, i: int) -> Seq<u8> {
    if spec_sh_type(b, i) == SHT_NOBITS {
        Seq::<u8>::empty()
    } else {
        b.subrange(spec_sh_offset(b, i), spec_sh_offset(b, i) + spec_sh_size(b, i))
    }
}

/// The NUL-terminated UTF-8 string starting at `off` in string table `t`,
/// or `None` when the offset is out of range, no terminator follows, or the
/// bytes are not valid UTF-8.
pub open spec fn spec_cstr_at(t: Seq<u8>, off: int) -> Option<Seq<char>> {
    if 0 <= off <= t.len() {
        let sub = t.skip(off);
        let p = spec_nul_position(sub);
        if p < sub.len() && valid_utf8(sub.take(p)) {
            Some(decode_utf8(sub.take(p)))
        } else {
            None
        }
    } else {
        None
    }
}

/// The resolved name of section `i`.
pub open spec fn spec_section_name(b: Seq<u8>, i: int) -> Option<Seq<char>> {
    spec_cstr_at(spec_section_data(b, spec_shstrndx(b)), spec_sh_name(b, i) as int)
}

/// The index of the first symbol-table section at or after `i`, or `-1`
/// when none follows.
pub open spec fn spec_symtab_index_from(b: Seq<u8>, i: int) -> int
    decreases spec_shnum(b) - i,
{
    if i < 0 || i >= spec_shnum(b) {
        -1
    } else if spec_sh_type(b, i) == SHT_SYMTAB {
        i
    } else {
        spec_symtab_index_from(b, i + 1)
    }
}

/// The index of the object's symbol-table section, or `-1` when it has
/// none.
pub open spec fn spec_symtab_index(b: Seq<u8>) -> int {
    spec_symtab_index_from(b, 0)
}

/// The number of symbol-table entries.
pub open spec fn spec_sym_count(b: Seq<u8>) -> int {
    spec_section_data(b, spec_symtab_index(b)).len() as int / (SYMBOL_SIZE as int)
}

/// The `st_name` field of symbol `k`: an offset into the symbol string
/// table.
pub open spec fn spec_sym_name_off(b: Seq<u8>, k: int) -> u32 {
    le32_at(spec_section_data(b, spec_symtab_index(b)), (SYMBOL_SIZE as int) * k)
}

/// The `st_value` field of symbol `k`.
pub open spec fn spec_sym_value(b: Seq<u8>, k: int) -> u64 {
    le64_at(spec_section_data(b, spec_symtab_index(b)), (SYMBOL_SIZE as int) * k + 8)
}

/// The index of the symbol string table: the symbol table's `sh_link`.
pub open spec fn spec_symstr_index(b: Seq<u8>) -> int {
    spec_sh_link(b, spec_symtab_index(b)) as int
}

/// The resolved name of symbol `k`, absent when the linked string table
/// does not exist or gives no usable string.
pub open spec fn spec_sym_name(b: Seq<u8>, k: int) -> Option<Seq<char>> {
    if 0 <= spec_symstr_index(b) < spec_shnum(b) {
        spec_cstr_at(spec_section_data(b, spec_symstr_index(b)), spec_sym_name_off(b, k) as int)
    } else {
        None
    }
}

/// The whole object is structurally readable: well-formed header, section
/// headers and contents inside the file, a section-name table index that
/// names a section, and a symbol table cut into whole entries.
pub open spec fn spec_object_ok(b: Seq<u8>) -> bool {
    &&& spec_elf_header_ok(b)
    &&& spec_shoff(b) + (SECTION_HEADER_SIZE as int) * spec_shnum(b) <= b.len()
    &&& 0 <= spec_shstrndx(b) < spec_shnum(b)
    &&& forall|i: int| 0 <= i < spec_shnum(b) ==> spec_section_bounds_ok(b, i)
    &&& (spec_symtab_index(b) >= 0 ==> spec_section_data(b, spec_symtab_index(b)).len() as int % (SYMBOL_SIZE as int) == 0)
}

/// Reads the NUL-terminated UTF-8 string at `off` in string table `t`.
pub fn read_cstr(t: &[u8], off: u32) -> (r: Option<String>)
    ensures
        r is Some <==> spec_cstr_at(t@, off as int) is Some,
        r matches Some(s) ==> spec_cstr_at(t@, off as int) == Some(s@),
{
    let tlen: usize = t.len();
    if off as usize > tlen {
        return None;
    }
    let sub = slice_subrange(t, off as usize, tlen);
    assert(sub@ =~= t@.skip(off as int));
    proof {
        crate::bytes::lemma_nul_position(sub@);
    }
    let p = nul_position(sub);
    if p == sub.len() {
        return None;
    }
    let namebytes = sub_bytes(sub, 0, p);
    assert(namebytes@ =~= t@.skip(off as int).take(spec_nul_position(t@.skip(off as int))));
    bytes_to_string(namebytes)
}

/// Extracts the content bytes of section `i`, relying on the already
/// established bounds.
fn section_bytes(b: &[u8], shoff_us: usize, i: usize) -> (r: Vec<u8>)
    requires
        spec_elf_header_ok(b@),
        shoff_us == spec_shoff(b@),
        0 <= i < spec_shnum(b@),
        spec_shoff(b@) + (SECTION_HEADER_SIZE as int) * spec_shnum(b@) <= b@.len(),
        spec_section_bounds_ok(b@, i as int),
    ensures
        r@ == spec_section_data(b@, i as int),
{
    let len: usize = b.len();
    let off: usize = shoff_us + SECTION_HEADER_SIZE * i;
    let sh_type = read_u32(b, off + 4);
    if sh_type == SHT_NOBITS {
        let r: Vec<u8> = Vec::new();
        assert(r@ =~= spec_section_data(b@, i as int));
        r
    } else {
        let sh_off64 = read_u64(b, off + 24);
        let sh_size64 = read_u64(b, off + 32);
        sub_bytes(b, sh_off64 as usize, (sh_off64 + sh_size64) as usize)
    }
}

/// Finds the first symbol-table section, or returns `shnum` when there is
/// none.
fn find_symtab(b: &[u8], shoff_us: usize, shnum: usize) -> (r: usize)
    requires
        spec_elf_header_ok(b@),
        shoff_us == spec_shoff(b@),
        shnum == spec_shnum(b@),
        spec_shoff(b@) + (SECTION_HEADER_SIZE as int) * spec_shnum(b@) <= b@.len(),
    ensures
        spec_symtab_index(b@) >= 0 ==> r == spec_symtab_index(b@),
        spec_symtab_index(b@) < 0 ==> r == shnum,
        spec_symtab_index(b@) < spec_shnum(b@),
{
    let len: usize = b.len();
    let mut i: usize = 0;
    while i < shnum
        invariant
            len == b@.len(),
            0 <= i <= shnum,
            shnum == spec_shnum(b@),
            shoff_us == spec_shoff(b@),
            spec_elf_header_ok(b@),
            spec_shoff(b@) + (SECTION_HEADER_SIZE as int) * spec_shnum(b@) <= b@.len(),
            spec_symtab_index(b@) == spec_symtab_index_from(b@, i as int),
        decreases shnum - i,
    {
        let off: usize = shoff_us + SECTION_HEADER_SIZE * i;
        if read_u32(b, off + 4) == SHT_SYMTAB {
            assert(spec_symtab_index_from(b@, i as int) == i);
            return i;
        }
        assert(spec_symtab_index_from(b@, i as int) == spec_symtab_index_from(b@, i + 1));
        i = i + 1;
    }
    assert(spec_symtab_index_from(b@, i as int) == -1);
    shnum
}

/// Parses the structural metadata of a relocatable object: sections with
/// their resolved names and content bytes, and the symbol table with its
/// resolved names.  Succeeds exactly on a structurally readable object and
/// fails with `MalformedObject` otherwise.
pub fn read_object(b: &[u8]) -> (r: Result<ObjectFile, Error>)
    ensures
        r is Ok <==> spec_object_ok(b@),
        r is Err ==> r == Result::<ObjectFile, Error>::Err(Error::MalformedObject),
        r matches Ok(obj) ==> {
            &&& obj.sections@.len() == spec_shnum(b@)
            &&& forall|i: int|
                0 <= i < spec_shnum(b@) ==> {
                    let s = #[trigger] obj.sections@[i];
                    &&& s.section_type == spec_sh_type(b@, i)
                    &&& s.info == spec_sh_info(b@, i)
                    &&& s.data@ == spec_section_data(b@, i)
                    &&& (s.name is Some <==> spec_section_name(b@, i) is Some)
                    &&& (s.name matches Some(n) ==> spec_section_name(b@, i) == Some(n@))
                }
            &&& obj.symbols@.len() == (if spec_symtab_index(b@) >= 0 {
                spec_sym_count(b@)
            } else {
                0
            })
            &&& forall|k: int|
                0 <= k < obj.symbols@.len() ==> {
                    let y = #[trigger] obj.symbols@[k];
                    &&& y.value == spec_sym_value(b@, k)
                    &&& (y.name is Some <==> spec_sym_name(b@, k) is Some)
                    &&& (y.name matches Some(n) ==> spec_sym_name(b@, k) == Some(n@))
                }
        },
{
    let len: usize = b.len();
    if len < ELF_HEADER_SIZE {
        return Err(Error::MalformedObject);
    }
    if !(*slice_index_get(b, 0) == 0x7f && *slice_index_get(b, 1) == 0x45 && *slice_index_get(
        b,
        2,
    ) == 0x4c && *slice_index_get(b, 3) == 0x46) {
        return Err(Error::MalformedObject);
    }
    if !(*slice_index_get(b, 4) == 2 && *slice_index_get(b, 5) == 1) {
        return Err(Error::MalformedObject);
    }
    if read_u16(b, 58) != 64 {
        return Err(Error::MalformedObject);
    }
    let shoff: u64 = read_u64(b, 40);
    let shnum: usize = read_u16(b, 60) as usize;
    let shstrndx: usize = read_u16(b, 62) as usize;
    if shstrndx >= shnum {
        return Err(Error::MalformedObject);
    }
    let len64: u64 = len as u64;
    if shoff > len64 {
        return Err(Error::MalformedObject);
    }
    if (shnum as u64) * (SECTION_HEADER_SIZE as u64) > len64 - shoff {
        return Err(Error::MalformedObject);
    }
    let shoff_us: usize = shoff as usize;

    // Pass over the section headers: types, info fields and content bytes.
    let mut sections: Vec<Section> = Vec::new();
    let mut name_offs: Vec<u32> = Vec::new();
    let mut i: usize = 0;
    while i < shnum
        invariant
            0 <= i <= shnum,
            len == b@.len(),
            len64 == len as u64,
            shoff_us == shoff as int,
            spec_elf_header_ok(b@),
            shoff == spec_shoff(b@),
            shnum == spec_shnum(b@),
            shstrndx == spec_shstrndx(b@),
            spec_shoff(b@) + (SECTION_HEADER_SIZE as int) * spec_shnum(b@) <= b@.len(),
            sections@.len() == i,
            name_offs@.len() == i,
            forall|k: int|
                0 <= k < i ==> {
                    let s = #[trigger] sections@[k];
                    &&& s.section_type == spec_sh_type(b@, k)
                    &&& s.info == spec_sh_info(b@, k)
                    &&& s.data@ == spec_section_data(b@, k)
                    &&& s.name is None
                },
            forall|k: int| 0 <= k < i ==> #[trigger] name_offs@[k] == spec_sh_name(b@, k),
            forall|k: int| 0 <= k < i ==> spec_section_bounds_ok(b@, k),
        decreases shnum - i,
    {
        let off: usize = shoff_us + SECTION_HEADER_SIZE * i;
        let sh_name = read_u32(b, off);
        let sh_type = read_u32(b, off + 4);
        let sh_off64 = read_u64(b, off + 24);
        let sh_size64 = read_u64(b, off + 32);
        let sh_info = read_u32(b, off + 44);
        let data: Vec<u8> = if sh_type == SHT_NOBITS {
            let d: Vec<u8> = Vec::new();
            assert(d@ =~= spec_section_data(b@, i as int));
            d
        } else {
            if sh_off64 > len64 {
                assert(!spec_section_bounds_ok(b@, i as int));
                return Err(Error::MalformedObject);
            }
            if sh_size64 > len64 - sh_off64 {
                assert(!spec_section_bounds_ok(b@, i as int));
                return Err(Error::MalformedObject);
            }
            sub_bytes(b, sh_off64 as usize, (sh_off64 + sh_size64) as usize)
        };
        sections.push(Section { name: None, section_type: sh_type, info: sh_info, data });
        name_offs.push(sh_name);
        i = i + 1;
    }

    // Resolve the section names against the section-name string table.
    let strtab: Vec<u8> = section_bytes(b, shoff_us, shstrndx);
    let mut k: usize = 0;
    while k < shnum
        invariant
            0 <= k <= shnum,
            shnum == spec_shnum(b@),
            shstrndx == spec_shstrndx(b@),
            strtab@ == spec_section_data(b@, spec_shstrndx(b@)),
            sections@.len() == shnum,
            name_offs@.len() == shnum,
            forall|j: int| 0 <= j < shnum ==> #[trigger] name_offs@[j] == spec_sh_name(b@, j),
            forall|j: int|
                0 <= j < shnum ==> {
                    let s = #[trigger] sections@[j];
                    &&& s.section_type == spec_sh_type(b@, j)
                    &&& s.info == spec_sh_info(b@, j)
                    &&& s.data@ == spec_section_data(b@, j)
                },
            forall|j: int|
                0 <= j < k ==> {
                    let s = #[trigger] sections@[j];
                    &&& (s.name is Some <==> spec_section_name(b@, j) is Some)
                    &&& (s.name matches Some(n) ==> spec_section_name(b@, j) == Some(n@))
                },
        decreases shnum - k,
    {
        let name = read_cstr(strtab.as_slice(), *vstd::slice::slice_index_get(
            name_offs.as_slice(),
            k,
        ));
        sections[k].name = name;
        k = k + 1;
    }

    // Parse the symbol table, when the object has one.
    let symtab_idx: usize = find_symtab(b, shoff_us, shnum);
    let mut symbols: Vec<Symbol> = Vec::new();
    if symtab_idx < shnum {
        assert(symtab_idx == spec_symtab_index(b@));
        let symdata: Vec<u8> = section_bytes(b, shoff_us, symtab_idx);
        let symlen: usize = symdata.len();
        if symlen % SYMBOL_SIZE != 0 {
            return Err(Error::MalformedObject);
        }
        let count: usize = symlen / SYMBOL_SIZE;
        assert(symlen == (SYMBOL_SIZE as int) * count);
        let strtab_idx: u32 = read_u32(b, shoff_us + SECTION_HEADER_SIZE * symtab_idx + 40);
        assert(strtab_idx == spec_sh_link(b@, spec_symtab_index(b@)));
        let mut symstr: Vec<u8> = Vec::new();
        let mut symstr_ok: bool = false;
        if (strtab_idx as usize) < shnum {
            symstr = section_bytes(b, shoff_us, strtab_idx as usize);
            symstr_ok = true;
        }
        let mut s: usize = 0;
        while s < count
            invariant
                0 <= s <= count,
                symlen == symdata@.len(),
                shnum == spec_shnum(b@),
                spec_symtab_index(b@) >= 0,
                symdata@ == spec_section_data(b@, spec_symtab_index(b@)),
                symdata@.len() == (SYMBOL_SIZE as int) * count,
                count == spec_sym_count(b@),
                strtab_idx == spec_sh_link(b@, spec_symtab_index(b@)),
                symstr_ok <==> 0 <= spec_symstr_index(b@) < spec_shnum(b@),
                symstr_ok ==> symstr@ == spec_section_data(b@, spec_symstr_index(b@)),
                symbols@.len() == s,
                forall|j: int|
                    0 <= j < s ==> {
                        let y = #[trigger] symbols@[j];
                        &&& y.value == spec_sym_value(b@, j)
                        &&& (y.name is Some <==> spec_sym_name(b@, j) is Some)
                        &&& (y.name matches Some(n) ==> spec_sym_name(b@, j) == Some(n@))
                    },
            decreases count - s,
        {
            assert((SYMBOL_SIZE as int) * (s as int) + (SYMBOL_SIZE as int) <= symdata@.len());
            let base: usize = SYMBOL_SIZE * s;
            let st_name = read_u32(symdata.as_slice(), base);
            let value = read_u64(symdata.as_slice(), base + 8);
            let name: Option<String> = if symstr_ok {
                read_cstr(symstr.as_slice(), st_name)
            } else {
                None
            };
            symbols.push(Symbol { name, value });
            s = s + 1;
        }
    }
    assert(spec_object_ok(b@));
    Ok(ObjectFile { sections, symbols })
}

} // verus!
