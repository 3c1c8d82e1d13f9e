//! The object-model builder and the finished module.
//!
//! Pass 1 (`scan`) walks every section once, in section-index order, and
//! extracts the kernel-version requirement, the license, the map
//! configurations, the program descriptors and the pending relocation list.
//! The map-creation collaborator is then called outside the library, once
//! per extracted configuration, and its handles come back as plain values.
//! Pass 2 (`link`) materializes the map table from those handles
//! (last-write-wins on duplicate names), resolves every pending relocation,
//! and assembles the immutable `Module`.  A program section may reference a
//! map defined later in the same file: this is the reason for the two-pass
//! design.

use crate::bytes::{bytes_to_string, le32_at, le64_at, nul_position, read_u32, read_u64, sub_bytes,
    spec_nul_position};
use crate::elf::{ObjectFile, Section, Symbol, SHT_PROGBITS, SHT_REL};
use crate::error::Error;
use crate::insn::{spec_insns_of, Insn, INSN_SIZE};
use crate::map::{MapConfig, MapDescriptor, MAP_CONFIG_SIZE};
use crate::program::{spec_has_nul_char, has_nul_char, Program, ProgramData, ProgramState};
use crate::reloc::{
    lemma_find_map, lemma_find_view, spec_apply_all, spec_apply_one, spec_codes, spec_find_index,
    spec_find_map, spec_find_view, spec_map_view, spec_map_views, RelocationInfo,
};
use crate::section::{
    get_split_section_name, spec_kind_of, spec_kind_tag, spec_subname_of, SectionKind,
};
use vstd::prelude::*;
use vstd::utf8::{decode_utf8, valid_utf8};

verus! {

/// Byte size of one relocation entry.
pub const REL_ENTRY_SIZE: usize = 16;

/// The sentinel version value meaning "use the running kernel's version".
pub const VERSION_ANY: u32 = 0xFFFF_FFFE;

/// A map section's extracted name and configuration, awaiting the
/// map-creation collaborator's handle.
pub struct MapRequest {
    /// The map's name: the subname of its section.
    pub name: String,
    /// The configuration record read from the section's content.
    pub config: MapConfig,
}

/// Everything pass 1 extracts from the object, awaiting the map handles.
pub struct PendingModule {
    /// The license string of the last license section, empty when none
    /// occurred.
    pub license: String,
    /// The resolved kernel-version requirement.
    pub version: u32,
    /// The map configurations, in section order.
    pub map_requests: Vec<MapRequest>,
    /// For each extracted program, the index of its section; parallel to
    /// `programs`.
    pub program_sections: Vec<usize>,
    /// The extracted programs, in section order, all `Unloaded`.
    pub programs: Vec<Program>,
    /// The pending relocations, in section order.
    pub relocations: Vec<RelocationInfo>,
}

impl PendingModule {
    /// The two program lists are parallel.
    pub open spec fn wf(self) -> bool {
        self.program_sections@.len() == self.programs@.len()
    }
}

/// The name of a section, as a character sequence.
pub open spec fn spec_sec_name(s: Section) -> Option<Seq<char>> {
    match s.name {
        Some(n) => Some(n@),
        None => None,
    }
}

/// The semantic kind of a named section (`Other` for an unnamed one).
pub open spec fn spec_sec_tag(s: Section) -> SectionKind {
    match spec_sec_name(s) {
        Some(n) => spec_kind_tag(spec_kind_of(n)),
        None => SectionKind::Other,
    }
}

/// The subname of a named section.
pub open spec fn spec_sec_sub(s: Section) -> Option<Seq<char>> {
    match spec_sec_name(s) {
        Some(n) => spec_subname_of(n),
        None => None,
    }
}

/// The section sets the module's license.
pub open spec fn spec_is_license_section(s: Section) -> bool {
    s.section_type == SHT_PROGBITS && spec_sec_tag(s) == SectionKind::License
}

/// The section sets the module's kernel-version requirement.
pub open spec fn spec_is_version_section(s: Section) -> bool {
    s.section_type == SHT_PROGBITS && spec_sec_tag(s) == SectionKind::Version
}

/// The section configures a map (it has a map kind and a subname).
pub open spec fn spec_is_map_section(s: Section) -> bool {
    s.section_type == SHT_PROGBITS && spec_sec_tag(s) == SectionKind::Maps && spec_sec_sub(
        s,
    ) is Some
}

/// The section holds a program (a recognized program kind and a subname).
pub open spec fn spec_is_program_section(s: Section) -> bool {
    s.section_type == SHT_PROGBITS && Program::spec_is_program_kind(spec_sec_tag(s))
        && spec_sec_sub(s) is Some
}

/// The license text of a license section: the bytes before the first NUL,
/// decoded.
pub open spec fn spec_license_text(s: Section) -> Seq<char> {
    decode_utf8(s.data@.take(spec_nul_position(s.data@)))
}

/// The module's license: the text of the last license section, or empty.
pub open spec fn spec_license(sections: Seq<Section>) -> Seq<char>
    decreases sections.len(),
{
    if sections.len() == 0 {
        Seq::<char>::empty()
    } else if spec_is_license_section(sections.last()) {
        spec_license_text(sections.last())
    } else {
        spec_license(sections.drop_last())
    }
}

/// The raw kernel-version requirement: the first word of the last version
/// section, or 0.
pub open spec fn spec_raw_version(sections: Seq<Section>) -> u32
    decreases sections.len(),
{
    if sections.len() == 0 {
        0u32
    } else if spec_is_version_section(sections.last()) {
        le32_at(sections.last().data@, 0)
    } else {
        spec_raw_version(sections.drop_last())
    }
}

/// The resolved version: the sentinel is replaced by the running kernel's
/// version; any other raw value is used verbatim.
pub open spec fn spec_resolve_version(raw: u32, running: u32) -> u32 {
    if raw == VERSION_ANY {
        running
    } else {
        raw
    }
}

/// The map sections' `(subname, configuration)` pairs, in section order.
pub open spec fn spec_map_requests(sections: Seq<Section>) -> Seq<(Seq<char>, MapConfig)>
    decreases sections.len(),
{
    if sections.len() == 0 {
        Seq::<(Seq<char>, MapConfig)>::empty()
    } else {
        spec_map_requests(sections.drop_last()) + (if spec_is_map_section(sections.last()) {
            seq![
                (
                    spec_sec_sub(sections.last())->0,
                    crate::map::spec_map_config_at(sections.last().data@),
                ),
            ]
        } else {
            Seq::<(Seq<char>, MapConfig)>::empty()
        })
    }
}

/// The indices of the program sections, in increasing order.
pub open spec fn spec_program_sections(sections: Seq<Section>) -> Seq<usize>
    decreases sections.len(),
{
    if sections.len() == 0 {
        Seq::<usize>::empty()
    } else {
        spec_program_sections(sections.drop_last()) + (if spec_is_program_section(
            sections.last(),
        ) {
            seq![(sections.len() - 1) as usize]
        } else {
            Seq::<usize>::empty()
        })
    }
}

/// The relocation entries stored in one relocation section: 16-byte records
/// holding the patch offset and the referenced symbol, all targeting the
/// section named by the relocation section's `sh_info` field.
pub open spec fn spec_rel_entries(info: u32, data: Seq<u8>) -> Seq<RelocationInfo> {
    Seq::new(
        data.len() / (REL_ENTRY_SIZE as nat),
        |k: int|
            RelocationInfo {
                target_sec_idx: info as usize,
                offset: le64_at(data, (REL_ENTRY_SIZE as int) * k),
                sym_idx: (le64_at(data, (REL_ENTRY_SIZE as int) * k + 8) >> 32) as usize,
            },
    )
}

/// All pending relocations, in section order.
pub open spec fn spec_relocations(sections: Seq<Section>) -> Seq<RelocationInfo>
    decreases sections.len(),
{
    if sections.len() == 0 {
        Seq::<RelocationInfo>::empty()
    } else {
        spec_relocations(sections.drop_last()) + (if sections.last().section_type == SHT_REL {
            spec_rel_entries(sections.last().info, sections.last().data@)
        } else {
            Seq::<RelocationInfo>::empty()
        })
    }
}

/// Pass 1 accepts the section: it is named, and its content fits the shape
/// its kind requires.
pub open spec fn spec_scan_section_ok(s: Section) -> bool {
    &&& s.name is Some
    &&& {
        let tag = spec_sec_tag(s);
        let sub = spec_sec_sub(s);
        if s.section_type == SHT_REL {
            s.data@.len() % (REL_ENTRY_SIZE as nat) == 0
        } else if s.section_type == SHT_PROGBITS {
            if tag == SectionKind::Version {
                s.data@.len() >= 4
            } else if tag == SectionKind::License {
                valid_utf8(s.data@.take(spec_nul_position(s.data@)))
            } else if tag == SectionKind::Maps {
                sub matches Some(n) ==> s.data@.len() >= MAP_CONFIG_SIZE && !spec_has_nul_char(n)
            } else if Program::spec_is_program_kind(tag) {
                sub is Some ==> s.data@.len() % (INSN_SIZE as nat) == 0
            } else {
                true
            }
        } else {
            true
        }
    }
}

/// Pass 1 accepts every section.
pub open spec fn spec_scan_ok(sections: Seq<Section>) -> bool {
    forall|i: int| 0 <= i < sections.len() ==> spec_scan_section_ok(#[trigger] sections[i])
}

/// The error pass 1 reports for the section with index `i`, when it is the
/// first one it refuses.
pub open spec fn spec_scan_error(s: Section, i: int) -> Error {
    if s.name is None {
        Error::MissingSectionName(i as usize)
    } else if s.section_type == SHT_REL {
        Error::MalformedObject
    } else {
        let tag = spec_sec_tag(s);
        if tag == SectionKind::Version {
            Error::UnsupportedSectionKind
        } else if tag == SectionKind::License {
            Error::MalformedObject
        } else if tag == SectionKind::Maps {
            if s.data@.len() < MAP_CONFIG_SIZE {
                Error::UnsupportedSectionKind
            } else {
                Error::StringConversionError
            }
        } else {
            Error::UnsupportedSectionKind
        }
    }
}

/// Reads a version section's content: its first little-endian word, with
/// the sentinel value replaced by `running_kernel_version`.
pub fn get_version(data: &[u8], running_kernel_version: u32) -> (r: Result<u32, Error>)
    ensures
        r is Ok <==> data@.len() >= 4,
        r matches Ok(v) ==> v == spec_resolve_version(le32_at(data@, 0), running_kernel_version),
        r is Err ==> r == Result::<u32, Error>::Err(Error::UnsupportedSectionKind),
{
    if data.len() < 4 {
        return Err(Error::UnsupportedSectionKind);
    }
    let raw = read_u32(data, 0);
    if raw == VERSION_ANY {
        Ok(running_kernel_version)
    } else {
        Ok(raw)
    }
}

/// Reads a license section's content: the text before the first NUL byte,
/// stored without the terminator.
pub fn extract_license(data: &[u8]) -> (r: Result<String, Error>)
    ensures
        r is Ok <==> valid_utf8(data@.take(spec_nul_position(data@))),
        r matches Ok(s) ==> s@ == decode_utf8(data@.take(spec_nul_position(data@))),
        r is Err ==> r == Result::<String, Error>::Err(Error::MalformedObject),
{
    proof {
        crate::bytes::lemma_nul_position(data@);
    }
    let p = nul_position(data);
    let text = sub_bytes(data, 0, p);
    assert(text@ =~= data@.take(spec_nul_position(data@)));
    match bytes_to_string(text) {
        Some(s) => Ok(s),
        None => Err(Error::MalformedObject),
    }
}

/// Decodes a relocation section's content into its entries, all targeting
/// the section with index `info`.
pub fn decode_rel_entries(info: u32, data: &[u8]) -> (r: Result<Vec<RelocationInfo>, Error>)
    ensures
        data@.len() % (REL_ENTRY_SIZE as nat) == 0 <==> r is Ok,
        r matches Ok(v) ==> v@ == spec_rel_entries(info, data@),
        r is Err ==> r == Result::<Vec<RelocationInfo>, Error>::Err(Error::MalformedObject),
{
    let n: usize = data.len();
    if n % REL_ENTRY_SIZE != 0 {
        return Err(Error::MalformedObject);
    }
    let count: usize = n / REL_ENTRY_SIZE;
    assert(n == (REL_ENTRY_SIZE as int) * count);
    let mut v: Vec<RelocationInfo> = Vec::new();
    let mut i: usize = 0;
    while i < count
        invariant
            0 <= i <= count,
            n == data@.len(),
            n == (REL_ENTRY_SIZE as int) * count,
            v@.len() == i,
            forall|k: int|
                0 <= k < i ==> v@[k] == (RelocationInfo {
                    target_sec_idx: info as usize,
                    offset: le64_at(data@, (REL_ENTRY_SIZE as int) * k),
                    sym_idx: (le64_at(data@, (REL_ENTRY_SIZE as int) * k + 8) >> 32) as usize,
                }),
        decreases count - i,
    {
        let off: usize = i * REL_ENTRY_SIZE;
        let offset: u64 = read_u64(data, off);
        let r_info: u64 = read_u64(data, off + 8);
        v.push(
            RelocationInfo {
                target_sec_idx: info as usize,
                offset,
                sym_idx: (r_info >> 32) as usize,
            },
        );
        i = i + 1;
    }
    assert(v@ =~= spec_rel_entries(info, data@));
    Ok(v)
}

/// Pass 1: walks every section once, in section-index order, and extracts
/// the version requirement, the license, the map configurations, the
/// program descriptors and the pending relocations.  The first section that
/// cannot be classified or whose content does not fit its kind aborts the
/// whole pass with its typed error.
pub fn scan(object: &ObjectFile, running_kernel_version: u32) -> (r: Result<PendingModule, Error>)
    ensures
        r is Ok <==> spec_scan_ok(object.sections@),
        r matches Err(e) ==> exists|i: int|
            {
                &&& 0 <= i < object.sections@.len()
                &&& !spec_scan_section_ok(#[trigger] object.sections@[i])
                &&& forall|k: int| 0 <= k < i ==> spec_scan_section_ok(#[trigger] object.sections@[k])
                &&& e == spec_scan_error(object.sections@[i], i)
            },
        r matches Ok(p) ==> {
            let sections = object.sections@;
            &&& p.wf()
            &&& p.license@ == spec_license(sections)
            &&& p.version == spec_resolve_version(
                spec_raw_version(sections),
                running_kernel_version,
            )
            &&& p.map_requests@.len() == spec_map_requests(sections).len()
            &&& forall|j: int|
                0 <= j < p.map_requests@.len() ==> {
                    let req = #[trigger] p.map_requests@[j];
                    &&& req.name@ == spec_map_requests(sections)[j].0
                    &&& req.config == spec_map_requests(sections)[j].1
                }
            &&& p.program_sections@ == spec_program_sections(sections)
            &&& p.programs@.len() == spec_program_sections(sections).len()
            &&& forall|j: int|
                0 <= j < p.programs@.len() ==> {
                    let prog = #[trigger] p.programs@[j];
                    let sec = sections[p.program_sections@[j] as int];
                    &&& prog.wf()
                    &&& prog.spec_section_kind() == spec_sec_tag(sec)
                    &&& prog.spec_data().name@ == spec_sec_sub(sec)->0
                    &&& prog.spec_data().code@ == spec_insns_of(sec.data@)
                    &&& prog.spec_data().fd is None
                    &&& prog.spec_data().state == ProgramState::Unloaded
                }
            &&& p.relocations@ == spec_relocations(sections)
        },
{
    let num: usize = object.sections.len();
    let mut license: String = String::new();
    let mut version: u32 = 0;
    let mut map_requests: Vec<MapRequest> = Vec::new();
    let mut program_sections: Vec<usize> = Vec::new();
    let mut programs: Vec<Program> = Vec::new();
    let mut relocations: Vec<RelocationInfo> = Vec::new();
    let mut i: usize = 0;
    while i < num
        invariant
            0 <= i <= num,
            num == object.sections@.len(),
            forall|k: int| 0 <= k < i ==> spec_scan_section_ok(#[trigger] object.sections@[k]),
            license@ == spec_license(object.sections@.take(i as int)),
            version == spec_resolve_version(
                spec_raw_version(object.sections@.take(i as int)),
                running_kernel_version,
            ),
            map_requests@.len() == spec_map_requests(object.sections@.take(i as int)).len(),
            forall|j: int|
                0 <= j < map_requests@.len() ==> {
                    let req = #[trigger] map_requests@[j];
                    &&& req.name@ == spec_map_requests(object.sections@.take(i as int))[j].0
                    &&& req.config == spec_map_requests(object.sections@.take(i as int))[j].1
                },
            program_sections@ == spec_program_sections(object.sections@.take(i as int)),
            programs@.len() == program_sections@.len(),
            forall|j: int|
                0 <= j < programs@.len() ==> {
                    let prog = #[trigger] programs@[j];
                    let sec = object.sections@[program_sections@[j] as int];
                    &&& 0 <= program_sections@[j] < i
                    &&& prog.wf()
                    &&& prog.spec_section_kind() == spec_sec_tag(sec)
                    &&& prog.spec_data().name@ == spec_sec_sub(sec)->0
                    &&& prog.spec_data().code@ == spec_insns_of(sec.data@)
                    &&& prog.spec_data().fd is None
                    &&& prog.spec_data().state == ProgramState::Unloaded
                },
            relocations@ == spec_relocations(object.sections@.take(i as int)),
        decreases num - i,
    {
        let ghost prefix = object.sections@.take(i as int);
        let ghost prefix1 = object.sections@.take(i as int + 1);
        proof {
            assert(prefix1.drop_last() =~= prefix);
            assert(prefix1.last() == object.sections@[i as int]);
        }
        let sec: &Section = &object.sections[i];
        let (kind, sub) = match get_split_section_name(sec, i) {
            Ok(ks) => ks,
            Err(e) => {
                assert(!spec_scan_section_ok(object.sections@[i as int]));
                assert(e == spec_scan_error(object.sections@[i as int], i as int));
                return Err(e);
            },
        };
        if sec.section_type == SHT_REL {
            let mut entries = match decode_rel_entries(sec.info, sec.data.as_slice()) {
                Ok(v) => v,
                Err(e) => {
                    assert(!spec_scan_section_ok(object.sections@[i as int]));
                    return Err(e);
                },
            };
            relocations.append(&mut entries);
        } else if sec.section_type == SHT_PROGBITS {
            match (crate::section::kind_tag(kind.as_str()), sub) {
                (SectionKind::Version, _) => {
                    version = match get_version(sec.data.as_slice(), running_kernel_version) {
                        Ok(v) => v,
                        Err(e) => {
                            assert(!spec_scan_section_ok(object.sections@[i as int]));
                            return Err(e);
                        },
                    };
                },
                (SectionKind::License, _) => {
                    license = match extract_license(sec.data.as_slice()) {
                        Ok(s) => s,
                        Err(e) => {
                            assert(!spec_scan_section_ok(object.sections@[i as int]));
                            return Err(e);
                        },
                    };
                },
                (SectionKind::Maps, Some(name)) => {
                    let config = match MapConfig::from_bytes(sec.data.as_slice()) {
                        Ok(c) => c,
                        Err(e) => {
                            assert(!spec_scan_section_ok(object.sections@[i as int]));
                            assert(e == spec_scan_error(object.sections@[i as int], i as int));
                            return Err(e);
                        },
                    };
                    if has_nul_char(name.as_str()) {
                        assert(!spec_scan_section_ok(object.sections@[i as int]));
                        assert(spec_scan_error(object.sections@[i as int], i as int)
                            == Error::StringConversionError);
                        return Err(Error::StringConversionError);
                    }
                    map_requests.push(MapRequest { name, config });
                },
                (SectionKind::KProbe, Some(name))
                | (SectionKind::KRetProbe, Some(name))
                | (SectionKind::UProbe, Some(name))
                | (SectionKind::URetProbe, Some(name))
                | (SectionKind::TracePoint, Some(name))
                | (SectionKind::SocketFilter, Some(name))
                | (SectionKind::Xdp, Some(name)) => {
                    let prog = match Program::new(kind.as_str(), name.as_str(), sec.data.as_slice())
                        {
                        Ok(p) => p,
                        Err(e) => {
                            assert(!spec_scan_section_ok(object.sections@[i as int]));
                            return Err(e);
                        },
                    };
                    program_sections.push(i);
                    programs.push(prog);
                },
                _ => {},
            }
        }
        assert(spec_scan_section_ok(object.sections@[i as int]));
        proof {
            if spec_is_license_section(object.sections@[i as int]) {
            } else {
                assert(spec_license(prefix1) == spec_license(prefix));
            }
            if spec_is_version_section(object.sections@[i as int]) {
            } else {
                assert(spec_raw_version(prefix1) == spec_raw_version(prefix));
            }
        }
        i = i + 1;
    }
    proof {
        assert(object.sections@.take(num as int) =~= object.sections@);
    }
    Ok(
        PendingModule {
            license,
            version,
            map_requests,
            program_sections,
            programs,
            relocations,
        },
    )
}

/// The descriptor a request materializes into, given its granted handle.
pub open spec fn spec_map_descriptor(req: MapRequest, fd: i32) -> MapDescriptor {
    MapDescriptor {
        name: req.name,
        kind: req.config.kind,
        fd,
        config: req.config,
        section_data: false,
    }
}

/// Inserting a descriptor into the map table: a descriptor with the same
/// name is superseded in place (last-write-wins); a new name is appended.
pub open spec fn spec_upsert(maps: Seq<MapDescriptor>, m: MapDescriptor) -> Seq<MapDescriptor> {
    let j = spec_find_map(maps, m.name@);
    if j < 0 {
        maps.push(m)
    } else {
        maps.update(j, m)
    }
}

/// The map table after materializing the first `i` requests with their
/// granted handles.
pub open spec fn spec_build_maps(requests: Seq<MapRequest>, fds: Seq<i32>, i: int) -> Seq<
    MapDescriptor,
>
    decreases i,
{
    if i <= 0 {
        Seq::<MapDescriptor>::empty()
    } else {
        spec_upsert(
            spec_build_maps(requests, fds, i - 1),
            spec_map_descriptor(requests[i - 1], fds[i - 1]),
        )
    }
}

/// The last index `< n` whose request carries `name`, or `-1`.
pub open spec fn spec_last_request(requests: Seq<MapRequest>, n: int, name: Seq<char>) -> int
    decreases n,
{
    if n <= 0 {
        -1
    } else if requests[n - 1].name@ == name {
        n - 1
    } else {
        spec_last_request(requests, n - 1, name)
    }
}

/// The finished module: named map table, program list, license and resolved
/// kernel version.  Immutable once assembled, except for the program
/// handle and state transitions performed by the load and attach steps.
pub struct Module {
    /// The extracted programs, patched by relocation resolution.
    pub programs: Vec<Program>,
    /// The materialized maps; names are unique.
    pub maps: Vec<MapDescriptor>,
    /// The license string, without its terminator.
    pub license: String,
    /// The resolved kernel-version requirement.
    pub version: u32,
}

/// Every one of the first `n` map requests got a valid handle.
pub open spec fn spec_fds_ok(n: int, fds: Seq<i32>) -> bool {
    forall|i: int| 0 <= i < n ==> i < fds.len() && #[trigger] fds[i] >= 0
}

/// Pass 2 and assembly: materializes the map table from the granted
/// handles, resolves every pending relocation, and assembles the module.
///
/// Handle `map_fds[i]` answers the `i`-th map request; a missing or
/// negative handle is a refused creation and aborts with
/// `MapCreationError`.  Every pending relocation is then resolved against
/// the finished map table; the first failure aborts with its error, and no
/// partial module is ever returned.
pub fn link(pending: PendingModule, symtab: &Vec<Symbol>, map_fds: &Vec<i32>) -> (r: Result<
    Module,
    Error,
>)
    requires
        pending.wf(),
    ensures
        !spec_fds_ok(pending.map_requests@.len() as int, map_fds@) ==> r == Result::<
            Module,
            Error,
        >::Err(Error::MapCreationError),
        spec_fds_ok(pending.map_requests@.len() as int, map_fds@) ==> {
            let built = spec_build_maps(
                pending.map_requests@,
                map_fds@,
                pending.map_requests@.len() as int,
            );
            let res = spec_apply_all(
                pending.program_sections@,
                spec_codes(pending.programs@),
                spec_map_views(built),
                symtab@,
                pending.relocations@,
            );
            &&& (res matches Err(e) ==> r == Result::<Module, Error>::Err(e))
            &&& (res matches Ok(cs) ==> r matches Ok(m) && {
                &&& m.maps@ == built
                &&& m.license == pending.license
                &&& m.version == pending.version
                &&& m.programs@.len() == pending.programs@.len()
                &&& spec_codes(m.programs@) == cs
                &&& forall|j: int|
                    0 <= j < m.programs@.len() ==> #[trigger] m.programs@[j] == pending.programs@[
                        j
                    ].spec_with_data(
                        ProgramData {
                            code: m.programs@[j].spec_data().code,
                            ..pending.programs@[j].spec_data()
                        },
                    )
            })
        },
{
    let PendingModule { license, version, map_requests, program_sections, mut programs, relocations } =
        pending;

    // Materialize the map table; a later request with a known name
    // supersedes the earlier map.
    let nreq: usize = map_requests.len();
    let mut maps: Vec<MapDescriptor> = Vec::new();
    let mut i: usize = 0;
    while i < nreq
        invariant
            0 <= i <= nreq,
            nreq == map_requests@.len(),
            map_requests == pending.map_requests,
            forall|t: int| 0 <= t < i ==> t < map_fds@.len() && map_fds@[t as int] >= 0,
            maps@ == spec_build_maps(map_requests@, map_fds@, i as int),
        decreases nreq - i,
    {
        if i >= map_fds.len() {
            proof {
                assert(!spec_fds_ok(pending.map_requests@.len() as int, map_fds@)) by {
                    assert(!((i as int) < map_fds@.len() && map_fds@[i as int] >= 0));
                }
            }
            return Err(Error::MapCreationError);
        }
        let fd: i32 = *vstd::slice::slice_index_get(map_fds.as_slice(), i);
        let name: String = map_requests[i].name.clone();
        let config: MapConfig = map_requests[i].config;
        let existing = crate::reloc::find_map(&maps, name.as_str());
        let d: MapDescriptor = match MapDescriptor::with_map_def(name, config, fd) {
            Ok(d) => d,
            Err(e) => {
                assert(!spec_fds_ok(pending.map_requests@.len() as int, map_fds@)) by {
                    assert(map_fds@[i as int] < 0);
                }
                return Err(e);
            },
        };
        assert(d == spec_map_descriptor(map_requests@[i as int], map_fds@[i as int]));
        match existing {
            Some(j) => {
                maps[j] = d;
            },
            None => {
                maps.push(d);
            },
        }
        i = i + 1;
    }
    assert(maps@ == spec_build_maps(map_requests@, map_fds@, nreq as int));
    assert(spec_fds_ok(pending.map_requests@.len() as int, map_fds@)) by {
        assert(forall|t: int|
            0 <= t < nreq ==> t < map_fds@.len() && #[trigger] map_fds@[t] >= 0);
    }

    // Resolve every pending relocation, consuming the list in order.
    let ghost orig_programs = programs@;
    let ghost built = maps@;
    proof {
        assert(relocations@.skip(0) =~= relocations@);
    }
    let nrel: usize = relocations.len();
    let mut k: usize = 0;
    while k < nrel
        invariant
            0 <= k <= nrel,
            nrel == relocations@.len(),
            map_requests == pending.map_requests,
            program_sections == pending.program_sections,
            relocations == pending.relocations,
            orig_programs == pending.programs@,
            spec_fds_ok(pending.map_requests@.len() as int, map_fds@),
            built == spec_build_maps(pending.map_requests@, map_fds@, pending.map_requests@.len() as int),
            program_sections@.len() == programs@.len(),
            orig_programs.len() == programs@.len(),
            built == maps@,
            spec_apply_all(
                program_sections@,
                spec_codes(orig_programs),
                spec_map_views(built),
                symtab@,
                relocations@,
            ) == spec_apply_all(
                program_sections@,
                spec_codes(programs@),
                spec_map_views(built),
                symtab@,
                relocations@.skip(k as int),
            ),
            forall|j: int|
                0 <= j < programs@.len() ==> #[trigger] programs@[j] == orig_programs[
                    j
                ].spec_with_data(
                    ProgramData { code: programs@[j].spec_data().code, ..orig_programs[j].spec_data() },
                ),
        decreases nrel - k,
    {
        let ghost pre = programs@;
        let rel: RelocationInfo = *vstd::slice::slice_index_get(relocations.as_slice(), k);
        proof {
            assert(relocations@.skip(k as int)[0] == rel);
            assert(relocations@.skip(k as int).drop_first() =~= relocations@.skip(k as int + 1));
        }
        match rel.apply(&program_sections, &mut programs, &maps, symtab) {
            Ok(()) => {},
            Err(e) => {
                proof {
                    let res1 = spec_apply_one(
                        program_sections@,
                        spec_codes(pre),
                        spec_map_views(built),
                        symtab@,
                        rel,
                    );
                    assert(res1 matches Err(e0) && e0 == e);
                    assert(spec_apply_all(
                        program_sections@,
                        spec_codes(pre),
                        spec_map_views(built),
                        symtab@,
                        relocations@.skip(k as int),
                    ) == Result::<Seq<Seq<Insn>>, Error>::Err(e));
                }
                return Err(e);
            },
        }
        proof {
            assert forall|j: int| 0 <= j < programs@.len() implies #[trigger] programs@[j]
                == orig_programs[j].spec_with_data(
                ProgramData { code: programs@[j].spec_data().code, ..orig_programs[j].spec_data() },
            ) by {
                assert(pre[j] == orig_programs[j].spec_with_data(
                    ProgramData { code: pre[j].spec_data().code, ..orig_programs[j].spec_data() },
                ));
            }
        }
        k = k + 1;
    }
    proof {
        assert(relocations@.skip(nrel as int) =~= Seq::<RelocationInfo>::empty());
    }
    Ok(Module { programs, maps, license, version })
}

/// The first index of a program named `name`, or `-1`.
pub open spec fn spec_find_program(programs: Seq<Program>, name: Seq<char>) -> int
    decreases programs.len(),
{
    if programs.len() == 0 {
        -1
    } else if programs[0].spec_data().name@ == name {
        0
    } else {
        let r = spec_find_program(programs.drop_first(), name);
        if r < 0 {
            -1
        } else {
            r + 1
        }
    }
}

/// `spec_find_program` finds the first program with the name, or reports
/// that none carries it.
pub proof fn lemma_find_program(programs: Seq<Program>, name: Seq<char>)
    ensures
        spec_find_program(programs, name) == -1 ==> forall|j: int|
            0 <= j < programs.len() ==> programs[j].spec_data().name@ != name,
        spec_find_program(programs, name) >= 0 ==> {
            let r = spec_find_program(programs, name);
            &&& 0 <= r < programs.len()
            &&& programs[r].spec_data().name@ == name
            &&& forall|j: int| 0 <= j < r ==> programs[j].spec_data().name@ != name
        },
    decreases programs.len(),
{
    if programs.len() > 0 && programs[0].spec_data().name@ != name {
        lemma_find_program(programs.drop_first(), name);
        let r0 = spec_find_program(programs.drop_first(), name);
        if r0 == -1 {
            assert forall|j: int| 0 <= j < programs.len() implies programs[j].spec_data().name@
                != name by {
                if j > 0 {
                    assert(programs.drop_first()[j - 1].spec_data().name@ != name);
                }
            }
        } else {
            assert(programs.drop_first()[r0].spec_data().name@ == name);
            assert forall|j: int| 0 <= j < r0 + 1 implies programs[j].spec_data().name@ != name by {
                if j > 0 {
                    assert(programs.drop_first()[j - 1].spec_data().name@ != name);
                }
            }
        }
    }
}

/// The indices of the socket-filter programs among the first `n` programs,
/// in increasing order.
pub open spec fn spec_socket_filter_indices(programs: Seq<Program>, n: int) -> Seq<usize>
    decreases n,
{
    if n <= 0 {
        Seq::<usize>::empty()
    } else {
        spec_socket_filter_indices(programs, n - 1) + (if programs[n - 1].spec_section_kind()
            == SectionKind::SocketFilter {
            seq![(n - 1) as usize]
        } else {
            Seq::<usize>::empty()
        })
    }
}

impl Module {
    /// The set of map names in the module's map table.
    pub open spec fn spec_map_names(self) -> Set<Seq<char>> {
        spec_map_name_set(self.maps@)
    }

    /// Looks a program up by name: a linear scan returning the first match.
    pub fn program(&self, name: &str) -> (r: Option<&Program>)
        ensures
            r is Some <==> spec_find_program(self.programs@, name@) >= 0,
            r matches Some(p) ==> *p == self.programs@[spec_find_program(self.programs@, name@)]
                && p.spec_data().name@ == name@,
    {
        proof {
            lemma_find_program(self.programs@, name@);
        }
        let n: usize = self.programs.len();
        let mut i: usize = 0;
        while i < n
            invariant
                0 <= i <= n,
                n == self.programs@.len(),
                forall|j: int| 0 <= j < i ==> self.programs@[j].spec_data().name@ != name@,
                spec_find_program(self.programs@, name@) >= 0 ==> {
                    let r = spec_find_program(self.programs@, name@);
                    &&& 0 <= r < self.programs@.len()
                    &&& self.programs@[r].spec_data().name@ == name@
                    &&& forall|j: int|
                        0 <= j < r ==> self.programs@[j].spec_data().name@ != name@
                },
                spec_find_program(self.programs@, name@) == -1 ==> forall|j: int|
                    0 <= j < self.programs@.len() ==> self.programs@[j].spec_data().name@ != name@,
            decreases n - i,
        {
            let p: &Program = &self.programs[i];
            if crate::section::str_eq(p.name(), name) {
                return Some(p);
            }
            i = i + 1;
        }
        None
    }

    /// Looks a map up by name: a direct keyed lookup into the unique-name
    /// table.
    pub fn map(&self, name: &str) -> (r: Option<&MapDescriptor>)
        ensures
            r is Some <==> spec_find_map(self.maps@, name@) >= 0,
            r matches Some(m) ==> *m == self.maps@[spec_find_map(self.maps@, name@)]
                && m.name@ == name@,
    {
        match crate::reloc::find_map(&self.maps, name) {
            Some(j) => Some(&self.maps[j]),
            None => None,
        }
    }

    /// Returns the indices of the socket-filter programs, in order.
    pub fn socket_filters(&self) -> (r: Vec<usize>)
        ensures
            r@ == spec_socket_filter_indices(self.programs@, self.programs@.len() as int),
    {
        let n: usize = self.programs.len();
        let mut r: Vec<usize> = Vec::new();
        let mut i: usize = 0;
        while i < n
            invariant
                0 <= i <= n,
                n == self.programs@.len(),
                r@ == spec_socket_filter_indices(self.programs@, i as int),
            decreases n - i,
        {
            match &self.programs[i] {
                Program::SocketFilter(_) => {
                    r.push(i);
                },
                _ => {},
            }
            i = i + 1;
        }
        r
    }
}

/// The set of names in a map table.
pub open spec fn spec_map_name_set(maps: Seq<MapDescriptor>) -> Set<Seq<char>> {
    Set::new(|n: Seq<char>| exists|j: int| 0 <= j < maps.len() && #[trigger] maps[j].name@ == n)
}

/// The set of subnames of the map sections.
pub open spec fn spec_map_section_subnames(sections: Seq<Section>) -> Set<Seq<char>> {
    Set::new(
        |n: Seq<char>|
            exists|i: int|
                0 <= i < sections.len() && spec_is_map_section(#[trigger] sections[i])
                    && spec_sec_sub(sections[i]) == Some(n),
    )
}

/// The last index `< n` whose pair carries `name`, or `-1`.
pub open spec fn spec_last_pair(pairs: Seq<(Seq<char>, MapConfig)>, n: int, name: Seq<char>) -> int
    decreases n,
{
    if n <= 0 {
        -1
    } else if pairs[n - 1].0 == name {
        n - 1
    } else {
        spec_last_pair(pairs, n - 1, name)
    }
}

/// Some pair among the first `pairs.len()` carries `name`.
pub open spec fn spec_pair_has_name(pairs: Seq<(Seq<char>, MapConfig)>, name: Seq<char>) -> bool {
    exists|t: int| 0 <= t < pairs.len() && #[trigger] pairs[t].0 == name
}

/// Appending a descriptor moves the first occurrence of a fresh name to the
/// end and leaves every present name's first occurrence alone.
pub proof fn lemma_find_map_push(maps: Seq<MapDescriptor>, m: MapDescriptor, name: Seq<char>)
    ensures
        spec_find_map(maps.push(m), name) == (if spec_find_map(maps, name) >= 0 {
            spec_find_map(maps, name)
        } else if m.name@ == name {
            maps.len() as int
        } else {
            -1
        }),
    decreases maps.len(),
{
    if maps.len() == 0 {
        assert(maps.push(m)[0] == m);
        assert(maps.push(m).drop_first() =~= Seq::<MapDescriptor>::empty());
        assert(spec_find_map(Seq::<MapDescriptor>::empty(), name) == -1);
    } else {
        assert(maps.push(m)[0] == maps[0]);
        if maps[0].name@ != name {
            assert(maps.push(m).drop_first() =~= maps.drop_first().push(m));
            lemma_find_map_push(maps.drop_first(), m, name);
        }
    }
}

/// Superseding a descriptor in place, name kept, leaves every lookup index
/// unchanged.
pub proof fn lemma_find_map_update(
    maps: Seq<MapDescriptor>,
    j: int,
    m: MapDescriptor,
    name: Seq<char>,
)
    requires
        0 <= j < maps.len(),
        maps[j].name@ == m.name@,
    ensures
        spec_find_map(maps.update(j, m), name) == spec_find_map(maps, name),
    decreases maps.len(),
{
    let upd = maps.update(j, m);
    if j == 0 {
        assert(upd[0] == m);
        if m.name@ != name {
            assert(upd.drop_first() =~= maps.drop_first());
        }
    } else {
        assert(upd[0] == maps[0]);
        if maps[0].name@ != name {
            assert(upd.drop_first() =~= maps.drop_first().update(j - 1, m));
            lemma_find_map_update(maps.drop_first(), j - 1, m, name);
        }
    }
}

/// The materialized map table carries unique names; each name's descriptor
/// comes from the last request with that name and its granted handle
/// (last-write-wins); and every requested name is present.
pub proof fn lemma_build_maps(requests: Seq<MapRequest>, fds: Seq<i32>, n: int)
    requires
        0 <= n <= requests.len(),
        n <= fds.len(),
    ensures
        ({
            let built = spec_build_maps(requests, fds, n);
            &&& built.len() <= n
            &&& forall|j: int, k: int|
                0 <= j < k < built.len() ==> built[j].name@ != built[k].name@
            &&& forall|j: int|
                0 <= j < built.len() ==> {
                    let li = spec_last_request(requests, n, #[trigger] built[j].name@);
                    &&& 0 <= li < n
                    &&& built[j] == spec_map_descriptor(requests[li], fds[li])
                }
            &&& forall|t: int|
                0 <= t < n ==> spec_find_map(built, #[trigger] requests[t].name@) >= 0
        }),
    decreases n,
{
    if n > 0 {
        lemma_build_maps(requests, fds, n - 1);
        let prev = spec_build_maps(requests, fds, n - 1);
        let d = spec_map_descriptor(requests[n - 1], fds[n - 1]);
        let built = spec_build_maps(requests, fds, n);
        let j0 = spec_find_map(prev, d.name@);
        lemma_find_map(prev, d.name@);
        assert(d.name@ == requests[n - 1].name@);
        if j0 >= 0 {
            assert(built == prev.update(j0, d));
            assert(prev[j0].name@ == d.name@);
            assert forall|j: int, k: int| 0 <= j < k < built.len() implies built[j].name@
                != built[k].name@ by {
                assert(built[j].name@ == prev[j].name@);
                assert(built[k].name@ == prev[k].name@);
            }
            assert forall|j: int| 0 <= j < built.len() implies {
                let li = spec_last_request(requests, n, #[trigger] built[j].name@);
                &&& 0 <= li < n
                &&& built[j] == spec_map_descriptor(requests[li], fds[li])
            } by {
                if j == j0 {
                    assert(built[j] == d);
                    assert(spec_last_request(requests, n, built[j].name@) == n - 1);
                } else {
                    assert(built[j] == prev[j]);
                    assert(prev[j].name@ != prev[j0].name@);
                    assert(spec_last_request(requests, n, built[j].name@)
                        == spec_last_request(requests, n - 1, built[j].name@));
                }
            }
            assert forall|t: int| 0 <= t < n implies spec_find_map(
                built,
                #[trigger] requests[t].name@,
            ) >= 0 by {
                lemma_find_map_update(prev, j0, d, requests[t].name@);
                if t < n - 1 {
                    assert(spec_find_map(prev, requests[t].name@) >= 0);
                } else {
                    assert(spec_find_map(prev, requests[t].name@) == j0);
                }
            }
        } else {
            assert(built == prev.push(d));
            assert(forall|j: int| 0 <= j < prev.len() ==> prev[j].name@ != d.name@);
            assert forall|j: int, k: int| 0 <= j < k < built.len() implies built[j].name@
                != built[k].name@ by {
                if k < prev.len() {
                    assert(built[j] == prev[j] && built[k] == prev[k]);
                } else {
                    assert(built[j] == prev[j] && built[k] == d);
                }
            }
            assert forall|j: int| 0 <= j < built.len() implies {
                let li = spec_last_request(requests, n, #[trigger] built[j].name@);
                &&& 0 <= li < n
                &&& built[j] == spec_map_descriptor(requests[li], fds[li])
            } by {
                if j == prev.len() {
                    assert(built[j] == d);
                    assert(spec_last_request(requests, n, built[j].name@) == n - 1);
                } else {
                    assert(built[j] == prev[j]);
                    assert(built[j].name@ != d.name@);
                    assert(spec_last_request(requests, n, built[j].name@)
                        == spec_last_request(requests, n - 1, built[j].name@));
                }
            }
            assert forall|t: int| 0 <= t < n implies spec_find_map(
                built,
                #[trigger] requests[t].name@,
            ) >= 0 by {
                lemma_find_map_push(prev, d, requests[t].name@);
                if t < n - 1 {
                    assert(spec_find_map(prev, requests[t].name@) >= 0);
                }
            }
        }
    }
}

/// With pointwise-equal names, the last request and the last pair with a
/// name coincide.
pub proof fn lemma_last_request_pairs(
    requests: Seq<MapRequest>,
    pairs: Seq<(Seq<char>, MapConfig)>,
    n: int,
    name: Seq<char>,
)
    requires
        0 <= n <= requests.len(),
        requests.len() == pairs.len(),
        forall|t: int| 0 <= t < requests.len() ==> #[trigger] requests[t].name@ == pairs[t].0,
    ensures
        spec_last_request(requests, n, name) == spec_last_pair(pairs, n, name),
    decreases n,
{
    if n > 0 {
        lemma_last_request_pairs(requests, pairs, n - 1, name);
    }
}

/// A name occurs among the map-request pairs exactly when some map section
/// carries it as its subname.
pub proof fn lemma_map_requests_names(sections: Seq<Section>, name: Seq<char>)
    ensures
        spec_pair_has_name(spec_map_requests(sections), name) <==> spec_map_section_subnames(
            sections,
        ).contains(name),
    decreases sections.len(),
{
    let pairs = spec_map_requests(sections);
    if sections.len() == 0 {
    } else {
        let butlast = sections.drop_last();
        let prev = spec_map_requests(butlast);
        lemma_map_requests_names(butlast, name);
        if spec_pair_has_name(pairs, name) {
            let t = choose|t: int| 0 <= t < pairs.len() && #[trigger] pairs[t].0 == name;
            if t < prev.len() {
                assert(prev[t].0 == name);
                assert(spec_pair_has_name(prev, name));
                let i = choose|i: int|
                    0 <= i < butlast.len() && spec_is_map_section(#[trigger] butlast[i])
                        && spec_sec_sub(butlast[i]) == Some(name);
                assert(sections[i] == butlast[i]);
                assert(spec_map_section_subnames(sections).contains(name));
            } else {
                assert(spec_is_map_section(sections.last()));
                assert(spec_sec_sub(sections[sections.len() - 1]) == Some(name));
                assert(spec_map_section_subnames(sections).contains(name));
            }
        }
        if spec_map_section_subnames(sections).contains(name) {
            let i = choose|i: int|
                0 <= i < sections.len() && spec_is_map_section(#[trigger] sections[i])
                    && spec_sec_sub(sections[i]) == Some(name);
            if i < sections.len() - 1 {
                assert(butlast[i] == sections[i]);
                assert(spec_map_section_subnames(butlast).contains(name));
                assert(spec_pair_has_name(prev, name));
                let t = choose|t: int| 0 <= t < prev.len() && #[trigger] prev[t].0 == name;
                assert(pairs[t].0 == name);
                assert(spec_pair_has_name(pairs, name));
            } else {
                assert(spec_is_map_section(sections.last()));
                assert(pairs[pairs.len() - 1].0 == name);
                assert(spec_pair_has_name(pairs, name));
            }
        }
    }
}


/// A resolved relocation list has no dangling target: whenever resolution
/// succeeds, every relocation's target section index names a program.
pub proof fn lemma_apply_all_targets(
    program_sections: Seq<usize>,
    codes: Seq<Seq<Insn>>,
    maps: Seq<(Seq<char>, i32, bool)>,
    symtab: Seq<Symbol>,
    rels: Seq<RelocationInfo>,
)
    ensures
        spec_apply_all(program_sections, codes, maps, symtab, rels) is Ok ==> forall|t: int|
            0 <= t < rels.len() ==> spec_find_index(
                program_sections,
                #[trigger] rels[t].target_sec_idx,
            ) >= 0,
    decreases rels.len(),
{
    if rels.len() > 0 && spec_apply_all(program_sections, codes, maps, symtab, rels) is Ok {
        let step = spec_apply_one(program_sections, codes, maps, symtab, rels[0]);
        assert(step is Ok);
        assert(spec_find_index(program_sections, rels[0].target_sec_idx) >= 0);
        lemma_apply_all_targets(program_sections, step->Ok_0, maps, symtab, rels.drop_first());
        assert forall|t: int| 0 <= t < rels.len() implies spec_find_index(
            program_sections,
            #[trigger] rels[t].target_sec_idx,
        ) >= 0 by {
            if t > 0 {
                assert(rels.drop_first()[t - 1] == rels[t]);
            }
        }
    }
}


/// Inserting one map view into the table: a view with the same name is
/// superseded in place (last-write-wins); a new name is appended.
pub open spec fn spec_upsert_view(
    views: Seq<(Seq<char>, i32, bool)>,
    v: (Seq<char>, i32, bool),
) -> Seq<(Seq<char>, i32, bool)> {
    let j = spec_find_view(views, v.0);
    if j < 0 {
        views.push(v)
    } else {
        views.update(j, v)
    }
}

/// The map table a relocation sees, stated over plain values alone: the
/// first `i` map-section pairs materialized with their granted handles,
/// none of them inline-data.
pub open spec fn spec_map_table(
    pairs: Seq<(Seq<char>, MapConfig)>,
    fds: Seq<i32>,
    i: int,
) -> Seq<(Seq<char>, i32, bool)>
    decreases i,
{
    if i <= 0 {
        Seq::<(Seq<char>, i32, bool)>::empty()
    } else {
        spec_upsert_view(spec_map_table(pairs, fds, i - 1), (pairs[i - 1].0, fds[i - 1], false))
    }
}

/// The materialized map table reads, for resolution purposes, exactly as
/// the plain-value table built from the pairs and the granted handles.
pub proof fn lemma_build_maps_views(
    requests: Seq<MapRequest>,
    pairs: Seq<(Seq<char>, MapConfig)>,
    fds: Seq<i32>,
    n: int,
)
    requires
        0 <= n <= requests.len(),
        requests.len() == pairs.len(),
        forall|t: int| 0 <= t < requests.len() ==> #[trigger] requests[t].name@ == pairs[t].0,
    ensures
        spec_map_views(spec_build_maps(requests, fds, n)) == spec_map_table(pairs, fds, n),
    decreases n,
{
    if n <= 0 {
        assert(spec_map_views(spec_build_maps(requests, fds, n)) =~= Seq::<
            (Seq<char>, i32, bool),
        >::empty());
    } else {
        lemma_build_maps_views(requests, pairs, fds, n - 1);
        let prev = spec_build_maps(requests, fds, n - 1);
        let d = spec_map_descriptor(requests[n - 1], fds[n - 1]);
        lemma_find_view(prev, d.name@);
        lemma_find_map(prev, d.name@);
        let j = spec_find_map(prev, d.name@);
        assert(spec_map_view(d) == (pairs[n - 1].0, fds[n - 1], false));
        if j < 0 {
            assert(spec_map_views(prev.push(d)) =~= spec_map_views(prev).push(spec_map_view(d)));
        } else {
            assert forall|k: int| 0 <= k < prev.len() implies spec_map_views(prev.update(j, d))[k]
                == spec_map_views(prev).update(j, spec_map_view(d))[k] by {
                if k == j {
                    assert(prev.update(j, d)[k] == d);
                } else {
                    assert(prev.update(j, d)[k] == prev[k]);
                }
            }
            assert(spec_map_views(prev.update(j, d)) =~= spec_map_views(prev).update(
                j,
                spec_map_view(d),
            ));
        }
    }
}

/// The instruction streams the program sections hold, before relocation.
pub open spec fn spec_initial_codes(sections: Seq<Section>) -> Seq<Seq<Insn>> {
    Seq::new(
        spec_program_sections(sections).len(),
        |j: int| spec_insns_of(sections[spec_program_sections(sections)[j] as int].data@),
    )
}

/// The outcome of relocation resolution, as a function of plain values
/// alone: the sections, the granted handles, and the symbol table.
pub open spec fn spec_resolution(
    sections: Seq<Section>,
    map_fds: Seq<i32>,
    symbols: Seq<Symbol>,
) -> Result<Seq<Seq<Insn>>, Error> {
    spec_apply_all(
        spec_program_sections(sections),
        spec_initial_codes(sections),
        spec_map_table(
            spec_map_requests(sections),
            map_fds,
            spec_map_requests(sections).len() as int,
        ),
        symbols,
        spec_relocations(sections),
    )
}

/// Parses an object into a module: pass 1 over the sections, map
/// materialization from the granted handles (`map_fds[i]` answers the
/// `i`-th map section, in section order), and relocation resolution.
///
/// Either a fully resolved module comes back, or one typed error: no
/// partially populated module is ever surfaced, because a half-built module
/// with unresolved relocations is unsafe to hand to a kernel.  Success is
/// owed exactly when every section is accepted, every map handle is
/// granted, and every relocation resolves (`spec_resolution`).  On success
/// the module's map-name set equals exactly the set of map-section
/// subnames, a later map section with a known name superseding the earlier
/// one, and every relocation was resolved: none was silently dropped.
pub fn parse(object: &ObjectFile, running_kernel_version: u32, map_fds: &Vec<i32>) -> (r: Result<
    Module,
    Error,
>)
    ensures
        r is Ok ==> spec_scan_ok(object.sections@) && spec_fds_ok(
            spec_map_requests(object.sections@).len() as int,
            map_fds@,
        ),
        !spec_scan_ok(object.sections@) ==> r is Err && (r matches Err(e) ==> exists|i: int|
            {
                &&& 0 <= i < object.sections@.len()
                &&& !spec_scan_section_ok(#[trigger] object.sections@[i])
                &&& forall|k: int| 0 <= k < i ==> spec_scan_section_ok(#[trigger] object.sections@[k])
                &&& e == spec_scan_error(object.sections@[i], i)
            }),
        spec_scan_ok(object.sections@) && !spec_fds_ok(
            spec_map_requests(object.sections@).len() as int,
            map_fds@,
        ) ==> r == Result::<Module, Error>::Err(Error::MapCreationError),
        spec_scan_ok(object.sections@) && spec_fds_ok(
            spec_map_requests(object.sections@).len() as int,
            map_fds@,
        ) ==> {
            &&& (r is Ok <==> spec_resolution(object.sections@, map_fds@, object.symbols@) is Ok)
            &&& (r matches Err(e) ==> spec_resolution(object.sections@, map_fds@, object.symbols@)
                == Result::<Seq<Seq<Insn>>, Error>::Err(e))
        },
        r matches Ok(m) ==> {
            let sections = object.sections@;
            let pairs = spec_map_requests(sections);
            &&& m.license@ == spec_license(sections)
            &&& m.version == spec_resolve_version(
                spec_raw_version(sections),
                running_kernel_version,
            )
            &&& forall|j: int, k: int|
                0 <= j < k < m.maps@.len() ==> m.maps@[j].name@ != m.maps@[k].name@
            &&& m.spec_map_names() == spec_map_section_subnames(sections)
            &&& forall|j: int|
                0 <= j < m.maps@.len() ==> {
                    let li = spec_last_pair(pairs, pairs.len() as int, #[trigger] m.maps@[j].name@);
                    &&& 0 <= li < pairs.len()
                    &&& m.maps@[j].config == pairs[li].1
                    &&& m.maps@[j].kind == pairs[li].1.kind
                    &&& m.maps@[j].fd == map_fds@[li]
                    &&& !m.maps@[j].section_data
                    &&& m.maps@[j].wf()
                }
            &&& m.programs@.len() == spec_program_sections(sections).len()
            &&& forall|j: int|
                0 <= j < m.programs@.len() ==> {
                    let sec = sections[spec_program_sections(sections)[j] as int];
                    let prog = #[trigger] m.programs@[j];
                    &&& prog.wf()
                    &&& prog.spec_section_kind() == spec_sec_tag(sec)
                    &&& prog.spec_data().name@ == spec_sec_sub(sec)->0
                    &&& prog.spec_data().fd is None
                    &&& prog.spec_data().state == ProgramState::Unloaded
                }
            &&& spec_resolution(sections, map_fds@, object.symbols@) == Result::<
                Seq<Seq<Insn>>,
                Error,
            >::Ok(spec_codes(m.programs@))
            &&& forall|t: int|
                0 <= t < spec_relocations(sections).len() ==> spec_find_index(
                    spec_program_sections(sections),
                    #[trigger] spec_relocations(sections)[t].target_sec_idx,
                ) >= 0
        },
{
    let ghost sections = object.sections@;
    let pending = match scan(object, running_kernel_version) {
        Ok(p) => p,
        Err(e) => {
            return Err(e);
        },
    };
    let ghost requests = pending.map_requests@;
    let ghost pairs = spec_map_requests(sections);
    let ghost psecs = pending.program_sections@;
    let ghost pprogs = pending.programs@;
    let ghost rels = pending.relocations@;
    let ghost plicense = pending.license;
    let ghost pversion = pending.version;
    proof {
        assert(requests.len() == pairs.len());
        assert(spec_fds_ok(pairs.len() as int, map_fds@) == spec_fds_ok(
            requests.len() as int,
            map_fds@,
        ));
    }
    match link(pending, &object.symbols, map_fds) {
        Ok(m) => {
            proof {
                let n = requests.len() as int;
                let built = spec_build_maps(requests, map_fds@, n);
                assert(spec_fds_ok(n, map_fds@));
                assert(map_fds@.len() >= n) by {
                    if n > 0 {
                        assert(0 <= n - 1 < n && map_fds@[n - 1] >= 0);
                    }
                }
                lemma_build_maps(requests, map_fds@, n);
                assert(m.maps@ == built);

                // names: unique, last-write-wins against the pairs
                assert forall|j: int| 0 <= j < m.maps@.len() implies {
                    let li = spec_last_pair(pairs, pairs.len() as int, #[trigger] m.maps@[j].name@);
                    &&& 0 <= li < pairs.len()
                    &&& m.maps@[j].config == pairs[li].1
                    &&& m.maps@[j].kind == pairs[li].1.kind
                    &&& m.maps@[j].fd == map_fds@[li]
                    &&& !m.maps@[j].section_data
                    &&& m.maps@[j].wf()
                } by {
                    let nm = m.maps@[j].name@;
                    lemma_last_request_pairs(requests, pairs, n, nm);
                    let li = spec_last_request(requests, n, nm);
                    assert(built[j] == spec_map_descriptor(requests[li], map_fds@[li]));
                    assert(requests[li].name@ == pairs[li].0);
                    assert(map_fds@[li] >= 0);
                }

                // the map-name set equals the set of map-section subnames
                assert forall|nm: Seq<char>|
                    m.spec_map_names().contains(nm) == spec_map_section_subnames(
                        sections,
                    ).contains(nm) by {
                    lemma_map_requests_names(sections, nm);
                    if m.spec_map_names().contains(nm) {
                        let j = choose|j: int|
                            0 <= j < m.maps@.len() && #[trigger] m.maps@[j].name@ == nm;
                        lemma_last_request_pairs(requests, pairs, n, nm);
                        let li = spec_last_request(requests, n, nm);
                        assert(built[j] == spec_map_descriptor(requests[li], map_fds@[li]));
                        assert(requests[li].name@ == nm);
                        assert(pairs[li].0 == nm);
                        assert(spec_pair_has_name(pairs, nm));
                    }
                    if spec_map_section_subnames(sections).contains(nm) {
                        assert(spec_pair_has_name(pairs, nm));
                        let t = choose|t: int| 0 <= t < pairs.len() && #[trigger] pairs[t].0 == nm;
                        assert(requests[t].name@ == nm);
                        assert(spec_find_map(built, requests[t].name@) >= 0);
                        lemma_find_map(built, nm);
                        let j = spec_find_map(built, nm);
                        assert(m.maps@[j].name@ == nm);
                        assert(m.spec_map_names().contains(nm));
                    }
                }
                assert(m.spec_map_names() =~= spec_map_section_subnames(sections));

                // the program list and the relocation outcome
                assert(psecs == spec_program_sections(sections));
                assert(spec_codes(pprogs) =~= spec_initial_codes(sections));
                lemma_build_maps_views(requests, pairs, map_fds@, n);
                let table = spec_map_table(pairs, map_fds@, pairs.len() as int);
                assert(spec_map_views(built) == table);
                let res = spec_apply_all(
                    psecs,
                    spec_codes(pprogs),
                    spec_map_views(built),
                    object.symbols@,
                    rels,
                );
                assert(res is Ok);
                assert(spec_codes(m.programs@) == res->Ok_0);
                assert(spec_resolution(sections, map_fds@, object.symbols@) == res);
                lemma_apply_all_targets(
                    psecs,
                    spec_codes(pprogs),
                    spec_map_views(built),
                    object.symbols@,
                    rels,
                );
                assert forall|j: int| 0 <= j < m.programs@.len() implies {
                    let sec = sections[spec_program_sections(sections)[j] as int];
                    let prog = #[trigger] m.programs@[j];
                    &&& prog.wf()
                    &&& prog.spec_section_kind() == spec_sec_tag(sec)
                    &&& prog.spec_data().name@ == spec_sec_sub(sec)->0
                    &&& prog.spec_data().fd is None
                    &&& prog.spec_data().state == ProgramState::Unloaded
                } by {
                    assert(m.programs@[j] == pprogs[j].spec_with_data(
                        ProgramData {
                            code: m.programs@[j].spec_data().code,
                            ..pprogs[j].spec_data()
                        },
                    ));
                }
            }
            Ok(m)
        },
        Err(e) => {
            proof {
                if spec_scan_ok(sections) && spec_fds_ok(pairs.len() as int, map_fds@) {
                    let n = requests.len() as int;
                    let built = spec_build_maps(requests, map_fds@, n);
                    lemma_build_maps_views(requests, pairs, map_fds@, n);
                    assert(psecs == spec_program_sections(sections));
                    assert(spec_codes(pprogs) =~= spec_initial_codes(sections));
                    let res = spec_apply_all(
                        psecs,
                        spec_codes(pprogs),
                        spec_map_views(built),
                        object.symbols@,
                        rels,
                    );
                    // a successful resolution would have produced a module
                    assert(res matches Err(e0) && e0 == e);
                    assert(spec_resolution(sections, map_fds@, object.symbols@) == res);
                }
            }
            Err(e)
        },
    }
}

} // verus!
