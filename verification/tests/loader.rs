//! Tests for the object-model builder, relocation resolution and the
//! finished module.

use rsops::elf::{ObjectFile, Section, Symbol, SHT_PROGBITS, SHT_REL};
use rsops::error::Error;
use rsops::insn::BPF_PSEUDO_MAP_FD;
use rsops::map::MapConfig;
use rsops::module::{get_version, extract_license, link, parse, scan, VERSION_ANY};
use rsops::program::{Program, ProgramState};
use rsops::section::get_split_section_name;

fn sec(name: &str, section_type: u32, info: u32, data: Vec<u8>) -> Section {
    Section { name: Some(name.to_string()), section_type, info, data }
}

fn map_config_bytes(kind: u32, key: u32, value: u32, max: u32, flags: u32) -> Vec<u8> {
    let mut b = Vec::new();
    for v in [kind, key, value, max, flags] {
        b.extend_from_slice(&v.to_le_bytes());
    }
    b
}

fn rel_entry(offset: u64, sym: u32) -> Vec<u8> {
    let mut b = Vec::new();
    b.extend_from_slice(&offset.to_le_bytes());
    let r_info: u64 = (sym as u64) << 32;
    b.extend_from_slice(&r_info.to_le_bytes());
    b
}

#[test]
fn parse_end_to_end() {
    let object = ObjectFile {
        sections: vec![
            sec("version", SHT_PROGBITS, 0, 0x00040011u32.to_le_bytes().to_vec()),
            sec("license", SHT_PROGBITS, 0, b"GPL\0".to_vec()),
            sec("maps/counter", SHT_PROGBITS, 0, map_config_bytes(1, 4, 8, 1, 0)),
            sec("socketfilter/filter1", SHT_PROGBITS, 0, vec![0u8; 16]),
        ],
        symbols: vec![],
    };
    let m = parse(&object, 999, &vec![5]).unwrap();
    assert_eq!(m.license, "GPL".to_string());
    assert_eq!(m.version, 0x00040011);
    assert_eq!(m.maps.len(), 1);
    assert_eq!(m.maps[0].name, "counter".to_string());
    assert_eq!(m.maps[0].fd, 5);
    assert_eq!(m.maps[0].kind, 1);
    assert_eq!(m.maps[0].config.key_size, 4);
    assert_eq!(m.maps[0].config.value_size, 8);
    assert_eq!(m.maps[0].config.max_entries, 1);
    assert_eq!(m.programs.len(), 1);
    let p = &m.programs[0];
    assert_eq!(p.name(), "filter1");
    assert!(matches!(p, Program::SocketFilter(_)));
    assert_eq!(p.state(), ProgramState::Unloaded);
    assert_eq!(p.fd(), None);
    assert_eq!(p.instructions().len(), 2);
}

#[test]
fn license_is_exact() {
    assert_eq!(extract_license(b"GPL\0").unwrap(), "GPL".to_string());
    // text after the terminator is not part of the license
    assert_eq!(extract_license(b"GPL\0xyz").unwrap(), "GPL".to_string());
    assert_eq!(extract_license(b"").unwrap(), "".to_string());
    // a license that is not valid text is refused
    assert_eq!(extract_license(&[0xff, 0x00]), Err(Error::MalformedObject));
}

#[test]
fn version_resolution() {
    // a plain value is used verbatim
    assert_eq!(get_version(&0x00040011u32.to_le_bytes(), 999).unwrap(), 0x00040011);
    // the sentinel resolves to the running kernel's version
    assert_eq!(get_version(&VERSION_ANY.to_le_bytes(), 4242).unwrap(), 4242);
    // content shorter than the record is refused
    assert_eq!(get_version(&[0x11, 0x00], 999), Err(Error::UnsupportedSectionKind));
}

#[test]
fn map_name_set_matches_sections() {
    let object = ObjectFile {
        sections: vec![
            sec("maps/alpha", SHT_PROGBITS, 0, map_config_bytes(1, 4, 4, 1, 0)),
            sec("maps/beta", SHT_PROGBITS, 0, map_config_bytes(1, 4, 4, 2, 0)),
            sec("map/gamma", SHT_PROGBITS, 0, map_config_bytes(2, 4, 4, 3, 0)),
        ],
        symbols: vec![],
    };
    let m = parse(&object, 0, &vec![3, 4, 5]).unwrap();
    let mut names: Vec<String> = m.maps.iter().map(|d| d.name.clone()).collect();
    names.sort();
    assert_eq!(names, vec!["alpha".to_string(), "beta".to_string(), "gamma".to_string()]);
}

#[test]
fn duplicate_map_name_last_write_wins() {
    let object = ObjectFile {
        sections: vec![
            sec("maps/counter", SHT_PROGBITS, 0, map_config_bytes(1, 4, 4, 1, 0)),
            sec("maps/other", SHT_PROGBITS, 0, map_config_bytes(1, 4, 4, 2, 0)),
            sec("maps/counter", SHT_PROGBITS, 0, map_config_bytes(2, 8, 8, 64, 0)),
        ],
        symbols: vec![],
    };
    let m = parse(&object, 0, &vec![3, 4, 5]).unwrap();
    assert_eq!(m.maps.len(), 2);
    let counter = m.map("counter").unwrap();
    // the later section superseded the earlier one, handle included
    assert_eq!(counter.fd, 5);
    assert_eq!(counter.kind, 2);
    assert_eq!(counter.config.max_entries, 64);
    assert_eq!(m.map("other").unwrap().fd, 4);
}

#[test]
fn relocation_patches_instruction() {
    let object = ObjectFile {
        sections: vec![
            sec("socketfilter/prog", SHT_PROGBITS, 0, vec![0u8; 24]),
            sec("maps/counter", SHT_PROGBITS, 0, map_config_bytes(1, 4, 8, 1, 0)),
            sec(".relsocketfilter/prog", SHT_REL, 0, rel_entry(8, 0)),
        ],
        symbols: vec![Symbol { name: Some("counter".to_string()), value: 0 }],
    };
    let m = parse(&object, 0, &vec![7]).unwrap();
    let code = m.programs[0].instructions();
    // the instruction at offset / width carries the map-handle tag and the
    // map's handle as its immediate
    assert_eq!(code[1].src_reg(), BPF_PSEUDO_MAP_FD);
    assert_eq!(code[1].imm, 7);
    // its neighbours are untouched
    assert_eq!(code[0].src_reg(), 0);
    assert_eq!(code[0].imm, 0);
    assert_eq!(code[2].src_reg(), 0);
    assert_eq!(code[2].imm, 0);
}

#[test]
fn dangling_relocation_fails() {
    let object = ObjectFile {
        sections: vec![
            sec("socketfilter/prog", SHT_PROGBITS, 0, vec![0u8; 16]),
            sec("maps/counter", SHT_PROGBITS, 0, map_config_bytes(1, 4, 8, 1, 0)),
            // the relocation targets section 99, which holds no program
            sec(".rel", SHT_REL, 99, rel_entry(0, 0)),
        ],
        symbols: vec![Symbol { name: Some("counter".to_string()), value: 0 }],
    };
    assert!(matches!(parse(&object, 0, &vec![7]), Err(Error::RelocationTargetMissing(99))));
}

#[test]
fn unresolved_symbol_fails() {
    let object = ObjectFile {
        sections: vec![
            sec("socketfilter/prog", SHT_PROGBITS, 0, vec![0u8; 16]),
            sec("maps/counter", SHT_PROGBITS, 0, map_config_bytes(1, 4, 8, 1, 0)),
            sec(".rel", SHT_REL, 0, rel_entry(0, 0)),
        ],
        symbols: vec![Symbol { name: Some("nosuchmap".to_string()), value: 0 }],
    };
    assert!(matches!(parse(&object, 0, &vec![7]), Err(Error::RelocationSymbolUnresolved(0))));
}

#[test]
fn misaligned_relocation_offset_fails() {
    let object = ObjectFile {
        sections: vec![
            sec("socketfilter/prog", SHT_PROGBITS, 0, vec![0u8; 16]),
            sec("maps/counter", SHT_PROGBITS, 0, map_config_bytes(1, 4, 8, 1, 0)),
            sec(".rel", SHT_REL, 0, rel_entry(4, 0)),
        ],
        symbols: vec![Symbol { name: Some("counter".to_string()), value: 0 }],
    };
    assert!(matches!(parse(&object, 0, &vec![7]), Err(Error::MalformedObject)));
}

#[test]
fn missing_section_name_fails() {
    let object = ObjectFile {
        sections: vec![
            sec("license", SHT_PROGBITS, 0, b"GPL\0".to_vec()),
            Section { name: None, section_type: SHT_PROGBITS, info: 0, data: vec![] },
        ],
        symbols: vec![],
    };
    assert!(matches!(parse(&object, 0, &vec![]), Err(Error::MissingSectionName(1))));
}

#[test]
fn map_creation_failure_aborts() {
    let object = ObjectFile {
        sections: vec![sec("maps/counter", SHT_PROGBITS, 0, map_config_bytes(1, 4, 8, 1, 0))],
        symbols: vec![],
    };
    // a refused creation aborts the parse
    assert!(matches!(parse(&object, 0, &vec![-1]), Err(Error::MapCreationError)));
    // a missing answer is a refused creation too
    assert!(matches!(parse(&object, 0, &vec![]), Err(Error::MapCreationError)));
}

#[test]
fn misaligned_program_section_fails() {
    let object = ObjectFile {
        sections: vec![sec("socketfilter/prog", SHT_PROGBITS, 0, vec![0u8; 7])],
        symbols: vec![],
    };
    assert!(matches!(parse(&object, 0, &vec![]), Err(Error::UnsupportedSectionKind)));
}

#[test]
fn short_map_config_fails() {
    let object = ObjectFile {
        sections: vec![sec("maps/counter", SHT_PROGBITS, 0, vec![0u8; 12])],
        symbols: vec![],
    };
    assert!(matches!(parse(&object, 0, &vec![1]), Err(Error::UnsupportedSectionKind)));
}

#[test]
fn unrecognized_sections_are_skipped() {
    let object = ObjectFile {
        sections: vec![
            sec("", 0, 0, vec![]),
            sec(".text", SHT_PROGBITS, 0, vec![1, 2, 3]),
            sec("frobnicate/x", SHT_PROGBITS, 0, vec![9; 5]),
            // a map kind without a subname is not a map section
            sec("maps", SHT_PROGBITS, 0, vec![0u8; 20]),
            sec("license", SHT_PROGBITS, 0, b"MIT\0".to_vec()),
        ],
        symbols: vec![],
    };
    let m = parse(&object, 0, &vec![]).unwrap();
    assert_eq!(m.license, "MIT".to_string());
    assert_eq!(m.maps.len(), 0);
    assert_eq!(m.programs.len(), 0);
}

#[test]
fn last_license_and_version_win() {
    let object = ObjectFile {
        sections: vec![
            sec("license", SHT_PROGBITS, 0, b"MIT\0".to_vec()),
            sec("version", SHT_PROGBITS, 0, 7u32.to_le_bytes().to_vec()),
            sec("license", SHT_PROGBITS, 0, b"GPL\0".to_vec()),
            sec("version", SHT_PROGBITS, 0, 11u32.to_le_bytes().to_vec()),
        ],
        symbols: vec![],
    };
    let m = parse(&object, 0, &vec![]).unwrap();
    assert_eq!(m.license, "GPL".to_string());
    assert_eq!(m.version, 11);
}

#[test]
fn classifier_splits_on_first_slash() {
    let s = sec("kprobe/foo", SHT_PROGBITS, 0, vec![]);
    let (kind, sub) = get_split_section_name(&s, 0).unwrap();
    assert_eq!(kind, "kprobe".to_string());
    assert_eq!(sub, Some("foo".to_string()));

    let s = sec("license", SHT_PROGBITS, 0, vec![]);
    let (kind, sub) = get_split_section_name(&s, 0).unwrap();
    assert_eq!(kind, "license".to_string());
    assert_eq!(sub, None);

    let s = sec("a/b/c", SHT_PROGBITS, 0, vec![]);
    let (kind, sub) = get_split_section_name(&s, 0).unwrap();
    assert_eq!(kind, "a".to_string());
    assert_eq!(sub, Some("b/c".to_string()));

    let s = Section { name: None, section_type: SHT_PROGBITS, info: 0, data: vec![] };
    assert_eq!(
        get_split_section_name(&s, 3).map(|_| ()),
        Err(Error::MissingSectionName(3))
    );
}

#[test]
fn module_lookups() {
    let object = ObjectFile {
        sections: vec![
            sec("socketfilter/one", SHT_PROGBITS, 0, vec![0u8; 8]),
            sec("kprobe/two", SHT_PROGBITS, 0, vec![0u8; 8]),
            sec("socketfilter/three", SHT_PROGBITS, 0, vec![0u8; 8]),
            sec("maps/counter", SHT_PROGBITS, 0, map_config_bytes(1, 4, 8, 1, 0)),
        ],
        symbols: vec![],
    };
    let m = parse(&object, 0, &vec![6]).unwrap();
    assert_eq!(m.program("two").unwrap().name(), "two");
    assert!(m.program("none").is_none());
    assert_eq!(m.socket_filters(), vec![0, 2]);
    assert_eq!(m.map("counter").unwrap().fd, 6);
    assert!(m.map("absent").is_none());
}

#[test]
fn scan_defers_map_creation() {
    let object = ObjectFile {
        sections: vec![
            sec("maps/counter", SHT_PROGBITS, 0, map_config_bytes(1, 4, 8, 128, 2)),
        ],
        symbols: vec![],
    };
    let pending = scan(&object, 0).unwrap();
    assert_eq!(pending.map_requests.len(), 1);
    assert_eq!(pending.map_requests[0].name, "counter".to_string());
    assert_eq!(
        pending.map_requests[0].config,
        MapConfig { kind: 1, key_size: 4, value_size: 8, max_entries: 128, map_flags: 2 }
    );
}

#[test]
fn scan_then_link_equals_parse() {
    let object = ObjectFile {
        sections: vec![
            sec("license", SHT_PROGBITS, 0, b"GPL\0".to_vec()),
            sec("maps/counter", SHT_PROGBITS, 0, map_config_bytes(1, 4, 8, 1, 0)),
            sec("socketfilter/filter1", SHT_PROGBITS, 0, vec![0u8; 16]),
        ],
        symbols: vec![],
    };
    let pending = scan(&object, 0).unwrap();
    let m = link(pending, &object.symbols, &vec![5]).unwrap();
    assert_eq!(m.license, "GPL".to_string());
    assert_eq!(m.maps[0].fd, 5);
    assert_eq!(m.programs[0].name(), "filter1");
}

#[test]
fn license_without_terminator_takes_all_bytes() {
    assert_eq!(extract_license(b"GPL").unwrap(), "GPL".to_string());
    let object = ObjectFile {
        sections: vec![sec("license", SHT_PROGBITS, 0, b"Dual BSD/GPL".to_vec())],
        symbols: vec![],
    };
    assert_eq!(parse(&object, 0, &vec![]).unwrap().license, "Dual BSD/GPL".to_string());
}

#[test]
fn version_sentinel_through_parse() {
    let object = ObjectFile {
        sections: vec![sec("version", SHT_PROGBITS, 0, 0xFFFF_FFFEu32.to_le_bytes().to_vec())],
        symbols: vec![],
    };
    assert_eq!(parse(&object, 0x0005_0002, &vec![]).unwrap().version, 0x0005_0002);
}

#[test]
fn trailing_slash_gives_empty_subname() {
    let s = sec("maps/", SHT_PROGBITS, 0, vec![]);
    let (kind, sub) = get_split_section_name(&s, 0).unwrap();
    assert_eq!(kind, "maps".to_string());
    assert_eq!(sub, Some("".to_string()));
}
