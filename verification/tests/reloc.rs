//! Tests for direct relocation application, including the reserved
//! inline-data (map-value) patching policy.

use rsops::elf::Symbol;
use rsops::error::Error;
use rsops::insn::{BPF_PSEUDO_MAP_FD, BPF_PSEUDO_MAP_VALUE};
use rsops::map::{MapConfig, MapDescriptor};
use rsops::program::Program;
use rsops::reloc::RelocationInfo;

fn program_with_imms(imms: &[u32]) -> Program {
    let mut bytes: Vec<u8> = Vec::new();
    for imm in imms {
        bytes.extend_from_slice(&[0x18, 0, 0, 0]);
        bytes.extend_from_slice(&imm.to_le_bytes());
    }
    Program::new("socketfilter", "prog", &bytes).unwrap()
}

fn handle_map(name: &str, fd: i32) -> MapDescriptor {
    MapDescriptor::with_map_def(
        name.to_string(),
        MapConfig { kind: 1, key_size: 4, value_size: 8, max_entries: 1, map_flags: 0 },
        fd,
    )
    .unwrap()
}

#[test]
fn apply_patches_handle_backed_map() {
    let sections = vec![4usize];
    let mut programs = vec![program_with_imms(&[11, 22])];
    let maps = vec![handle_map("counter", 9)];
    let symtab = vec![Symbol { name: Some("counter".to_string()), value: 0 }];
    let rel = RelocationInfo { target_sec_idx: 4, offset: 0, sym_idx: 0 };
    rel.apply(&sections, &mut programs, &maps, &symtab).unwrap();
    let code = programs[0].instructions();
    assert_eq!(code[0].src_reg(), BPF_PSEUDO_MAP_FD);
    assert_eq!(code[0].imm, 9);
    assert_eq!(code[1].src_reg(), 0);
    assert_eq!(code[1].imm, 22);
}

#[test]
fn apply_patches_inline_data_map() {
    let sections = vec![0usize];
    let mut programs = vec![program_with_imms(&[100, 7, 5])];
    let maps =
        vec![MapDescriptor::with_section_data(".rodata".to_string(), 32, 0, 6).unwrap()];
    let symtab = vec![Symbol { name: Some(".rodata".to_string()), value: 40 }];
    let rel = RelocationInfo { target_sec_idx: 0, offset: 0, sym_idx: 0 };
    rel.apply(&sections, &mut programs, &maps, &symtab).unwrap();
    let code = programs[0].instructions();
    // the patched instruction carries the map-value tag and the handle
    assert_eq!(code[0].src_reg(), BPF_PSEUDO_MAP_VALUE);
    assert_eq!(code[0].imm, 6);
    // the following instruction's immediate grew by the symbol's value,
    // computed from the original immediate of the patched instruction
    assert_eq!(code[1].imm, 140);
    assert_eq!(code[2].imm, 5);
}

#[test]
fn apply_rejects_bad_shapes() {
    let sections = vec![0usize];
    let maps = vec![handle_map("counter", 9)];
    let symtab = vec![Symbol { name: Some("counter".to_string()), value: 0 }];

    // a symbol index outside the table
    let mut programs = vec![program_with_imms(&[0, 0])];
    let rel = RelocationInfo { target_sec_idx: 0, offset: 0, sym_idx: 5 };
    assert_eq!(rel.apply(&sections, &mut programs, &maps, &symtab), Err(Error::MalformedObject));

    // an instruction index past the end of the stream
    let rel = RelocationInfo { target_sec_idx: 0, offset: 64, sym_idx: 0 };
    assert_eq!(rel.apply(&sections, &mut programs, &maps, &symtab), Err(Error::MalformedObject));

    // a symbol without a usable name
    let unnamed = vec![Symbol { name: None, value: 0 }];
    let rel = RelocationInfo { target_sec_idx: 0, offset: 0, sym_idx: 0 };
    assert_eq!(
        rel.apply(&sections, &mut programs, &maps, &unnamed),
        Err(Error::RelocationSymbolUnresolved(0))
    );

    // nothing was patched by the failed attempts
    assert_eq!(programs[0].instructions()[0].imm, 0);
    assert_eq!(programs[0].instructions()[0].src_reg(), 0);
}

#[test]
fn map_load_reads_config_and_checks_handle() {
    let mut code: Vec<u8> = Vec::new();
    for v in [1u32, 4, 8, 128, 2] {
        code.extend_from_slice(&v.to_le_bytes());
    }
    let m = MapDescriptor::load("counter".to_string(), &code, 3).unwrap();
    assert_eq!(m.name, "counter".to_string());
    assert_eq!(m.kind, 1);
    assert_eq!(m.fd, 3);
    assert_eq!(
        m.config,
        MapConfig { kind: 1, key_size: 4, value_size: 8, max_entries: 128, map_flags: 2 }
    );
    assert!(!m.section_data);
    assert!(matches!(
        MapDescriptor::load("x".to_string(), &code[..16], 3),
        Err(Error::UnsupportedSectionKind)
    ));
    assert!(matches!(
        MapDescriptor::load("x".to_string(), &code, -1),
        Err(Error::MapCreationError)
    ));
}
