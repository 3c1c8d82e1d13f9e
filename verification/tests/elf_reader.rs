//! Tests for the binary reader: section headers, names, content bytes and
//! the symbol table, read from a hand-built 64-bit little-endian object.

use rsops::elf::{read_object, SHT_PROGBITS, SHT_REL, SHT_STRTAB, SHT_SYMTAB};
use rsops::error::Error;
use rsops::insn::BPF_PSEUDO_MAP_FD;
use rsops::module::parse;

struct SectionSpec {
    name: String,
    section_type: u32,
    link: u32,
    info: u32,
    data: Vec<u8>,
}

fn section_spec(name: &str, section_type: u32, data: Vec<u8>) -> SectionSpec {
    SectionSpec { name: name.to_string(), section_type, link: 0, info: 0, data }
}

/// Builds a little-endian 64-bit object image: file header, section-header
/// table, then each section's content.  A null section and the
/// section-name string table are appended automatically.
fn build_elf(mut sections: Vec<SectionSpec>) -> Vec<u8> {
    sections.insert(0, section_spec("", 0, vec![]));
    let mut shstrtab: Vec<u8> = vec![0];
    let mut name_offsets: Vec<u32> = Vec::new();
    for s in &sections {
        if s.name.is_empty() {
            name_offsets.push(0);
        } else {
            name_offsets.push(shstrtab.len() as u32);
            shstrtab.extend_from_slice(s.name.as_bytes());
            shstrtab.push(0);
        }
    }
    name_offsets.push(shstrtab.len() as u32);
    shstrtab.extend_from_slice(b".shstrtab\0");
    sections.push(SectionSpec {
        name: ".shstrtab".to_string(),
        section_type: SHT_STRTAB,
        link: 0,
        info: 0,
        data: shstrtab,
    });

    let shnum = sections.len();
    let shoff: u64 = 64;
    let mut header = vec![0u8; 64];
    header[0] = 0x7f;
    header[1] = 0x45;
    header[2] = 0x4c;
    header[3] = 0x46;
    header[4] = 2; // 64-bit
    header[5] = 1; // little-endian
    header[40..48].copy_from_slice(&shoff.to_le_bytes());
    header[58..60].copy_from_slice(&64u16.to_le_bytes());
    header[60..62].copy_from_slice(&(shnum as u16).to_le_bytes());
    header[62..64].copy_from_slice(&((shnum - 1) as u16).to_le_bytes());

    let mut data_off: u64 = shoff + 64 * shnum as u64;
    let mut headers: Vec<u8> = Vec::new();
    let mut contents: Vec<u8> = Vec::new();
    for (k, s) in sections.iter().enumerate() {
        let mut h = vec![0u8; 64];
        h[0..4].copy_from_slice(&name_offsets[k].to_le_bytes());
        h[4..8].copy_from_slice(&s.section_type.to_le_bytes());
        h[24..32].copy_from_slice(&data_off.to_le_bytes());
        h[32..40].copy_from_slice(&(s.data.len() as u64).to_le_bytes());
        h[40..44].copy_from_slice(&s.link.to_le_bytes());
        h[44..48].copy_from_slice(&s.info.to_le_bytes());
        headers.extend_from_slice(&h);
        contents.extend_from_slice(&s.data);
        data_off += s.data.len() as u64;
    }
    let mut out = header;
    out.extend_from_slice(&headers);
    out.extend_from_slice(&contents);
    out
}

fn symbol_entry(name_off: u32, value: u64) -> Vec<u8> {
    let mut e = vec![0u8; 24];
    e[0..4].copy_from_slice(&name_off.to_le_bytes());
    e[8..16].copy_from_slice(&value.to_le_bytes());
    e
}

#[test]
fn read_object_resolves_sections_and_symbols() {
    let strtab = b"\0counter\0".to_vec();
    let mut symtab = section_spec("symtab", SHT_SYMTAB, symbol_entry(1, 42));
    // the symbol string table is section 4 (null, license, maps, symtab, strtab)
    symtab.link = 4;
    let bytes = build_elf(vec![
        section_spec("license", SHT_PROGBITS, b"GPL\0".to_vec()),
        section_spec("maps/counter", SHT_PROGBITS, vec![0u8; 20]),
        symtab,
        section_spec("strtab", SHT_STRTAB, strtab),
    ]);
    let obj = read_object(&bytes).unwrap();
    assert_eq!(obj.sections.len(), 6);
    assert_eq!(obj.sections[0].name, Some("".to_string()));
    assert_eq!(obj.sections[1].name, Some("license".to_string()));
    assert_eq!(obj.sections[1].section_type, SHT_PROGBITS);
    assert_eq!(obj.sections[1].data, b"GPL\0".to_vec());
    assert_eq!(obj.sections[2].name, Some("maps/counter".to_string()));
    assert_eq!(obj.sections[5].name, Some(".shstrtab".to_string()));
    assert_eq!(obj.symbols.len(), 1);
    assert_eq!(obj.symbols[0].name, Some("counter".to_string()));
    assert_eq!(obj.symbols[0].value, 42);
}

#[test]
fn read_object_rejects_malformed_input() {
    // too short for a file header
    assert!(matches!(read_object(&[0x7f, 0x45]), Err(Error::MalformedObject)));
    // wrong magic
    let mut bytes = build_elf(vec![]);
    bytes[0] = 0x7e;
    assert!(matches!(read_object(&bytes), Err(Error::MalformedObject)));
    // 32-bit class is not supported
    let mut bytes = build_elf(vec![]);
    bytes[4] = 1;
    assert!(matches!(read_object(&bytes), Err(Error::MalformedObject)));
    // a section pointing past the end of the file
    let bytes = build_elf(vec![section_spec("license", SHT_PROGBITS, b"GPL\0".to_vec())]);
    assert!(matches!(read_object(&bytes[..bytes.len() - 2]), Err(Error::MalformedObject)));
}

#[test]
fn read_object_keeps_unusable_names_absent() {
    let mut bytes = build_elf(vec![section_spec("license", SHT_PROGBITS, b"GPL\0".to_vec())]);
    // point the license section's name far outside the string table
    let name_field = (64 + 64) as usize;
    bytes[name_field..name_field + 4].copy_from_slice(&0xffffu32.to_le_bytes());
    let obj = read_object(&bytes).unwrap();
    assert_eq!(obj.sections[1].name, None);
}

#[test]
fn bytes_to_module_pipeline() {
    let bytes = build_elf(vec![
        section_spec("version", SHT_PROGBITS, 0x00040011u32.to_le_bytes().to_vec()),
        section_spec("license", SHT_PROGBITS, b"GPL\0".to_vec()),
        section_spec("maps/counter", SHT_PROGBITS, {
            let mut c = Vec::new();
            for v in [1u32, 4, 8, 1, 0] {
                c.extend_from_slice(&v.to_le_bytes());
            }
            c
        }),
        section_spec("socketfilter/filter1", SHT_PROGBITS, vec![0u8; 16]),
    ]);
    let obj = read_object(&bytes).unwrap();
    let m = parse(&obj, 999, &vec![5]).unwrap();
    assert_eq!(m.license, "GPL".to_string());
    assert_eq!(m.version, 0x00040011);
    assert_eq!(m.maps[0].name, "counter".to_string());
    assert_eq!(m.programs[0].name(), "filter1");
}

#[test]
fn bytes_with_relocation_to_patched_module() {
    let mut map_config: Vec<u8> = Vec::new();
    for v in [1u32, 4, 8, 1, 0] {
        map_config.extend_from_slice(&v.to_le_bytes());
    }
    let mut rel: Vec<u8> = Vec::new();
    rel.extend_from_slice(&8u64.to_le_bytes()); // patch the second instruction
    rel.extend_from_slice(&(0u64 << 32).to_le_bytes()); // symbol 0
    let mut symtab = section_spec("symtab", SHT_SYMTAB, symbol_entry(1, 0));
    symtab.link = 5; // the symbol string table comes right after
    let mut relsec = section_spec(".relsocketfilter/filter1", SHT_REL, rel);
    relsec.info = 1; // the program lives in section 1
    let bytes = build_elf(vec![
        section_spec("socketfilter/filter1", SHT_PROGBITS, vec![0u8; 24]),
        section_spec("maps/counter", SHT_PROGBITS, map_config),
        relsec,
        symtab,
        section_spec("strtab", SHT_STRTAB, b"\0counter\0".to_vec()),
    ]);
    let obj = read_object(&bytes).unwrap();
    let m = parse(&obj, 0, &vec![31]).unwrap();
    let code = m.programs[0].instructions();
    assert_eq!(code[1].src_reg(), BPF_PSEUDO_MAP_FD);
    assert_eq!(code[1].imm, 31);
    assert_eq!(code[0].imm, 0);
    assert_eq!(code[0].src_reg(), 0);
}
