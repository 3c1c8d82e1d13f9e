//! Tests for the program lifecycle, the instruction model and the
//! perf-event sample decoding.

use rsops::error::Error;
use rsops::events::{int_to_ip, ntohs, PerfEventItem};
use rsops::insn::{decode_insns, Insn};
use rsops::program::{
    Program, ProgramState, BPF_PROG_TYPE_KPROBE, BPF_PROG_TYPE_SOCKET_FILTER,
    BPF_PROG_TYPE_TRACEPOINT, BPF_PROG_TYPE_XDP,
};
use rsops::xdp::Flags;

fn new_program(kind: &str) -> Program {
    Program::new(kind, "probe", &[0u8; 16]).unwrap()
}

#[test]
fn load_twice_is_rejected_and_keeps_handle() {
    let mut p = new_program("socketfilter");
    assert_eq!(p.fd(), None);
    assert!(p.load(3).is_ok());
    assert_eq!(p.fd(), Some(3));
    assert_eq!(p.state(), ProgramState::Loaded);
    // the second load is refused and the stored handle is unchanged
    assert_eq!(p.load(9), Err(Error::ProgramAlreadyLoaded));
    assert_eq!(p.fd(), Some(3));
    assert_eq!(p.state(), ProgramState::Loaded);
}

#[test]
fn rejected_load_leaves_program_unloaded() {
    let mut p = new_program("socketfilter");
    assert_eq!(p.load(-1), Err(Error::ProgramLoadError));
    assert_eq!(p.fd(), None);
    assert_eq!(p.state(), ProgramState::Unloaded);
    // the load may then be retried
    assert!(p.load(4).is_ok());
    assert_eq!(p.fd(), Some(4));
}

#[test]
fn load_request_guards_and_gives_program_type() {
    let p = new_program("socketfilter");
    assert_eq!(p.load_request("GPL"), Ok(BPF_PROG_TYPE_SOCKET_FILTER));
    // an embedded terminator in the license cannot become a C string
    assert_eq!(p.load_request("GP\0L"), Err(Error::StringConversionError));
    let mut p = p;
    p.load(3).unwrap();
    assert_eq!(p.load_request("GPL"), Err(Error::ProgramAlreadyLoaded));
}

#[test]
fn attach_before_load_is_guarded() {
    let p = new_program("socketfilter");
    let sf = match p {
        Program::SocketFilter(sf) => sf,
        _ => unreachable!(),
    };
    // no collaborator call happens: the guard refuses first
    assert_eq!(sf.attach_request("eth0"), Err(Error::ProgramNotLoaded));
}

#[test]
fn attach_completion_is_guarded_too() {
    // even the completion step refuses a program that was never loaded,
    // and changes nothing
    let p = new_program("socketfilter");
    let mut sf = match p {
        Program::SocketFilter(sf) => sf,
        _ => unreachable!(),
    };
    assert_eq!(sf.attach_socket_filter(12, 0), Err(Error::ProgramNotLoaded));
    assert_eq!(sf.common.state, ProgramState::Unloaded);
    assert_eq!(sf.common.fd, None);

    let p = new_program("xdp");
    let mut x = match p {
        Program::XDP(x) => x,
        _ => unreachable!(),
    };
    assert_eq!(x.attach_xdp("ens33".to_string(), 0), Err(Error::ProgramNotLoaded));
    assert_eq!(x.common.state, ProgramState::Unloaded);
    assert!(x.interfaces.is_empty());
}

#[test]
fn attach_transitions() {
    let mut p = new_program("socketfilter");
    p.load(3).unwrap();
    let mut sf = match p {
        Program::SocketFilter(sf) => sf,
        _ => unreachable!(),
    };
    assert_eq!(sf.attach_request("eth0"), Ok(3));
    assert_eq!(sf.attach_request("eth\0"), Err(Error::StringConversionError));
    // a failed attach keeps the load handle and may be retried
    assert_eq!(sf.attach_socket_filter(-1, 0), Err(Error::AttachError));
    assert_eq!(sf.common.state, ProgramState::AttachFailed);
    assert_eq!(sf.common.fd, Some(3));
    assert_eq!(sf.attach_socket_filter(12, 1), Err(Error::AttachError));
    assert_eq!(sf.common.state, ProgramState::AttachFailed);
    assert_eq!(sf.attach_socket_filter(12, 0), Ok(12));
    assert_eq!(sf.common.state, ProgramState::Attached);
    assert_eq!(sf.name(), "probe".to_string());
}

#[test]
fn xdp_attach_remembers_interface() {
    let mut p = new_program("xdp");
    p.load(5).unwrap();
    let mut x = match p {
        Program::XDP(x) => x,
        _ => unreachable!(),
    };
    assert_eq!(x.attach_request("ens33"), Ok(5));
    assert!(x.attach_xdp("ens33".to_string(), 0).is_ok());
    assert_eq!(x.common.state, ProgramState::Attached);
    assert_eq!(x.interfaces, vec!["ens33".to_string()]);
    assert_eq!(x.attach_xdp("ens34".to_string(), -1), Err(Error::AttachError));
    assert_eq!(x.common.state, ProgramState::AttachFailed);
    assert_eq!(x.interfaces, vec!["ens33".to_string()]);
}

#[test]
fn program_kinds_map_to_program_types() {
    assert_eq!(new_program("kprobe").to_prog_type(), BPF_PROG_TYPE_KPROBE);
    assert_eq!(new_program("kretprobe").to_prog_type(), BPF_PROG_TYPE_KPROBE);
    assert_eq!(new_program("uprobe").to_prog_type(), BPF_PROG_TYPE_KPROBE);
    assert_eq!(new_program("uretprobe").to_prog_type(), BPF_PROG_TYPE_KPROBE);
    assert_eq!(new_program("tracepoint").to_prog_type(), BPF_PROG_TYPE_TRACEPOINT);
    assert_eq!(new_program("socketfilter").to_prog_type(), BPF_PROG_TYPE_SOCKET_FILTER);
    assert_eq!(new_program("xdp").to_prog_type(), BPF_PROG_TYPE_XDP);
    assert!(matches!(new_program("kprobe"), Program::KProbe(_)));
    assert!(matches!(new_program("kretprobe"), Program::KRetProbe(_)));
    assert!(matches!(new_program("uretprobe"), Program::URetProbe(_)));
}

#[test]
fn unknown_program_kind_is_rejected() {
    assert!(matches!(
        Program::new("flurble", "x", &[0u8; 8]),
        Err(Error::UnsupportedSectionKind)
    ));
    assert!(matches!(
        Program::new("socketfilter", "x", &[0u8; 9]),
        Err(Error::UnsupportedSectionKind)
    ));
}

#[test]
fn instructions_decode_little_endian() {
    let bytes: Vec<u8> = vec![
        0x18, 0x21, 0x34, 0x12, 0x78, 0x56, 0x34, 0x12,
        0x00, 0x00, 0x00, 0x00, 0x07, 0x00, 0x00, 0x00,
    ];
    let insns = decode_insns(&bytes).unwrap();
    assert_eq!(insns.len(), 2);
    assert_eq!(
        insns[0],
        Insn { code: 0x18, regs: 0x21, off: 0x1234, imm: 0x12345678 }
    );
    assert_eq!(insns[0].src_reg(), 0x2);
    assert_eq!(insns[1].imm, 7);
    assert_eq!(decode_insns(&bytes[..15]), Err(Error::UnsupportedSectionKind));
}

#[test]
fn with_src_reg_touches_only_the_high_nibble() {
    let insn = Insn { code: 0x18, regs: 0x07, off: 3, imm: 42 };
    let patched = insn.with_src_reg(1);
    assert_eq!(patched.regs, 0x17);
    assert_eq!(patched.src_reg(), 1);
    assert_eq!(patched.code, 0x18);
    assert_eq!(patched.off, 3);
    assert_eq!(patched.imm, 42);
}

#[test]
fn network_byte_order_helpers() {
    assert_eq!(ntohs(0x1234), 0x3412);
    assert_eq!(ntohs(0x00ff), 0xff00);
    assert_eq!(int_to_ip(0x0100007f), (0x7f, 0, 0, 1));
}

#[test]
fn perf_event_item_decodes() {
    let mut data: Vec<u8> = Vec::new();
    data.extend_from_slice(&0x0100007fu32.to_le_bytes());
    data.extend_from_slice(&0x08080808u32.to_le_bytes());
    data.extend_from_slice(&[0x1f, 0x90]); // port 8080, network order
    data.extend_from_slice(&[0x00, 0x50]); // port 80, network order
    let e = PerfEventItem::parse(&data).unwrap();
    assert_eq!(e.src_ip, 0x0100007f);
    assert_eq!(e.dst_ip, 0x08080808);
    assert_eq!(ntohs(e.src_port), 8080);
    assert_eq!(ntohs(e.dst_port), 80);
    assert_eq!(PerfEventItem::parse(&data[..11]), Err(Error::MalformedObject));
}

#[test]
fn xdp_flags_values() {
    assert_eq!(Flags::Unset.bits(), 0);
    assert_eq!(Flags::UpdateIfNoExist.bits(), 1);
    assert_eq!(Flags::SkbMode.bits(), 2);
    assert_eq!(Flags::DrvMode.bits(), 4);
    assert_eq!(Flags::HwMode.bits(), 8);
}
