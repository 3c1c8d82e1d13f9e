//! Program descriptors and their lifecycle.
//!
//! A program is extracted from a recognized instruction section in state
//! `Unloaded`.  Loading it into the kernel is the collaborator's work: the
//! library checks the guard (`load_request`), the collaborator is called
//! outside, and the returned handle enters through `load`, which stores it
//! exactly once.  Attach operations follow the same request/complete split,
//! so a guard failure provably precedes any collaborator call.

use crate::error::Error;
use crate::insn::{decode_insns, spec_insns_of, Insn, INSN_SIZE};
use crate::section::{kind_tag, spec_kind_tag, SectionKind};
use vstd::prelude::*;
use vstd::string::StrSliceExecFns;

verus! {

/// Program type tag of a socket filter.
pub const BPF_PROG_TYPE_SOCKET_FILTER: u32 = 1;

/// Program type tag of a kernel probe (entry or return, kernel or user).
pub const BPF_PROG_TYPE_KPROBE: u32 = 2;

/// Program type tag of a trace point.
pub const BPF_PROG_TYPE_TRACEPOINT: u32 = 5;

/// Program type tag of a network-ingress program.
pub const BPF_PROG_TYPE_XDP: u32 = 6;

/// Whether a probe fires on function entry or on function return.
#[derive(Debug, Clone, Copy, PartialEq, Eq, Structural)]
pub enum ProbeAttachType {
    /// Fires when the probed function is entered.
    Entry,
    /// Fires when the probed function returns.
    Return,
}

/// The lifecycle state of a program.
#[derive(Debug, Clone, Copy, PartialEq, Eq, Structural)]
pub enum ProgramState {
    /// Extracted from the object; no kernel handle yet.
    Unloaded,
    /// Accepted by the kernel; handle stored.
    Loaded,
    /// Bound to its trigger point.
    Attached,
    /// The last attach attempt failed; the load handle is kept and attach
    /// may be retried.
    AttachFailed,
}

/// `'\0'` does not occur in `s`, so `s` can become a C-style string.
pub open spec fn spec_has_nul_char(s: Seq<char>) -> bool {
    exists|i: int| 0 <= i < s.len() && s[i] == '\0'
}

/// Scans `s` for an embedded `'\0'`.
pub fn has_nul_char(s: &str) -> (r: bool)
    ensures
        r == spec_has_nul_char(s@),
{
    let len: usize = s.unicode_len();
    let mut i: usize = 0;
    while i < len
        invariant
            0 <= i <= len,
            len == s@.len(),
            forall|j: int| 0 <= j < i ==> s@[j] != '\0',
        decreases len - i,
    {
        if s.get_char(i) == '\0' {
            assert(spec_has_nul_char(s@));
            return true;
        }
        i = i + 1;
    }
    assert(!spec_has_nul_char(s@));
    false
}

/// The descriptor payload every program kind shares.
pub struct ProgramData {
    /// The program's name: the subname of its section.
    pub name: String,
    /// The instruction stream; relocation resolution patches it in place.
    pub code: Vec<Insn>,
    /// The kernel handle, set exactly once by a successful load.
    pub fd: Option<i32>,
    /// The lifecycle state.
    pub state: ProgramState,
}

impl ProgramData {
    /// The handle and the state agree: a handle exists exactly outside
    /// `Unloaded`.
    pub open spec fn wf(self) -> bool {
        self.fd is Some <==> self.state != ProgramState::Unloaded
    }
}

/// A probe program (kernel entry or kernel return).
pub struct KProbe {
    /// The shared descriptor payload.
    pub common: ProgramData,
    /// Entry or return attachment.
    pub attach_type: ProbeAttachType,
}

/// A user-probe program (entry or return).
pub struct UProbe {
    /// The shared descriptor payload.
    pub common: ProgramData,
    /// Entry or return attachment.
    pub attach_type: ProbeAttachType,
}

/// A socket-filter program.
pub struct SocketFilter {
    /// The shared descriptor payload.
    pub common: ProgramData,
}

/// A trace-point program.
pub struct TracePoint {
    /// The shared descriptor payload.
    pub common: ProgramData,
}

/// A network-ingress program.
pub struct XDP {
    /// The shared descriptor payload.
    pub common: ProgramData,
    /// The interfaces the program was attached to.
    pub interfaces: Vec<String>,
}

/// A program descriptor, discriminated by its semantic kind.
pub enum Program {
    /// Probe on kernel-function entry.
    KProbe(KProbe),
    /// Probe on kernel-function return.
    KRetProbe(KProbe),
    /// Probe on user-function entry.
    UProbe(UProbe),
    /// Probe on user-function return.
    URetProbe(UProbe),
    /// Socket filter.
    SocketFilter(SocketFilter),
    /// Trace point.
    TracePoint(TracePoint),
    /// Network ingress.
    XDP(XDP),
}

impl Program {
    /// The shared descriptor payload.
    pub open spec fn spec_data(self) -> ProgramData {
        match self {
            Program::KProbe(p) => p.common,
            Program::KRetProbe(p) => p.common,
            Program::UProbe(p) => p.common,
            Program::URetProbe(p) => p.common,
            Program::SocketFilter(p) => p.common,
            Program::TracePoint(p) => p.common,
            Program::XDP(p) => p.common,
        }
    }

    /// This program with its shared payload replaced and everything else
    /// kept.
    pub open spec fn spec_with_data(self, d: ProgramData) -> Program {
        match self {
            Program::KProbe(p) => Program::KProbe(KProbe { common: d, ..p }),
            Program::KRetProbe(p) => Program::KRetProbe(KProbe { common: d, ..p }),
            Program::UProbe(p) => Program::UProbe(UProbe { common: d, ..p }),
            Program::URetProbe(p) => Program::URetProbe(UProbe { common: d, ..p }),
            Program::SocketFilter(p) => Program::SocketFilter(SocketFilter { common: d }),
            Program::TracePoint(p) => Program::TracePoint(TracePoint { common: d }),
            Program::XDP(p) => Program::XDP(XDP { common: d, ..p }),
        }
    }

    /// The section kind this program was extracted from.
    pub open spec fn spec_section_kind(self) -> SectionKind {
        match self {
            Program::KProbe(_) => SectionKind::KProbe,
            Program::KRetProbe(_) => SectionKind::KRetProbe,
            Program::UProbe(_) => SectionKind::UProbe,
            Program::URetProbe(_) => SectionKind::URetProbe,
            Program::SocketFilter(_) => SectionKind::SocketFilter,
            Program::TracePoint(_) => SectionKind::TracePoint,
            Program::XDP(_) => SectionKind::Xdp,
        }
    }

    /// The descriptor is well formed: handle and state agree, and a probe
    /// variant carries the attach type its kind names.
    pub open spec fn wf(self) -> bool {
        &&& self.spec_data().wf()
        &&& match self {
            Program::KProbe(p) => p.attach_type == ProbeAttachType::Entry,
            Program::KRetProbe(p) => p.attach_type == ProbeAttachType::Return,
            Program::UProbe(p) => p.attach_type == ProbeAttachType::Entry,
            Program::URetProbe(p) => p.attach_type == ProbeAttachType::Return,
            _ => true,
        }
    }

    /// The program type tag the load collaborator expects for this kind.
    pub open spec fn spec_prog_type(self) -> u32 {
        match self {
            Program::KProbe(_) => BPF_PROG_TYPE_KPROBE,
            Program::KRetProbe(_) => BPF_PROG_TYPE_KPROBE,
            Program::UProbe(_) => BPF_PROG_TYPE_KPROBE,
            Program::URetProbe(_) => BPF_PROG_TYPE_KPROBE,
            Program::SocketFilter(_) => BPF_PROG_TYPE_SOCKET_FILTER,
            Program::TracePoint(_) => BPF_PROG_TYPE_TRACEPOINT,
            Program::XDP(_) => BPF_PROG_TYPE_XDP,
        }
    }

    /// Whether `tag` names a recognized program kind.
    pub open spec fn spec_is_program_kind(tag: SectionKind) -> bool {
        match tag {
            SectionKind::KProbe => true,
            SectionKind::KRetProbe => true,
            SectionKind::UProbe => true,
            SectionKind::URetProbe => true,
            SectionKind::TracePoint => true,
            SectionKind::SocketFilter => true,
            SectionKind::Xdp => true,
            _ => false,
        }
    }

    /// Builds an `Unloaded` program from a section's kind part, subname and
    /// content bytes.  The content must decode into whole instructions and
    /// the kind must name a program kind.
    pub fn new(kind: &str, name: &str, code: &[u8]) -> (r: Result<Program, Error>)
        ensures
            r is Ok <==> (code@.len() % (INSN_SIZE as nat) == 0 && Self::spec_is_program_kind(
                spec_kind_tag(kind@),
            )),
            r matches Ok(p) ==> {
                &&& p.wf()
                &&& p.spec_section_kind() == spec_kind_tag(kind@)
                &&& p.spec_data().name@ == name@
                &&& p.spec_data().code@ == spec_insns_of(code@)
                &&& p.spec_data().fd is None
                &&& p.spec_data().state == ProgramState::Unloaded
            },
            r is Err ==> r == Result::<Program, Error>::Err(Error::UnsupportedSectionKind),
    {
        let insns = match decode_insns(code) {
            Ok(v) => v,
            Err(e) => {
                return Err(e);
            },
        };
        let common = ProgramData {
            name: name.to_owned(),
            code: insns,
            fd: None,
            state: ProgramState::Unloaded,
        };
        match kind_tag(kind) {
            SectionKind::KProbe => Ok(
                Program::KProbe(KProbe { common, attach_type: ProbeAttachType::Entry }),
            ),
            SectionKind::KRetProbe => Ok(
                Program::KRetProbe(KProbe { common, attach_type: ProbeAttachType::Return }),
            ),
            SectionKind::UProbe => Ok(
                Program::UProbe(UProbe { common, attach_type: ProbeAttachType::Entry }),
            ),
            SectionKind::URetProbe => Ok(
                Program::URetProbe(UProbe { common, attach_type: ProbeAttachType::Return }),
            ),
            SectionKind::TracePoint => Ok(Program::TracePoint(TracePoint { common })),
            SectionKind::SocketFilter => Ok(Program::SocketFilter(SocketFilter { common })),
            SectionKind::Xdp => Ok(Program::XDP(XDP { common, interfaces: Vec::new() })),
            _ => Err(Error::UnsupportedSectionKind),
        }
    }

    /// Returns the shared descriptor payload.
    pub fn data(&self) -> (r: &ProgramData)
        ensures
            *r == self.spec_data(),
    {
        match self {
            Program::KProbe(p) => &p.common,
            Program::KRetProbe(p) => &p.common,
            Program::UProbe(p) => &p.common,
            Program::URetProbe(p) => &p.common,
            Program::SocketFilter(p) => &p.common,
            Program::TracePoint(p) => &p.common,
            Program::XDP(p) => &p.common,
        }
    }

    /// Returns the shared descriptor payload for in-place update.
    pub(crate) fn data_mut(&mut self) -> (r: &mut ProgramData)
        ensures
            *r == old(self).spec_data(),
            *final(self) == old(self).spec_with_data(*final(r)),
    {
        match self {
            Program::KProbe(p) => &mut p.common,
            Program::KRetProbe(p) => &mut p.common,
            Program::UProbe(p) => &mut p.common,
            Program::URetProbe(p) => &mut p.common,
            Program::SocketFilter(p) => &mut p.common,
            Program::TracePoint(p) => &mut p.common,
            Program::XDP(p) => &mut p.common,
        }
    }

    /// The program's name.
    pub fn name(&self) -> (r: &str)
        ensures
            r@ == self.spec_data().name@,
    {
        self.data().name.as_str()
    }

    /// The kernel handle, when one was stored by a successful load.
    pub fn fd(&self) -> (r: Option<i32>)
        ensures
            r == self.spec_data().fd,
    {
        self.data().fd
    }

    /// The instruction stream.
    pub fn instructions(&self) -> (r: &Vec<Insn>)
        ensures
            r@ == self.spec_data().code@,
    {
        &self.data().code
    }

    /// The lifecycle state.
    pub fn state(&self) -> (r: ProgramState)
        ensures
            r == self.spec_data().state,
    {
        self.data().state
    }

    /// Returns the program type tag for the load collaborator.
    pub fn to_prog_type(&self) -> (r: u32)
        ensures
            r == self.spec_prog_type(),
    {
        match self {
            Program::KProbe(_) => BPF_PROG_TYPE_KPROBE,
            Program::KRetProbe(_) => BPF_PROG_TYPE_KPROBE,
            Program::UProbe(_) => BPF_PROG_TYPE_KPROBE,
            Program::URetProbe(_) => BPF_PROG_TYPE_KPROBE,
            Program::SocketFilter(_) => BPF_PROG_TYPE_SOCKET_FILTER,
            Program::TracePoint(_) => BPF_PROG_TYPE_TRACEPOINT,
            Program::XDP(_) => BPF_PROG_TYPE_XDP,
        }
    }

    /// Guard for the load collaborator: succeeds, giving the program type
    /// tag, exactly when no handle is stored yet and both the program name
    /// and the license can become C-style strings.  Makes no state change,
    /// so a rejected request provably precedes any collaborator call.
    pub fn load_request(&self, license: &str) -> (r: Result<u32, Error>)
        ensures
            r is Ok <==> (self.spec_data().fd is None && !spec_has_nul_char(
                self.spec_data().name@,
            ) && !spec_has_nul_char(license@)),
            r matches Ok(t) ==> t == self.spec_prog_type(),
            self.spec_data().fd is Some ==> r == Result::<u32, Error>::Err(
                Error::ProgramAlreadyLoaded,
            ),
            self.spec_data().fd is None && (spec_has_nul_char(self.spec_data().name@)
                || spec_has_nul_char(license@)) ==> r == Result::<u32, Error>::Err(
                Error::StringConversionError,
            ),
    {
        if self.data().fd.is_some() {
            return Err(Error::ProgramAlreadyLoaded);
        }
        if has_nul_char(self.name()) || has_nul_char(license) {
            return Err(Error::StringConversionError);
        }
        Ok(self.to_prog_type())
    }

    /// Stores the handle the load collaborator returned.  A second load is
    /// rejected with `ProgramAlreadyLoaded` and leaves the stored handle
    /// unchanged; a negative handle is a rejected load and leaves the
    /// program `Unloaded`.
    pub fn load(&mut self, fd: i32) -> (r: Result<(), Error>)
        ensures
            old(self).spec_data().fd is Some ==> r == Result::<(), Error>::Err(
                Error::ProgramAlreadyLoaded,
            ) && *final(self) == *old(self),
            old(self).spec_data().fd is None && fd < 0 ==> r == Result::<(), Error>::Err(
                Error::ProgramLoadError,
            ) && *final(self) == *old(self),
            old(self).spec_data().fd is None && fd >= 0 ==> r is Ok && *final(self) == old(self).spec_with_data(
                ProgramData {
                    fd: Some(fd),
                    state: ProgramState::Loaded,
                    ..old(self).spec_data()
                },
            ),
            old(self).wf() ==> final(self).wf(),
    {
        if self.data().fd.is_some() {
            return Err(Error::ProgramAlreadyLoaded);
        }
        if fd < 0 {
            return Err(Error::ProgramLoadError);
        }
        let d = self.data_mut();
        d.fd = Some(fd);
        d.state = ProgramState::Loaded;
        Ok(())
    }
}

impl SocketFilter {
    /// The program's name.
    pub fn name(&self) -> (r: String)
        ensures
            r@ == self.common.name@,
    {
        self.common.name.clone()
    }

    /// Guard for the socket-attach collaborator: succeeds, giving the
    /// stored handle, exactly when the program is loaded and the interface
    /// name can become a C-style string.  Makes no state change.
    pub fn attach_request(&self, interface: &str) -> (r: Result<i32, Error>)
        ensures
            r is Ok <==> (self.common.fd is Some && !spec_has_nul_char(interface@)),
            r matches Ok(fd) ==> self.common.fd == Some(fd),
            self.common.fd is None ==> r == Result::<i32, Error>::Err(Error::ProgramNotLoaded),
            self.common.fd is Some && spec_has_nul_char(interface@) ==> r == Result::<
                i32,
                Error,
            >::Err(Error::StringConversionError),
    {
        let fd = match self.common.fd {
            Some(fd) => fd,
            None => {
                return Err(Error::ProgramNotLoaded);
            },
        };
        if has_nul_char(interface) {
            return Err(Error::StringConversionError);
        }
        Ok(fd)
    }

    /// Records the attach collaborator's outcome: the raw socket handle and
    /// the attach return code.  An attach on a program without a load
    /// handle is refused with `ProgramNotLoaded` and changes nothing.
    /// Success transitions to `Attached` and hands the socket handle back;
    /// failure transitions to `AttachFailed`, keeping the load handle so
    /// the caller may retry.
    pub fn attach_socket_filter(&mut self, sfd: i32, attach_ret: i32) -> (r: Result<i32, Error>)
        ensures
            old(self).common.fd is None ==> r == Result::<i32, Error>::Err(
                Error::ProgramNotLoaded,
            ) && *final(self) == *old(self),
            old(self).common.fd is Some && sfd >= 0 && attach_ret == 0 ==> r == Result::<
                i32,
                Error,
            >::Ok(sfd) && final(self).common == (ProgramData {
                state: ProgramState::Attached,
                ..old(self).common
            }),
            old(self).common.fd is Some && (sfd < 0 || attach_ret != 0) ==> r == Result::<
                i32,
                Error,
            >::Err(Error::AttachError) && final(self).common == (ProgramData {
                state: ProgramState::AttachFailed,
                ..old(self).common
            }),
    {
        if self.common.fd.is_none() {
            return Err(Error::ProgramNotLoaded);
        }
        if sfd < 0 {
            self.common.state = ProgramState::AttachFailed;
            return Err(Error::AttachError);
        }
        if attach_ret != 0 {
            self.common.state = ProgramState::AttachFailed;
            return Err(Error::AttachError);
        }
        self.common.state = ProgramState::Attached;
        Ok(sfd)
    }
}

impl XDP {
    /// Guard for the network-ingress attach collaborator: succeeds, giving
    /// the stored handle, exactly when the program is loaded and the
    /// interface name can become a C-style string.  Makes no state change.
    pub fn attach_request(&self, interface: &str) -> (r: Result<i32, Error>)
        ensures
            r is Ok <==> (self.common.fd is Some && !spec_has_nul_char(interface@)),
            r matches Ok(fd) ==> self.common.fd == Some(fd),
            self.common.fd is None ==> r == Result::<i32, Error>::Err(Error::ProgramNotLoaded),
            self.common.fd is Some && spec_has_nul_char(interface@) ==> r == Result::<
                i32,
                Error,
            >::Err(Error::StringConversionError),
    {
        let fd = match self.common.fd {
            Some(fd) => fd,
            None => {
                return Err(Error::ProgramNotLoaded);
            },
        };
        if has_nul_char(interface) {
            return Err(Error::StringConversionError);
        }
        Ok(fd)
    }

    /// Records the network-ingress attach collaborator's outcome.  An
    /// attach on a program without a load handle is refused with
    /// `ProgramNotLoaded` and changes nothing.  Success transitions to
    /// `Attached` and remembers the interface; failure transitions to
    /// `AttachFailed`, keeping the load handle.
    pub fn attach_xdp(&mut self, interface: String, attach_ret: i32) -> (r: Result<(), Error>)
        ensures
            old(self).common.fd is None ==> r == Result::<(), Error>::Err(
                Error::ProgramNotLoaded,
            ) && *final(self) == *old(self),
            old(self).common.fd is Some && attach_ret == 0 ==> r is Ok && final(self).common == (
            ProgramData {
                state: ProgramState::Attached,
                ..old(self).common
            }) && final(self).interfaces@ == old(self).interfaces@.push(interface),
            old(self).common.fd is Some && attach_ret != 0 ==> r == Result::<(), Error>::Err(
                Error::AttachError,
            ) && final(self).common == (ProgramData {
                state: ProgramState::AttachFailed,
                ..old(self).common
            }) && final(self).interfaces@ == old(self).interfaces@,
    {
        if self.common.fd.is_none() {
            return Err(Error::ProgramNotLoaded);
        }
        if attach_ret != 0 {
            self.common.state = ProgramState::AttachFailed;
            return Err(Error::AttachError);
        }
        self.common.state = ProgramState::Attached;
        self.interfaces.push(interface);
        Ok(())
    }
}

} // verus!

