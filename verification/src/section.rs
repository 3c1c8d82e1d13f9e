//! Section classification: deriving a semantic `(kind, subname)` pair from a
//! section's raw name.
//!
//! The raw name is split on its first `/`.  The left part selects the
//! semantic kind; the right part, when a separator exists, is the
//! user-assigned name of a map or program.  The mapping is purely syntactic:
//! the same raw name always yields the same pair.

use crate::elf::Section;
use crate::error::Error;
use vstd::prelude::*;
use vstd::string::{StrSliceExecFns, StringExecFns};

verus! {

/// The index of the first `/` in `s`, or `s.len()` when none occurs.
pub open spec fn spec_slash_position(s: Seq<char>) -> int
    decreases s.len(),
{
    if s.len() == 0 {
        0
    } else if s[0] == '/' {
        0
    } else {
        1 + spec_slash_position(s.drop_first())
    }
}

/// `spec_slash_position` is the first index holding `/`, and is `s.len()`
/// exactly when `s` holds no `/`.
pub proof fn lemma_slash_position(s: Seq<char>)
    ensures
        0 <= spec_slash_position(s) <= s.len(),
        forall|j: int| 0 <= j < spec_slash_position(s) ==> s[j] != '/',
        spec_slash_position(s) < s.len() ==> s[spec_slash_position(s)] == '/',
    decreases s.len(),
{
    if s.len() > 0 && s[0] != '/' {
        lemma_slash_position(s.drop_first());
        assert forall|j: int| 0 <= j < spec_slash_position(s) implies s[j] != '/' by {
            if j > 0 {
                assert(s.drop_first()[j - 1] != '/');
            }
        }
        if spec_slash_position(s) < s.len() {
            assert(s.drop_first()[spec_slash_position(s) - 1] == '/');
        }
    }
}

/// Scans `s` for its first `/`.
pub fn slash_position(s: &str) -> (r: usize)
    ensures
        r == spec_slash_position(s@),
{
    proof {
        lemma_slash_position(s@);
    }
    let len: usize = s.unicode_len();
    let mut i: usize = 0;
    while i < len
        invariant
            0 <= i <= len,
            len == s@.len(),
            forall|j: int| 0 <= j < i ==> s@[j] != '/',
            forall|j: int| 0 <= j < spec_slash_position(s@) ==> s@[j] != '/',
            spec_slash_position(s@) < s@.len() ==> s@[spec_slash_position(s@)] == '/',
            spec_slash_position(s@) <= s@.len(),
            i <= spec_slash_position(s@),
        decreases len - i,
    {
        if s.get_char(i) == '/' {
            return i;
        }
        i = i + 1;
    }
    i
}

/// The kind part of a raw section name: everything before the first `/`,
/// or the whole name when no `/` occurs.
pub open spec fn spec_kind_of(s: Seq<char>) -> Seq<char> {
    s.take(spec_slash_position(s))
}

/// The subname part of a raw section name: everything after the first `/`,
/// absent when no `/` occurs.
pub open spec fn spec_subname_of(s: Seq<char>) -> Option<Seq<char>> {
    if spec_slash_position(s) < s.len() {
        Some(s.skip(spec_slash_position(s) + 1))
    } else {
        None
    }
}

/// Splits a section's raw name into its `(kind, subname)` pair.
///
/// Fails with `MissingSectionName` when the object provides no name string
/// for the section with index `shndx`.
pub fn get_split_section_name(section: &Section, shndx: usize) -> (r: Result<
    (String, Option<String>),
    Error,
>)
    ensures
        r is Ok <==> section.name is Some,
        r is Err ==> r == Result::<(String, Option<String>), Error>::Err(
            Error::MissingSectionName(shndx),
        ),
        r matches Ok((kind, sub)) ==> {
            let n = section.name->0@;
            &&& kind@ == spec_kind_of(n)
            &&& (sub is Some <==> spec_subname_of(n) is Some)
            &&& (sub matches Some(s) ==> spec_subname_of(n) == Some(s@))
        },
{
    let name: &String = match &section.name {
        Some(n) => n,
        None => {
            return Err(Error::MissingSectionName(shndx));
        },
    };
    let s: &str = name.as_str();
    let len: usize = s.unicode_len();
    let i: usize = slash_position(s);
    proof {
        lemma_slash_position(s@);
    }
    let kind: String = s.substring_char(0, i).to_owned();
    if i < len {
        let sub: String = s.substring_char(i + 1, len).to_owned();
        assert(sub@ =~= s@.skip(spec_slash_position(s@) + 1));
        Ok((kind, Some(sub)))
    } else {
        Ok((kind, None))
    }
}

/// The semantic section kinds the loader recognizes.
#[derive(Debug, Clone, Copy, PartialEq, Eq, Structural)]
pub enum SectionKind {
    /// Kernel-version requirement section.
    Version,
    /// License text section.
    License,
    /// Map configuration section.
    Maps,
    /// Probe-entry program section.
    KProbe,
    /// Probe-return program section.
    KRetProbe,
    /// User-probe-entry program section.
    UProbe,
    /// User-probe-return program section.
    URetProbe,
    /// Trace-point program section.
    TracePoint,
    /// Socket-filter program section.
    SocketFilter,
    /// Network-ingress program section.
    Xdp,
    /// Anything the classifier does not recognize.
    Other,
}

/// The semantic kind selected by the kind part of a raw section name.
pub open spec fn spec_kind_tag(k: Seq<char>) -> SectionKind {
    if k == "version"@ {
        SectionKind::Version
    } else if k == "license"@ {
        SectionKind::License
    } else if k == "maps"@ || k == "map"@ {
        SectionKind::Maps
    } else if k == "kprobe"@ {
        SectionKind::KProbe
    } else if k == "kretprobe"@ {
        SectionKind::KRetProbe
    } else if k == "uprobe"@ {
        SectionKind::UProbe
    } else if k == "uretprobe"@ {
        SectionKind::URetProbe
    } else if k == "tracepoint"@ {
        SectionKind::TracePoint
    } else if k == "socketfilter"@ {
        SectionKind::SocketFilter
    } else if k == "xdp"@ {
        SectionKind::Xdp
    } else {
        SectionKind::Other
    }
}

/// Compares two string slices by their character sequences.
pub fn str_eq(a: &str, b: &str) -> (r: bool)
    ensures
        r == (a@ == b@),
{
    let sa: String = String::from_str(a);
    let sb: String = String::from_str(b);
    sa.eq(&sb)
}

/// Returns the semantic kind selected by the kind part `k`.
pub fn kind_tag(k: &str) -> (r: SectionKind)
    ensures
        r == spec_kind_tag(k@),
{
    if str_eq(k, "version") {
        SectionKind::Version
    } else if str_eq(k, "license") {
        SectionKind::License
    } else if str_eq(k, "maps") || str_eq(k, "map") {
        SectionKind::Maps
    } else if str_eq(k, "kprobe") {
        SectionKind::KProbe
    } else if str_eq(k, "kretprobe") {
        SectionKind::KRetProbe
    } else if str_eq(k, "uprobe") {
        SectionKind::UProbe
    } else if str_eq(k, "uretprobe") {
        SectionKind::URetProbe
    } else if str_eq(k, "tracepoint") {
        SectionKind::TracePoint
    } else if str_eq(k, "socketfilter") {
        SectionKind::SocketFilter
    } else if str_eq(k, "xdp") {
        SectionKind::Xdp
    } else {
        SectionKind::Other
    }
}

} // verus!
