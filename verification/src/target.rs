//! Target descriptions: architecture, operating system and ABI, parsed from
//! `arch-os[-abi]` strings and rendered back, plus the LLVM triple form that
//! the code generator consumes.

use vstd::prelude::*;
use vstd::string::*;

verus! {

/// Supported operating systems.
#[derive(Debug, Clone, Copy, PartialEq, Eq, Hash, Structural)]
pub enum Os {
    Freestanding,
    Other,
    Linux,
}

/// Supported architectures.
#[derive(Debug, Clone, Copy, PartialEq, Eq, Hash, Structural)]
pub enum Arch {
    X86_64,
    X86,
}

/// Supported ABIs. `NoAbi` is the default when the target string has no
/// third component.
#[derive(Debug, Clone, Copy, PartialEq, Eq, Hash, Structural)]
pub enum Abi {
    NoAbi,
    Gnu,
}

/// Byte orders.
#[derive(Debug, Clone, Copy, PartialEq, Eq, Hash, Structural)]
pub enum Endianess {
    Big,
    Little,
}

/// The textual name of an operating system.
pub open spec fn os_name(o: Os) -> Seq<char> {
    match o {
        Os::Freestanding => "freestanding"@,
        Os::Other => "other"@,
        Os::Linux => "linux"@,
    }
}

/// The textual name of an architecture.
pub open spec fn arch_name(a: Arch) -> Seq<char> {
    match a {
        Arch::X86_64 => "x86_64"@,
        Arch::X86 => "x86"@,
    }
}

/// The textual name of an ABI.
pub open spec fn abi_name(a: Abi) -> Seq<char> {
    match a {
        Abi::NoAbi => "none"@,
        Abi::Gnu => "gnu"@,
    }
}

/// The textual name of a byte order.
pub open spec fn endianess_name(e: Endianess) -> Seq<char> {
    match e {
        Endianess::Big => "big"@,
        Endianess::Little => "little"@,
    }
}

/// The operating system whose name is `s`, if any.
pub open spec fn os_of_name(s: Seq<char>) -> Option<Os> {
    if s == os_name(Os::Freestanding) {
        Some(Os::Freestanding)
    } else if s == os_name(Os::Other) {
        Some(Os::Other)
    } else if s == os_name(Os::Linux) {
        Some(Os::Linux)
    } else {
        None
    }
}

/// The architecture whose name is `s`, if any.
pub open spec fn arch_of_name(s: Seq<char>) -> Option<Arch> {
    if s == arch_name(Arch::X86_64) {
        Some(Arch::X86_64)
    } else if s == arch_name(Arch::X86) {
        Some(Arch::X86)
    } else {
        None
    }
}

/// The ABI whose name is `s`, if any.
pub open spec fn abi_of_name(s: Seq<char>) -> Option<Abi> {
    if s == abi_name(Abi::NoAbi) {
        Some(Abi::NoAbi)
    } else if s == abi_name(Abi::Gnu) {
        Some(Abi::Gnu)
    } else {
        None
    }
}

impl Os {
    /// Renders this operating system's name.
    pub fn to_str(&self) -> (r: &'static str)
        ensures
            r@ == os_name(*self),
    {
        match self {
            Os::Freestanding => "freestanding",
            Os::Other => "other",
            Os::Linux => "linux",
        }
    }

    /// The operating system named `s`, if any.
    pub fn from_str(s: &str) -> (r: Result<Os, ()>)
        ensures
            r == (match os_of_name(s@) {
                Some(o) => Result::<Os, ()>::Ok(o),
                None => Result::<Os, ()>::Err(()),
            }),
    {
        if str_eqs(s, "freestanding") {
            Ok(Os::Freestanding)
        } else if str_eqs(s, "other") {
            Ok(Os::Other)
        } else if str_eqs(s, "linux") {
            Ok(Os::Linux)
        } else {
            Err(())
        }
    }

    /// File extension of an executable on this operating system.
    pub fn exe_file_ext(&self) -> (r: &'static str)
        ensures
            r@ == Seq::<char>::empty(),
    {
        proof {
            reveal_strlit("");
        }
        ""
    }

    /// File extension of a dynamic library on this operating system.
    pub fn dynamic_lib_ext(&self) -> (r: &'static str)
        ensures
            r@ == "so"@,
    {
        "so"
    }

    /// The `osvendor` part of the LLVM triple for this operating system.
    pub fn to_llvm(&self) -> (r: &'static str)
        ensures
            r@ == os_llvm(*self),
    {
        match self {
            Os::Freestanding | Os::Other => "unknown",
            Os::Linux => "pc-linux",
        }
    }
}

/// The `osvendor` part of the LLVM triple: `unknown` for freestanding and
/// other, `pc-linux` for linux.
pub open spec fn os_llvm(o: Os) -> Seq<char> {
    match o {
        Os::Freestanding | Os::Other => "unknown"@,
        Os::Linux => "pc-linux"@,
    }
}

/// The architecture part of the LLVM triple.
pub open spec fn arch_llvm(a: Arch) -> Seq<char> {
    arch_name(a)
}

/// The ABI part of the LLVM triple.
pub open spec fn abi_llvm(a: Abi) -> Seq<char> {
    abi_name(a)
}

impl Arch {
    /// Renders this architecture's name.
    pub fn to_str(&self) -> (r: &'static str)
        ensures
            r@ == arch_name(*self),
    {
        match self {
            Arch::X86_64 => "x86_64",
            Arch::X86 => "x86",
        }
    }

    /// The architecture named `s`, if any.
    pub fn from_str(s: &str) -> (r: Result<Arch, ()>)
        ensures
            r == (match arch_of_name(s@) {
                Some(a) => Result::<Arch, ()>::Ok(a),
                None => Result::<Arch, ()>::Err(()),
            }),
    {
        if str_eqs(s, "x86_64") {
            Ok(Arch::X86_64)
        } else if str_eqs(s, "x86") {
            Ok(Arch::X86)
        } else {
            Err(())
        }
    }

    /// Byte order of this architecture; every supported one is little-endian.
    pub fn endianess(&self) -> (r: Endianess)
        ensures
            r == Endianess::Little,
    {
        match self {
            Arch::X86 | Arch::X86_64 => Endianess::Little,
        }
    }

    /// The family name shared by related architectures.
    pub fn generic_name(&self) -> (r: &'static str)
        ensures
            r@ == "x86"@,
    {
        match self {
            Arch::X86 | Arch::X86_64 => "x86",
        }
    }

    /// True of the x86 family.
    pub fn is_x86(&self) -> (r: bool)
        ensures
            r,
    {
        matches!(self, Arch::X86 | Arch::X86_64)
    }

    /// The LLVM CPU name of this architecture.
    pub fn to_llvm_cpu(&self) -> (r: &'static str)
        ensures
            *self == Arch::X86_64 ==> r@ == "x86-64"@,
            *self == Arch::X86 ==> r@ == "x86"@,
    {
        match self {
            Arch::X86_64 => "x86-64",
            Arch::X86 => "x86",
        }
    }

    /// The architecture part of the LLVM triple.
    pub fn to_llvm(&self) -> (r: &'static str)
        ensures
            r@ == arch_llvm(*self),
    {
        self.to_str()
    }
}

impl Abi {
    /// Renders this ABI's name.
    pub fn to_str(&self) -> (r: &'static str)
        ensures
            r@ == abi_name(*self),
    {
        match self {
            Abi::NoAbi => "none",
            Abi::Gnu => "gnu",
        }
    }

    /// The ABI named `s`, if any.
    pub fn from_str(s: &str) -> (r: Result<Abi, ()>)
        ensures
            r == (match abi_of_name(s@) {
                Some(a) => Result::<Abi, ()>::Ok(a),
                None => Result::<Abi, ()>::Err(()),
            }),
    {
        if str_eqs(s, "none") {
            Ok(Abi::NoAbi)
        } else if str_eqs(s, "gnu") {
            Ok(Abi::Gnu)
        } else {
            Err(())
        }
    }

    /// The ABI part of the LLVM triple.
    pub fn to_llvm(&self) -> (r: &'static str)
        ensures
            r@ == abi_llvm(*self),
    {
        self.to_str()
    }
}

impl Endianess {
    /// Renders this byte order's name.
    pub fn to_str(&self) -> (r: &'static str)
        ensures
            r@ == endianess_name(*self),
    {
        match self {
            Endianess::Big => "big",
            Endianess::Little => "little",
        }
    }
}

/// A target description: architecture, operating system and ABI.
#[derive(Debug, Clone, Copy, PartialEq, Eq, Hash, Structural)]
pub struct Target {
    pub arch: Arch,
    pub os: Os,
    pub abi: Abi,
}

/// Why a target string was rejected. The string is split at every dash into
/// components; `MissingArch` is reserved for an absent first component, which
/// the splitter never produces (even the empty string has one, empty,
/// component, rejected as `MissingOs`).
#[derive(Debug, Clone, Copy, PartialEq, Eq, Structural)]
pub enum TargetParsingError {
    InvalidArch,
    InvalidOs,
    InvalidAbi,
    TooManyArguments,
    MissingArch,
    MissingOs,
}

/// The positions of every `-` in `s`, in increasing order.
pub open spec fn dash_seq(s: Seq<char>) -> Seq<int>
    decreases s.len(),
{
    if s.len() == 0 {
        Seq::empty()
    } else {
        let rest = dash_seq(s.drop_last());
        if s.last() == '-' {
            rest.push(s.len() - 1)
        } else {
            rest
        }
    }
}

/// What parsing an `arch-os[-abi]` string yields: the target, or the error
/// for the first component that is wrong, with too many components rejected
/// before any component is examined.
pub open spec fn parse_target(s: Seq<char>) -> Result<Target, TargetParsingError> {
    let ds = dash_seq(s);
    if ds.len() == 0 {
        Err(TargetParsingError::MissingOs)
    } else if ds.len() > 2 {
        Err(TargetParsingError::TooManyArguments)
    } else {
        let arch_s = s.take(ds[0]);
        let os_s = if ds.len() == 2 {
            s.subrange(ds[0] + 1, ds[1])
        } else {
            s.skip(ds[0] + 1)
        };
        match arch_of_name(arch_s) {
            None => Err(TargetParsingError::InvalidArch),
            Some(arch) => match os_of_name(os_s) {
                None => Err(TargetParsingError::InvalidOs),
                Some(os) => if ds.len() == 2 {
                    match abi_of_name(s.skip(ds[1] + 1)) {
                        None => Err(TargetParsingError::InvalidAbi),
                        Some(abi) => Ok(Target { arch, os, abi }),
                    }
                } else {
                    Ok(Target { arch, os, abi: Abi::NoAbi })
                },
            },
        }
    }
}

/// The rendered form of a target: `arch-os`, or `arch-os-abi` when the ABI
/// is not the default.
pub open spec fn format_target(t: Target) -> Seq<char> {
    if t.abi == Abi::NoAbi {
        arch_name(t.arch) + "-"@ + os_name(t.os)
    } else {
        arch_name(t.arch) + "-"@ + os_name(t.os) + "-"@ + abi_name(t.abi)
    }
}

/// The LLVM triple of a target: always `arch-osvendor-abi`.
pub open spec fn llvm_target(t: Target) -> Seq<char> {
    arch_llvm(t.arch) + "-"@ + os_llvm(t.os) + "-"@ + abi_llvm(t.abi)
}

impl Target {
    /// Builds a target from its three components.
    pub fn new(arch: Arch, os: Os, abi: Abi) -> (r: Self)
        ensures
            r == (Target { arch, os, abi }),
    {
        Self { arch, os, abi }
    }

    /// Builds a target with the default ABI.
    pub fn new_simple(arch: Arch, os: Os) -> (r: Self)
        ensures
            r == (Target { arch, os, abi: Abi::NoAbi }),
    {
        Self::new(arch, os, Abi::NoAbi)
    }

    /// Parses an `arch-os[-abi]` string.
    pub fn from_str(s: &str) -> (r: Result<Target, TargetParsingError>)
        ensures
            r == parse_target(s@),
    {
        let ghost sv = s@;
        let n = s.unicode_len();
        let mut dashes: Vec<usize> = Vec::new();
        let mut i: usize = 0;
        while i < n
            invariant
                n == sv.len(),
                sv == s@,
                i <= n,
                dashes@.map_values(|d: usize| d as int) == dash_seq(sv.take(i as int)),
                forall|k: int| 0 <= k < dashes@.len() ==> #[trigger] dashes@[k] < i,
                forall|k1: int, k2: int|
                    0 <= k1 < k2 < dashes@.len() ==> dashes@[k1] < dashes@[k2],
            decreases n - i,
        {
            let c = s.get_char(i);
            proof {
                assert(sv.take(i + 1 as int).drop_last() =~= sv.take(i as int));
                assert(sv.take(i + 1 as int).last() == sv[i as int]);
            }
            if c == '-' {
                let ghost old_dashes = dashes@;
                dashes.push(i);
                proof {
                    assert(dashes@.map_values(|d: usize| d as int) =~= old_dashes.map_values(
                        |d: usize| d as int,
                    ).push(i as int));
                }
            }
            i += 1;
        }
        proof {
            assert(sv.take(n as int) =~= sv);
        }
        let ghost ds = dash_seq(sv);
        if dashes.len() == 0 {
            return Err(TargetParsingError::MissingOs);
        }
        if dashes.len() > 2 {
            return Err(TargetParsingError::TooManyArguments);
        }
        let d0 = dashes[0];
        let arch_str = s.substring_char(0, d0);
        proof {
            assert(arch_str@ =~= sv.take(ds[0]));
        }
        let arch = match Arch::from_str(arch_str) {
            Ok(a) => a,
            Err(_) => {
                return Err(TargetParsingError::InvalidArch);
            },
        };
        let os_end = if dashes.len() == 2 {
            dashes[1]
        } else {
            n
        };
        let os_str = s.substring_char(d0 + 1, os_end);
        proof {
            if ds.len() == 2 {
                assert(os_str@ =~= sv.subrange(ds[0] + 1, ds[1]));
            } else {
                assert(os_str@ =~= sv.skip(ds[0] + 1));
            }
        }
        let os = match Os::from_str(os_str) {
            Ok(o) => o,
            Err(_) => {
                return Err(TargetParsingError::InvalidOs);
            },
        };
        if dashes.len() == 2 {
            let d1 = dashes[1];
            let abi_str = s.substring_char(d1 + 1, n);
            proof {
                assert(abi_str@ =~= sv.skip(ds[1] + 1));
            }
            match Abi::from_str(abi_str) {
                Ok(abi) => Ok(Target { arch, os, abi }),
                Err(_) => Err(TargetParsingError::InvalidAbi),
            }
        } else {
            Ok(Target { arch, os, abi: Abi::NoAbi })
        }
    }

    /// Parses a target string that is known to be well formed; the driver
    /// uses it for built-in target names.
    pub fn from_name(name: &str) -> (r: Self)
        requires
            parse_target(name@) is Ok,
        ensures
            Ok::<Target, TargetParsingError>(r) == parse_target(name@),
    {
        match Target::from_str(name) {
            Ok(t) => t,
            Err(_) => vstd::pervasive::unreached(),
        }
    }

    /// Renders the target as `arch-os[-abi]`.
    pub fn format(&self) -> (r: String)
        ensures
            r@ == format_target(*self),
    {
        let mut s: String = self.arch.to_str().to_owned();
        s.append("-");
        s.append(self.os.to_str());
        if !(matches!(self.abi, Abi::NoAbi)) {
            s.append("-");
            s.append(self.abi.to_str());
        }
        s
    }

    /// Renders the LLVM triple of the target.
    pub fn to_llvm(&self) -> (r: String)
        ensures
            r@ == llvm_target(*self),
    {
        let mut s: String = self.arch.to_llvm().to_owned();
        s.append("-");
        s.append(self.os.to_llvm());
        s.append("-");
        s.append(self.abi.to_llvm());
        s
    }
}

/// True when no character of `s` is a dash.
pub open spec fn no_dash(s: Seq<char>) -> bool {
    forall|i: int| 0 <= i < s.len() ==> s[i] != '-'
}

/// A dash-free sequence has no dash positions.
proof fn lemma_dash_seq_none(s: Seq<char>)
    requires
        no_dash(s),
    ensures
        dash_seq(s) == Seq::<int>::empty(),
    decreases s.len(),
{
    if s.len() > 0 {
        assert(forall|i: int| 0 <= i < s.drop_last().len() ==> s.drop_last()[i] == s[i]);
        lemma_dash_seq_none(s.drop_last());
        assert(s.last() != '-');
    }
}

/// Dash positions of a concatenation: those of the left part, then those of
/// the right part shifted past it.
proof fn lemma_dash_seq_concat(a: Seq<char>, b: Seq<char>)
    ensures
        dash_seq(a + b) == dash_seq(a) + dash_seq(b).map_values(|i: int| i + a.len()),
    decreases b.len(),
{
    if b.len() == 0 {
        assert(a + b =~= a);
        assert(dash_seq(a + b) =~= dash_seq(a) + dash_seq(b).map_values(|i: int| i + a.len()));
    } else {
        lemma_dash_seq_concat(a, b.drop_last());
        assert((a + b).drop_last() =~= a + b.drop_last());
        assert((a + b).last() == b.last());
        if b.last() == '-' {
            assert(dash_seq(a + b) =~= dash_seq(a) + dash_seq(b).map_values(
                |i: int| i + a.len(),
            ));
        } else {
            assert(dash_seq(a + b) =~= dash_seq(a) + dash_seq(b).map_values(
                |i: int| i + a.len(),
            ));
        }
    }
}

/// The component names never contain a dash.
proof fn lemma_names_no_dash()
    ensures
        forall|a: Arch| #[trigger] no_dash(arch_name(a)),
        forall|o: Os| #[trigger] no_dash(os_name(o)),
        forall|b: Abi| #[trigger] no_dash(abi_name(b)),
{
    reveal_strlit("x86_64");
    reveal_strlit("x86");
    reveal_strlit("freestanding");
    reveal_strlit("other");
    reveal_strlit("linux");
    reveal_strlit("none");
    reveal_strlit("gnu");
    assert forall|a: Arch| #[trigger] no_dash(arch_name(a)) by {
        match a {
            Arch::X86_64 => {
                assert(no_dash("x86_64"@));
            },
            Arch::X86 => {
                assert(no_dash("x86"@));
            },
        }
    }
    assert forall|o: Os| #[trigger] no_dash(os_name(o)) by {
        match o {
            Os::Freestanding => {
                assert(no_dash("freestanding"@));
            },
            Os::Other => {
                assert(no_dash("other"@));
            },
            Os::Linux => {
                assert(no_dash("linux"@));
            },
        }
    }
    assert forall|b: Abi| #[trigger] no_dash(abi_name(b)) by {
        match b {
            Abi::NoAbi => {
                assert(no_dash("none"@));
            },
            Abi::Gnu => {
                assert(no_dash("gnu"@));
            },
        }
    }
}

/// Recognizing a rendered component name gives back the component.
proof fn lemma_names_recognized()
    ensures
        forall|a: Arch| #[trigger] arch_of_name(arch_name(a)) == Some(a),
        forall|o: Os| #[trigger] os_of_name(os_name(o)) == Some(o),
        forall|b: Abi| #[trigger] abi_of_name(abi_name(b)) == Some(b),
{
    reveal_strlit("x86_64");
    reveal_strlit("x86");
    reveal_strlit("freestanding");
    reveal_strlit("other");
    reveal_strlit("linux");
    reveal_strlit("none");
    reveal_strlit("gnu");
    assert("x86"@.len() != "x86_64"@.len());
    assert("other"@[0] != "freestanding"@[0]);
    assert("linux"@[0] != "freestanding"@[0]);
    assert("linux"@[0] != "other"@[0]);
    assert("gnu"@.len() != "none"@.len());
    assert forall|a: Arch| #[trigger] arch_of_name(arch_name(a)) == Some(a) by {
        match a {
            Arch::X86_64 => {},
            Arch::X86 => {
                assert("x86"@ != "x86_64"@);
            },
        }
    }
    assert forall|o: Os| #[trigger] os_of_name(os_name(o)) == Some(o) by {
        match o {
            Os::Freestanding => {},
            Os::Other => {
                assert("other"@ != "freestanding"@);
            },
            Os::Linux => {
                assert("linux"@ != "freestanding"@);
                assert("linux"@ != "other"@);
            },
        }
    }
    assert forall|b: Abi| #[trigger] abi_of_name(abi_name(b)) == Some(b) by {
        match b {
            Abi::NoAbi => {},
            Abi::Gnu => {
                assert("gnu"@ != "none"@);
            },
        }
    }
}

/// Parsing a rendered target gives the target back, and the rendered form
/// never ends in a dash (in particular the default ABI leaves no trailing
/// dash behind).
pub proof fn lemma_target_round_trip(t: Target)
    ensures
        parse_target(format_target(t)) == Ok::<Target, TargetParsingError>(t),
        format_target(t).len() > 0,
        format_target(t).last() != '-',
{
    lemma_names_no_dash();
    lemma_names_recognized();
    reveal_strlit("-");
    let an = arch_name(t.arch);
    let on = os_name(t.os);
    let bn = abi_name(t.abi);
    let dash = "-"@;
    assert(dash.len() == 1);
    assert(dash[0] == '-');
    assert(an.len() > 0 && on.len() > 0 && bn.len() > 0) by {
        reveal_strlit("x86_64");
        reveal_strlit("x86");
        reveal_strlit("freestanding");
        reveal_strlit("other");
        reveal_strlit("linux");
        reveal_strlit("none");
        reveal_strlit("gnu");
        match t.arch {
            Arch::X86_64 => {},
            Arch::X86 => {},
        }
        match t.os {
            Os::Freestanding => {},
            Os::Other => {},
            Os::Linux => {},
        }
        match t.abi {
            Abi::NoAbi => {},
            Abi::Gnu => {},
        }
    }
    lemma_dash_seq_none(an);
    lemma_dash_seq_none(on);
    lemma_dash_seq_none(bn);
    assert(dash_seq(Seq::<char>::empty()) == Seq::<int>::empty());
    assert(dash.drop_last() =~= Seq::<char>::empty());
    assert(dash_seq(dash) =~= Seq::<int>::empty().push(0));
    if t.abi == Abi::NoAbi {
        let s = format_target(t);
        assert(s =~= an + dash + on);
        lemma_dash_seq_concat(an + dash, on);
        lemma_dash_seq_concat(an, dash);
        assert(dash_seq(dash) =~= Seq::<int>::empty().push(0));
        assert(dash_seq(an + dash) =~= Seq::<int>::empty().push(an.len() as int));
        assert(dash_seq(s) =~= Seq::<int>::empty().push(an.len() as int));
        let ds = dash_seq(s);
        assert(ds.len() == 1);
        assert(ds[0] == an.len());
        assert(s.take(ds[0]) =~= an);
        assert(s.skip(ds[0] + 1) =~= on);
        assert(s.last() == on.last());
        assert(on.last() != '-');
    } else {
        let s = format_target(t);
        let left = an + dash + on + dash;
        assert(s =~= left + bn);
        lemma_dash_seq_concat(left, bn);
        lemma_dash_seq_concat(an + dash + on, dash);
        lemma_dash_seq_concat(an + dash, on);
        lemma_dash_seq_concat(an, dash);
        assert(dash_seq(dash) =~= Seq::<int>::empty().push(0));
        assert(dash_seq(an + dash) =~= Seq::<int>::empty().push(an.len() as int));
        assert(dash_seq(an + dash + on) =~= Seq::<int>::empty().push(an.len() as int));
        assert(dash_seq(left) =~= Seq::<int>::empty().push(an.len() as int).push(
            an.len() + 1 + on.len() as int,
        ));
        assert(dash_seq(s) =~= Seq::<int>::empty().push(an.len() as int).push(
            an.len() + 1 + on.len() as int,
        ));
        let ds = dash_seq(s);
        assert(ds.len() == 2);
        assert(ds[0] == an.len());
        assert(ds[1] == an.len() + 1 + on.len());
        assert(s.take(ds[0]) =~= an);
        assert(s.subrange(ds[0] + 1, ds[1]) =~= on);
        assert(s.skip(ds[1] + 1) =~= bn);
        assert(s.last() == bn.last());
        assert(bn.last() != '-');
    }
}

/// Character-wise equality of two string slices.
pub fn str_eqs(a: &str, b: &str) -> (r: bool)
    ensures
        r == (a@ == b@),
{
    let na = a.unicode_len();
    let nb = b.unicode_len();
    if na != nb {
        proof {
            assert(a@ != b@) by {
                assert(a@.len() != b@.len());
            }
        }
        return false;
    }
    let mut i: usize = 0;
    while i < na
        invariant
            na == a@.len(),
            nb == b@.len(),
            na == nb,
            i <= na,
            forall|j: int| 0 <= j < i ==> a@[j] == b@[j],
        decreases na - i,
    {
        if a.get_char(i) != b.get_char(i) {
            return false;
        }
        i += 1;
    }
    proof {
        assert(a@ =~= b@);
    }
    true
}

} // verus!
