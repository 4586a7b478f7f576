use mira_core::target::{Abi, Arch, Endianess, Os, Target, TargetParsingError};

#[test]
fn target_parse_with_abi() {
    let t = Target::from_str("x86_64-linux-gnu").unwrap();
    assert_eq!(t, Target { arch: Arch::X86_64, os: Os::Linux, abi: Abi::Gnu });
    assert_eq!(t.format(), "x86_64-linux-gnu");
    assert_eq!(t.to_llvm(), "x86_64-pc-linux-gnu");
}

#[test]
fn target_parse_without_abi() {
    let t = Target::from_str("x86_64-linux").unwrap();
    assert_eq!(t, Target { arch: Arch::X86_64, os: Os::Linux, abi: Abi::NoAbi });
    assert_eq!(t.format(), "x86_64-linux");
    assert_eq!(t.to_llvm(), "x86_64-pc-linux-none");
}

#[test]
fn target_round_trip_all() {
    let arches = [Arch::X86_64, Arch::X86];
    let oses = [Os::Freestanding, Os::Other, Os::Linux];
    let abis = [Abi::NoAbi, Abi::Gnu];
    for &arch in &arches {
        for &os in &oses {
            for &abi in &abis {
                let t = Target::new(arch, os, abi);
                let s = t.format();
                assert!(!s.ends_with('-'));
                assert_eq!(Target::from_str(&s).unwrap(), t);
            }
        }
    }
}

#[test]
fn target_invalid_arch() {
    assert!(matches!(Target::from_str("arm-linux"), Err(TargetParsingError::InvalidArch)));
}

#[test]
fn target_invalid_os() {
    assert!(matches!(Target::from_str("x86-windows"), Err(TargetParsingError::InvalidOs)));
}

#[test]
fn target_invalid_abi() {
    assert!(matches!(Target::from_str("x86-linux-musl"), Err(TargetParsingError::InvalidAbi)));
}

#[test]
fn target_too_many_arguments() {
    assert!(matches!(
        Target::from_str("a-b-c-d"),
        Err(TargetParsingError::TooManyArguments)
    ));
    // too many components is rejected before the components are examined
    assert!(matches!(
        Target::from_str("x86_64-linux-gnu-extra"),
        Err(TargetParsingError::TooManyArguments)
    ));
}

#[test]
fn target_missing_os() {
    assert!(matches!(Target::from_str("x86_64"), Err(TargetParsingError::MissingOs)));
    assert!(matches!(Target::from_str(""), Err(TargetParsingError::MissingOs)));
}

#[test]
fn target_from_name() {
    let t = Target::from_name("x86-freestanding");
    assert_eq!(t, Target::new_simple(Arch::X86, Os::Freestanding));
}

#[test]
fn target_component_helpers() {
    assert_eq!(Os::Linux.exe_file_ext(), "");
    assert_eq!(Os::Linux.dynamic_lib_ext(), "so");
    assert_eq!(Os::Freestanding.to_llvm(), "unknown");
    assert_eq!(Os::Other.to_llvm(), "unknown");
    assert_eq!(Os::Linux.to_llvm(), "pc-linux");
    assert_eq!(Arch::X86_64.endianess(), Endianess::Little);
    assert_eq!(Arch::X86.endianess(), Endianess::Little);
    assert_eq!(Arch::X86_64.generic_name(), "x86");
    assert!(Arch::X86_64.is_x86());
    assert!(Arch::X86.is_x86());
    assert_eq!(Arch::X86_64.to_llvm_cpu(), "x86-64");
    assert_eq!(Arch::X86.to_llvm_cpu(), "x86");
    assert_eq!(Arch::X86_64.to_llvm(), "x86_64");
    assert_eq!(Abi::Gnu.to_llvm(), "gnu");
    assert_eq!(Abi::NoAbi.to_llvm(), "none");
    assert_eq!(Endianess::Little.to_str(), "little");
    assert_eq!(Endianess::Big.to_str(), "big");
    assert_eq!(Os::from_str("freestanding"), Ok(Os::Freestanding));
    assert_eq!(Arch::from_str("x86_64"), Ok(Arch::X86_64));
    assert_eq!(Abi::from_str("gnu"), Ok(Abi::Gnu));
    assert_eq!(Arch::from_str("sparc"), Err(()));
}
