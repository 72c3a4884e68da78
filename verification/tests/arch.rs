use maybe_special::arch::{Architecture, UnimplementedArch};

const ALL: [Architecture; 10] = [
    Architecture::AARCH64,
    Architecture::LOONGARCH,
    Architecture::RISCV,
    Architecture::X86,
    Architecture::ARM,
    Architecture::MIPS64,
    Architecture::MIPS32,
    Architecture::POWERPC64,
    Architecture::POWERPC32,
    Architecture::S390X,
];

#[test]
fn canonical_names() {
    let names: Vec<&str> = ALL.iter().map(|a| a.as_str()).collect();
    assert_eq!(
        names,
        vec![
            "aarch64",
            "loongarch",
            "riscv",
            "x86",
            "arm",
            "mips64",
            "mips",
            "powerpc64",
            "powerpc",
            "s390x"
        ]
    );
}

#[test]
fn every_canonical_name_is_found_again() {
    for arch in ALL {
        assert_eq!(Architecture::from_str(arch.as_str()), Ok(arch));
    }
}

#[test]
fn lookup_knows_the_other_names() {
    assert_eq!(Architecture::from_str("x86_64"), Ok(Architecture::X86));
    assert_eq!(Architecture::from_str("mips32"), Ok(Architecture::MIPS32));
    assert_eq!(Architecture::from_str("powerpc32"), Ok(Architecture::POWERPC32));
}

#[test]
fn lookup_ignores_case() {
    assert_eq!(Architecture::from_str("X86"), Ok(Architecture::X86));
    assert_eq!(Architecture::from_str("AArch64"), Ok(Architecture::AARCH64));
    assert_eq!(Architecture::from_str("RiscV"), Ok(Architecture::RISCV));
    assert_eq!(Architecture::from_str("S390X"), Ok(Architecture::S390X));
}

#[test]
fn lookup_rejects_what_is_no_architecture() {
    assert_eq!(Architecture::from_str(""), Err(UnimplementedArch));
    assert_eq!(Architecture::from_str("static"), Err(UnimplementedArch));
    assert_eq!(Architecture::from_str("x86 "), Err(UnimplementedArch));
    assert_eq!(Architecture::from_str("x87"), Err(UnimplementedArch));
    assert_eq!(Architecture::from_str("riscv64"), Err(UnimplementedArch));
    // The Kelvin sign lowers to `k` under Unicode rules, but is no ASCII letter.
    assert_eq!(Architecture::from_str("\u{212A}"), Err(UnimplementedArch));
}

#[test]
fn build_target_predicates() {
    assert_eq!(Architecture::X86.cfg_inner(), vec!["x86", "x86_64"]);
    assert_eq!(Architecture::RISCV.cfg_inner(), vec!["riscv32", "riscv64"]);
    assert_eq!(Architecture::ARM.cfg_inner(), vec!["arm", "arm64ec"]);
    assert_eq!(Architecture::MIPS32.cfg_inner(), vec!["mips", "mips32r6"]);
    assert_eq!(Architecture::MIPS64.cfg_inner(), vec!["mips64", "mips64r6"]);
    assert_eq!(Architecture::AARCH64.cfg_inner(), vec!["aarch64"]);
    assert_eq!(Architecture::LOONGARCH.cfg_inner(), vec!["loongarch"]);
    assert_eq!(Architecture::POWERPC64.cfg_inner(), vec!["powerpc64"]);
    assert_eq!(Architecture::POWERPC32.cfg_inner(), vec!["powerpc"]);
    assert_eq!(Architecture::S390X.cfg_inner(), vec!["s390x"]);
}

#[test]
fn x86_subsumes_both_widths() {
    assert!(Architecture::X86.belongs("x86"));
    assert!(Architecture::X86.belongs("x86_64"));
    assert!(!Architecture::X86.belongs("aarch64"));
    assert!(!Architecture::X86.belongs("X86"));
}

#[test]
fn no_target_belongs_to_two_architectures() {
    for a in ALL {
        for target in a.cfg_inner() {
            let owners: Vec<Architecture> =
                ALL.iter().copied().filter(|b| b.belongs(target)).collect();
            assert_eq!(owners, vec![a]);
        }
    }
}

#[test]
fn generated_names() {
    assert_eq!(Architecture::X86.dispatch_ident(), "_dispatch_x86");
    assert_eq!(Architecture::X86.jump_ref_ident(), "JUMP_REF_x86");
    assert_eq!(Architecture::X86.init_ident(), "_init_x86");
    assert_eq!(Architecture::X86.detect_macro(), "is_x86_feature_detected");
    assert_eq!(Architecture::MIPS32.dispatch_ident(), "_dispatch_mips");
    assert_eq!(Architecture::AARCH64.detect_macro(), "is_aarch64_feature_detected");
    assert_eq!(Architecture::POWERPC64.jump_ref_ident(), "JUMP_REF_powerpc64");
    assert_eq!(Architecture::S390X.init_ident(), "_init_s390x");
}
