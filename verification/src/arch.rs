//! The registry of supported CPU architectures.

use crate::text::{is_ident_char, is_identifier, lowercase, lowercase_of, same_text};
use vstd::prelude::*;

verus! {

/// The answer of the registry to a name that stands for no supported
/// architecture.
#[derive(Debug, Clone, Copy, PartialEq, Eq, Hash, Structural)]
pub struct UnimplementedArch;

/// A CPU architecture for which specialisations can be declared.
#[derive(Clone, Copy, PartialEq, Eq, Debug, Hash, Structural)]
pub enum Architecture {
    AARCH64,
    LOONGARCH,
    RISCV,
    X86,
    ARM,
    MIPS64,
    MIPS32,
    POWERPC64,
    POWERPC32,
    S390X,
}

impl Architecture {
    /// The canonical name of the architecture.
    pub open spec fn name(self) -> Seq<char> {
        match self {
            Architecture::AARCH64 => "aarch64"@,
            Architecture::LOONGARCH => "loongarch"@,
            Architecture::RISCV => "riscv"@,
            Architecture::X86 => "x86"@,
            Architecture::ARM => "arm"@,
            Architecture::MIPS64 => "mips64"@,
            Architecture::MIPS32 => "mips"@,
            Architecture::POWERPC64 => "powerpc64"@,
            Architecture::POWERPC32 => "powerpc"@,
            Architecture::S390X => "s390x"@,
        }
    }

    /// The architecture that a name in lower case stands for. A few
    /// architectures answer to more than one name.
    pub open spec fn by_name(lower: Seq<char>) -> Option<Architecture> {
        if lower == "aarch64"@ {
            Some(Architecture::AARCH64)
        } else if lower == "loongarch"@ {
            Some(Architecture::LOONGARCH)
        } else if lower == "riscv"@ {
            Some(Architecture::RISCV)
        } else if lower == "x86"@ || lower == "x86_64"@ {
            Some(Architecture::X86)
        } else if lower == "arm"@ {
            Some(Architecture::ARM)
        } else if lower == "mips64"@ {
            Some(Architecture::MIPS64)
        } else if lower == "mips32"@ || lower == "mips"@ {
            Some(Architecture::MIPS32)
        } else if lower == "powerpc64"@ {
            Some(Architecture::POWERPC64)
        } else if lower == "powerpc32"@ || lower == "powerpc"@ {
            Some(Architecture::POWERPC32)
        } else if lower == "s390x"@ {
            Some(Architecture::S390X)
        } else {
            None
        }
    }

    /// The architecture that a name stands for, whatever the case of its
    /// ASCII letters.
    pub open spec fn lookup(name: Seq<char>) -> Option<Architecture> {
        Self::by_name(lowercase(name))
    }

    /// The build targets that belong to the architecture, as values of
    /// `target_arch`.
    pub open spec fn targets(self) -> Seq<Seq<char>> {
        match self {
            Architecture::X86 => seq!["x86"@, "x86_64"@],
            Architecture::RISCV => seq!["riscv32"@, "riscv64"@],
            Architecture::ARM => seq!["arm"@, "arm64ec"@],
            Architecture::MIPS32 => seq!["mips"@, "mips32r6"@],
            Architecture::MIPS64 => seq!["mips64"@, "mips64r6"@],
            other => seq![other.name()],
        }
    }

    /// The name of the dispatch function of the architecture's section.
    pub open spec fn dispatch_name(self) -> Seq<char> {
        "_dispatch_"@ + self.name()
    }

    /// The name of the cache cell of the architecture's section.
    pub open spec fn cell_name(self) -> Seq<char> {
        "JUMP_REF_"@ + self.name()
    }

    /// The name of the resolver of the architecture's section.
    pub open spec fn resolver_name(self) -> Seq<char> {
        "_init_"@ + self.name()
    }

    /// The name of the feature-detection entry point of the architecture.
    pub open spec fn detect_name(self) -> Seq<char> {
        "is_"@ + self.name() + "_feature_detected"@
    }

    /// Whether a build for `target` belongs to the architecture.
    pub open spec fn subsumes(self, target: Seq<char>) -> bool {
        self.targets().contains(target)
    }

    /// The names that the architecture answers to, the canonical one first.
    pub open spec fn names(self) -> Seq<Seq<char>> {
        match self {
            Architecture::X86 => seq!["x86"@, "x86_64"@],
            Architecture::MIPS32 => seq!["mips"@, "mips32"@],
            Architecture::POWERPC32 => seq!["powerpc"@, "powerpc32"@],
            other => seq![other.name()],
        }
    }

    /// The canonical name of the architecture.
    pub fn as_str(&self) -> (r: &'static str)
        ensures
            r@ == self.name(),
    {
        match self {
            Architecture::AARCH64 => "aarch64",
            Architecture::LOONGARCH => "loongarch",
            Architecture::RISCV => "riscv",
            Architecture::X86 => "x86",
            Architecture::ARM => "arm",
            Architecture::MIPS64 => "mips64",
            Architecture::MIPS32 => "mips",
            Architecture::POWERPC64 => "powerpc64",
            Architecture::POWERPC32 => "powerpc",
            Architecture::S390X => "s390x",
        }
    }

    /// Looks an architecture up by name.
    pub fn from_str(s: &str) -> (r: Result<Architecture, UnimplementedArch>)
        ensures
            r == match Self::lookup(s@) {
                Some(arch) => Ok::<Architecture, UnimplementedArch>(arch),
                None => Err(UnimplementedArch),
            },
    {
        let lower = lowercase_of(s);
        let name = lower.as_str();
        if same_text(name, "aarch64") {
            Ok(Architecture::AARCH64)
        } else if same_text(name, "loongarch") {
            Ok(Architecture::LOONGARCH)
        } else if same_text(name, "riscv") {
            Ok(Architecture::RISCV)
        } else if same_text(name, "x86") || same_text(name, "x86_64") {
            Ok(Architecture::X86)
        } else if same_text(name, "arm") {
            Ok(Architecture::ARM)
        } else if same_text(name, "mips64") {
            Ok(Architecture::MIPS64)
        } else if same_text(name, "mips32") || same_text(name, "mips") {
            Ok(Architecture::MIPS32)
        } else if same_text(name, "powerpc64") {
            Ok(Architecture::POWERPC64)
        } else if same_text(name, "powerpc32") || same_text(name, "powerpc") {
            Ok(Architecture::POWERPC32)
        } else if same_text(name, "s390x") {
            Ok(Architecture::S390X)
        } else {
            Err(UnimplementedArch)
        }
    }

    /// The build-target predicate of the architecture: the values of
    /// `target_arch` of which any one selects its section.
    pub fn cfg_inner(&self) -> (r: Vec<&'static str>)
        ensures
            r@.len() == self.targets().len(),
            forall|i: int| 0 <= i < r@.len() ==> (#[trigger] r@[i])@ == self.targets()[i],
    {
        let mut out: Vec<&'static str> = Vec::new();
        match self {
            Architecture::X86 => {
                out.push("x86");
                out.push("x86_64");
            },
            Architecture::RISCV => {
                out.push("riscv32");
                out.push("riscv64");
            },
            Architecture::ARM => {
                out.push("arm");
                out.push("arm64ec");
            },
            Architecture::MIPS32 => {
                out.push("mips");
                out.push("mips32r6");
            },
            Architecture::MIPS64 => {
                out.push("mips64");
                out.push("mips64r6");
            },
            other => {
                out.push(other.as_str());
            },
        }
        out
    }

    /// Whether a build whose `target_arch` is `target` belongs to the
    /// architecture.
    pub fn belongs(&self, target: &str) -> (r: bool)
        ensures
            r == self.subsumes(target@),
    {
        let targets = self.cfg_inner();
        let mut i: usize = 0;
        while i < targets.len()
            invariant
                i <= targets@.len(),
                targets@.len() == self.targets().len(),
                forall|j: int| 0 <= j < targets@.len() ==> (#[trigger] targets@[j])@ == self.targets()[j],
                forall|j: int| 0 <= j < i ==> self.targets()[j] != target@,
            decreases targets@.len() - i,
        {
            if same_text(targets[i], target) {
                assert(self.targets()[i as int] == target@);
                return true;
            }
            i += 1;
        }
        false
    }

    /// The name of the dispatch function of the architecture's section.
    pub fn dispatch_ident(&self) -> (r: String)
        ensures
            r@ == self.dispatch_name(),
    {
        let mut out = String::from_str("_dispatch_");
        out.append(self.as_str());
        out
    }

    /// The name of the cache cell of the architecture's section.
    pub fn jump_ref_ident(&self) -> (r: String)
        ensures
            r@ == self.cell_name(),
    {
        let mut out = String::from_str("JUMP_REF_");
        out.append(self.as_str());
        out
    }

    /// The name of the resolver of the architecture's section.
    pub fn init_ident(&self) -> (r: String)
        ensures
            r@ == self.resolver_name(),
    {
        let mut out = String::from_str("_init_");
        out.append(self.as_str());
        out
    }

    /// The name of the feature-detection entry point of the architecture.
    pub fn detect_macro(&self) -> (r: String)
        ensures
            r@ == self.detect_name(),
    {
        let mut out = String::from_str("is_");
        out.append(self.as_str());
        out.append("_feature_detected");
        out
    }
}

/// No build target belongs to two architectures: of the sections of a
/// dispatcher, at most one is present in a compiled artifact.
pub proof fn lemma_targets_disjoint(a: Architecture, b: Architecture, target: Seq<char>)
    requires
        a.subsumes(target),
        b.subsumes(target),
    ensures
        a == b,
{
    reveal_strlit("aarch64");
    reveal_strlit("loongarch");
    reveal_strlit("riscv");
    reveal_strlit("x86");
    reveal_strlit("arm");
    reveal_strlit("mips64");
    reveal_strlit("mips");
    reveal_strlit("powerpc64");
    reveal_strlit("powerpc");
    reveal_strlit("s390x");
    reveal_strlit("x86_64");
    reveal_strlit("riscv32");
    reveal_strlit("riscv64");
    reveal_strlit("arm64ec");
    reveal_strlit("mips32r6");
    reveal_strlit("mips64r6");
    // Length and the characters at 0, 1 and 4 tell the targets of different
    // architectures apart.
    assert("aarch64"@.len() == 7 && "aarch64"@[0] == 'a' && "aarch64"@[1] == 'a');
    assert("loongarch"@.len() == 9 && "loongarch"@[0] == 'l');
    assert("riscv32"@.len() == 7 && "riscv32"@[0] == 'r');
    assert("riscv64"@.len() == 7 && "riscv64"@[0] == 'r');
    assert("x86"@.len() == 3 && "x86"@[0] == 'x');
    assert("x86_64"@.len() == 6 && "x86_64"@[0] == 'x');
    assert("arm"@.len() == 3 && "arm"@[0] == 'a');
    assert("arm64ec"@.len() == 7 && "arm64ec"@[0] == 'a' && "arm64ec"@[1] == 'r');
    assert("mips64"@.len() == 6 && "mips64"@[0] == 'm');
    assert("mips64r6"@.len() == 8 && "mips64r6"@[4] == '6');
    assert("mips"@.len() == 4);
    assert("mips32r6"@.len() == 8 && "mips32r6"@[4] == '3');
    assert("powerpc64"@.len() == 9 && "powerpc64"@[0] == 'p');
    assert("powerpc"@.len() == 7 && "powerpc"@[0] == 'p');
    assert("s390x"@.len() == 5);
    let i = choose|i: int| 0 <= i < a.targets().len() && a.targets()[i] == target;
    let j = choose|j: int| 0 <= j < b.targets().len() && b.targets()[j] == target;
    assert(a.targets()[i] == b.targets()[j]);
}

/// A canonical name is made of lower-case letters and digits.
pub proof fn lemma_name_is_plain(arch: Architecture)
    ensures
        arch.name().len() > 0,
        forall|i: int|
            0 <= i < arch.name().len() ==> is_ident_char(#[trigger] arch.name()[i]) && !('A'
                <= arch.name()[i] && arch.name()[i] <= 'Z'),
{
    reveal_strlit("aarch64");
    reveal_strlit("loongarch");
    reveal_strlit("riscv");
    reveal_strlit("x86");
    reveal_strlit("arm");
    reveal_strlit("mips64");
    reveal_strlit("mips");
    reveal_strlit("powerpc64");
    reveal_strlit("powerpc");
    reveal_strlit("s390x");
}

/// A name stands for an architecture exactly where its lower-case form is
/// one of the names that the architecture answers to.
pub proof fn lemma_lookup_names(arch: Architecture, name: Seq<char>)
    ensures
        Architecture::lookup(name) == Some(arch) <==> arch.names().contains(lowercase(name)),
{
    reveal_strlit("aarch64");
    reveal_strlit("loongarch");
    reveal_strlit("riscv");
    reveal_strlit("x86");
    reveal_strlit("x86_64");
    reveal_strlit("arm");
    reveal_strlit("mips64");
    reveal_strlit("mips32");
    reveal_strlit("mips");
    reveal_strlit("powerpc64");
    reveal_strlit("powerpc32");
    reveal_strlit("powerpc");
    reveal_strlit("s390x");
    assert("aarch64"@.len() == 7 && "aarch64"@[0] == 'a');
    assert("loongarch"@.len() == 9 && "loongarch"@[0] == 'l');
    assert("riscv"@.len() == 5 && "riscv"@[0] == 'r');
    assert("x86"@.len() == 3 && "x86"@[0] == 'x');
    assert("x86_64"@.len() == 6 && "x86_64"@[0] == 'x');
    assert("arm"@.len() == 3 && "arm"@[0] == 'a');
    assert("mips64"@.len() == 6 && "mips64"@[0] == 'm' && "mips64"@[4] == '6');
    assert("mips32"@.len() == 6 && "mips32"@[0] == 'm' && "mips32"@[4] == '3');
    assert("mips"@.len() == 4);
    assert("powerpc64"@.len() == 9 && "powerpc64"@[0] == 'p' && "powerpc64"@[7] == '6');
    assert("powerpc32"@.len() == 9 && "powerpc32"@[0] == 'p' && "powerpc32"@[7] == '3');
    assert("powerpc"@.len() == 7 && "powerpc"@[0] == 'p');
    assert("s390x"@.len() == 5 && "s390x"@[0] == 's');
    let lower = lowercase(name);
    let names = arch.names();
    if names.contains(lower) {
        let i = choose|i: int| 0 <= i < names.len() && names[i] == lower;
        assert(names[i] == lower);
    }
    if Architecture::lookup(name) == Some(arch) {
        assert(names[0] == lower || (names.len() == 2 && names[1] == lower));
    }
}

/// Every architecture is found again under its canonical name.
pub proof fn lemma_lookup_canonical(arch: Architecture)
    ensures
        Architecture::lookup(arch.name()) == Some(arch),
{
    lemma_name_is_plain(arch);
    assert(lowercase(arch.name()) =~= arch.name());
    reveal_strlit("aarch64");
    reveal_strlit("loongarch");
    reveal_strlit("riscv");
    reveal_strlit("x86");
    reveal_strlit("x86_64");
    reveal_strlit("arm");
    reveal_strlit("mips64");
    reveal_strlit("mips32");
    reveal_strlit("mips");
    reveal_strlit("powerpc64");
    reveal_strlit("powerpc32");
    reveal_strlit("powerpc");
    reveal_strlit("s390x");
    assert("aarch64"@.len() == 7 && "aarch64"@[0] == 'a' && "aarch64"@[6] == '4');
    assert("loongarch"@.len() == 9 && "loongarch"@[0] == 'l');
    assert("riscv"@.len() == 5 && "riscv"@[0] == 'r');
    assert("x86"@.len() == 3 && "x86"@[0] == 'x');
    assert("x86_64"@.len() == 6 && "x86_64"@[0] == 'x');
    assert("arm"@.len() == 3 && "arm"@[0] == 'a');
    assert("mips64"@.len() == 6 && "mips64"@[0] == 'm' && "mips64"@[4] == '6');
    assert("mips32"@.len() == 6 && "mips32"@[0] == 'm' && "mips32"@[4] == '3');
    assert("mips"@.len() == 4);
    assert("powerpc64"@.len() == 9 && "powerpc64"@[0] == 'p' && "powerpc64"@[7] == '6');
    assert("powerpc32"@.len() == 9 && "powerpc32"@[0] == 'p' && "powerpc32"@[7] == '3');
    assert("powerpc"@.len() == 7 && "powerpc"@[0] == 'p' && "powerpc"@[6] == 'c');
    assert("s390x"@.len() == 5 && "s390x"@[0] == 's');
}

/// The names generated for a section can be written as identifiers.
pub proof fn lemma_generated_names(arch: Architecture)
    ensures
        is_identifier(arch.dispatch_name()),
        is_identifier(arch.cell_name()),
        is_identifier(arch.resolver_name()),
        is_identifier(arch.detect_name()),
{
    lemma_name_is_plain(arch);
    reveal_strlit("_dispatch_");
    reveal_strlit("JUMP_REF_");
    reveal_strlit("_init_");
    reveal_strlit("is_");
    reveal_strlit("_feature_detected");
}

} // verus!
