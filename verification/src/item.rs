//! The items that a dispatcher is made of, as data.
//!
//! Every function of a dispatcher shares with the reference function its
//! `extern` qualifier and ABI, its generic parameters and its `where` clause;
//! what differs from one to the other is held here.

use crate::arch::Architecture;
use crate::specialisation::Specialisation;
use vstd::prelude::*;

verus! {

/// How the choice of a variant is cached.
#[derive(Clone, Copy, Debug, PartialEq, Eq, Hash, Structural)]
pub enum Strategy {
    /// The cell holds the address of the function to call.
    Pointer,
    /// The cell holds an index into a fixed list of call sites.
    Index,
}

/// The memory order of an atomic access to a cache cell.
#[derive(Clone, Copy, Debug, PartialEq, Eq, Hash, Structural)]
pub enum MemoryOrder {
    Relaxed,
    Release,
    Acquire,
    AcqRel,
    SeqCst,
}

/// The implementation that a dispatch ends at.
#[derive(Clone, Copy, Debug, PartialEq, Eq, Hash, Structural)]
pub enum Target {
    /// The generic fallback.
    Generic,
    /// The specialisation at this place among those of the architecture.
    Variant(usize),
}

/// What a cache cell holds.
#[derive(Clone, Copy, Debug, PartialEq, Eq, Hash, Structural)]
pub enum CellValue {
    /// Nothing was chosen yet.
    Unresolved,
    /// The choice that a resolver stored.
    Resolved(Target),
}

impl Target {
    /// Whether the target exists in a section of `variants` specialisations.
    pub open spec fn within(self, variants: int) -> bool {
        self matches Target::Variant(i) ==> i < variants
    }
}

impl CellValue {
    /// The integer that stands for the value under the index strategy: 0
    /// while nothing is chosen, 1 for the generic fallback, 2 and up for the
    /// specialisations in order.
    pub open spec fn index(self) -> int {
        match self {
            CellValue::Unresolved => 0,
            CellValue::Resolved(Target::Generic) => 1,
            CellValue::Resolved(Target::Variant(i)) => i + 2,
        }
    }

    /// The value that an integer stands for in a section of `variants`
    /// specialisations; no other integer is ever stored.
    pub open spec fn of_index(code: int, variants: int) -> Option<CellValue> {
        if code == 0 {
            Some(CellValue::Unresolved)
        } else if code == 1 {
            Some(CellValue::Resolved(Target::Generic))
        } else if 2 <= code < variants + 2 {
            Some(CellValue::Resolved(Target::Variant((code - 2) as usize)))
        } else {
            None
        }
    }

    /// Whether the value can stand in the cell of a section of `variants`
    /// specialisations.
    pub open spec fn within(self, variants: int) -> bool {
        self matches CellValue::Resolved(target) ==> target.within(variants)
    }

    pub fn to_index(&self) -> (r: usize)
        requires
            self.index() <= usize::MAX,
        ensures
            r == self.index(),
    {
        match self {
            CellValue::Unresolved => 0,
            CellValue::Resolved(Target::Generic) => 1,
            CellValue::Resolved(Target::Variant(i)) => *i + 2,
        }
    }

    pub fn from_index(code: usize, variants: usize) -> (r: Option<CellValue>)
        ensures
            r == Self::of_index(code as int, variants as int),
    {
        if code == 0 {
            Some(CellValue::Unresolved)
        } else if code == 1 {
            Some(CellValue::Resolved(Target::Generic))
        } else if code - 2 < variants {
            Some(CellValue::Resolved(Target::Variant(code - 2)))
        } else {
            None
        }
    }
}

/// An integer names the value that it was made from: the two strategies
/// cache the same choices.
pub proof fn lemma_index_round_trip(value: CellValue, variants: int)
    requires
        value.within(variants),
    ensures
        CellValue::of_index(value.index(), variants) == Some(value),
{
}

/// Every integer that names a value is the one made from that value.
pub proof fn lemma_index_unique(code: int, variants: int)
    requires
        0 <= variants <= usize::MAX,
        CellValue::of_index(code, variants) is Some,
    ensures
        CellValue::of_index(code, variants).unwrap().index() == code,
        CellValue::of_index(code, variants).unwrap().within(variants),
{
}

/// An attribute of a generated function.
#[derive(Debug, PartialEq, Eq)]
pub enum Attribute {
    /// `inline(always)`
    InlineAlways,
    /// `allow(unreachable_code)`
    AllowUnreachableCode,
    /// `cfg(..)` of the build-target predicate of the architecture.
    Cfg(Architecture),
    /// `target_feature(enable = "..")` with the features separated by commas.
    TargetFeature(String),
}

/// The parameter list of a generated function.
#[derive(Clone, Copy, Debug, PartialEq, Eq, Hash, Structural)]
pub enum Params {
    /// The parameters as the reference function declares them.
    Declared,
    /// The declared parameters without `mut`.
    Outer,
}

/// The return type of a generated function.
#[derive(Clone, Copy, Debug, PartialEq, Eq, Hash, Structural)]
pub struct ReturnType {
    /// Whether the value type is the declared return type; the unit type
    /// where none was declared.
    pub declared: bool,
    /// Whether the type is a future that yields the value type.
    pub future: bool,
}

/// A call of a function of the dispatcher on the parameters.
#[derive(Debug, PartialEq, Eq)]
pub struct Call {
    /// Whether the call stands in an `unsafe` block.
    pub in_unsafe: bool,
    pub callee: String,
    pub args: Vec<String>,
}

/// The type of a pointer to a variant: the parameter types of the reference
/// function in order, and what else is held here.
#[derive(Debug, PartialEq, Eq)]
pub struct FnPointer {
    /// The lifetime parameters that the type is quantified over.
    pub lifetimes: Vec<String>,
    pub is_unsafe: bool,
    pub return_ty: ReturnType,
}

/// One arm of a resolver: where the probe of a feature is `true` at every
/// place at which `pattern` is, `target` is chosen.
#[derive(Debug, PartialEq, Eq)]
pub struct Arm {
    pub pattern: Vec<bool>,
    pub target: Target,
}

/// The body of a resolver: probes `features` through the detection entry
/// point, stores in `cell`, atomically and in the order `store`, the value
/// of the first arm that matches, or the generic fallback where none does,
/// and answers with `dispatch`.
#[derive(Debug, PartialEq, Eq)]
pub struct Resolve {
    pub cell: String,
    /// Whether detection goes through `std::arch`; through `std_detect`
    /// where not.
    pub std: bool,
    pub detect: String,
    pub features: Vec<String>,
    pub arms: Vec<Arm>,
    pub store: MemoryOrder,
    pub dispatch: Call,
}

/// A compile-time test of a dispatch function: where the build guarantees
/// `features`, `target` is chosen and `call` is the answer.
#[derive(Debug, PartialEq, Eq)]
pub struct StaticArm {
    pub features: Vec<String>,
    pub target: Target,
    pub call: Call,
}

/// What a dispatch function does where no compile-time test applies.
#[derive(Debug, PartialEq, Eq)]
pub enum Dynamic {
    /// Calls through the address in the cell.
    Pointer(FnPointer),
    /// Switches on the integer in the cell: 0 is `resolver`, 1 is `generic`,
    /// 2 and up are `variants` in order, and no other value is ever met.
    Index { resolver: Call, generic: Call, variants: Vec<Call> },
}

/// The body of a dispatch function: the test for the features of the whole
/// section, then the static tests in order, then the dynamic path, which
/// reads `cell` atomically and in the order `load`.
#[derive(Debug, PartialEq, Eq)]
pub struct Dispatch {
    pub cell: String,
    pub load: MemoryOrder,
    pub base: StaticArm,
    pub statics: Vec<StaticArm>,
    pub dynamic: Dynamic,
}

/// The body of the reference function.
#[derive(Clone, Copy, Debug, PartialEq, Eq, Hash, Structural)]
pub struct Reference;

/// A generated function with a body of kind `B`.
#[derive(Debug, PartialEq, Eq)]
pub struct FnDef<B> {
    pub attributes: Vec<Attribute>,
    pub is_const: bool,
    pub is_async: bool,
    pub is_unsafe: bool,
    pub name: String,
    pub params: Params,
    pub return_ty: ReturnType,
    pub body: B,
}

/// The cache cell of a section. It starts out unresolved: under the index
/// strategy with 0, under the pointer strategy with the address of
/// `resolver`.
#[derive(Debug, PartialEq, Eq)]
pub struct Cell {
    pub name: String,
    pub strategy: Strategy,
    pub resolver: String,
}

/// How the outer function reaches a section.
#[derive(Debug, PartialEq, Eq)]
pub enum Route {
    /// Returns the call of the dispatch function.
    Direct(Call),
    /// Selects between `safe_generic`, where evaluation happens at compile
    /// time, and the dispatch function.
    ConstBridge { safe_generic: FnDef<Call>, dispatch: String },
}

/// The section of one architecture: present only in builds for a target of
/// `arch`.
#[derive(Debug, PartialEq, Eq)]
pub struct Section {
    pub arch: Architecture,
    /// The specialisations of the architecture in the order declared.
    pub specs: Vec<Specialisation>,
    /// The features that the specialisations name, in the order of first
    /// mention.
    pub features: Vec<String>,
    pub cell: Cell,
    pub resolver: FnDef<Resolve>,
    pub dispatch: FnDef<Dispatch>,
    pub route: Route,
}

/// A dispatcher. The outer function holds the other items and, before the
/// call that is its body, the routes of the sections.
#[derive(Debug, PartialEq, Eq)]
pub struct Dispatcher {
    /// The function that callers see; its body is the call of the generic
    /// fallback, which answers where the build belongs to no section.
    pub outer: FnDef<Call>,
    pub generic: FnDef<Reference>,
    /// One variant for each specialisation that is not manual; its body is
    /// the call of the generic fallback.
    pub variants: Vec<FnDef<Call>>,
    pub sections: Vec<Section>,
}

} // verus!
