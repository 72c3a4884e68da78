//! What a dispatcher does when it runs: the protocol of resolving once,
//! caching the choice and dispatching on it, as functions on the items.
//!
//! The build configuration and the machine enter as plain values: the
//! features that the build guarantees, and the features that the detection
//! oracle reports as present.

use crate::item::{Arm, CellValue, Dispatcher, Resolve, Route, Section, StaticArm, Target};
use crate::text::{contains_text, texts};
use vstd::prelude::*;

verus! {

/// The least index from `from` up to `n` at which `p` holds.
pub open spec fn first_from(p: spec_fn(int) -> bool, from: int, n: int) -> Option<int>
    decreases n - from,
{
    if from >= n {
        None
    } else if p(from) {
        Some(from)
    } else {
        first_from(p, from + 1, n)
    }
}

/// `first_from` gives an index at which `p` holds and before which it does
/// not; it gives none only where `p` holds nowhere.
pub proof fn lemma_first_from(p: spec_fn(int) -> bool, from: int, n: int)
    ensures
        match first_from(p, from, n) {
            Some(i) => from <= i < n && p(i) && forall|j: int| from <= j < i ==> !#[trigger] p(j),
            None => forall|j: int| from <= j < n ==> !#[trigger] p(j),
        },
    decreases n - from,
{
    if from < n && !p(from) {
        lemma_first_from(p, from + 1, n);
    }
}

/// Predicates that agree from `from` up to `n` have the same first index.
pub proof fn lemma_first_from_same(
    p: spec_fn(int) -> bool,
    q: spec_fn(int) -> bool,
    from: int,
    n: int,
)
    requires
        forall|i: int| from <= i < n ==> #[trigger] p(i) == q(i),
    ensures
        first_from(p, from, n) == first_from(q, from, n),
    decreases n - from,
{
    if from < n && !p(from) {
        lemma_first_from_same(p, q, from + 1, n);
    }
}

/// Whether every feature of the list is among those of the pool.
pub open spec fn all_among(features: Seq<Seq<char>>, pool: Seq<Seq<char>>) -> bool {
    forall|j: int| 0 <= j < features.len() ==> pool.contains(#[trigger] features[j])
}

/// What the detection oracle answers for each feature, in order.
pub open spec fn probes(features: Seq<Seq<char>>, present: Seq<Seq<char>>) -> Seq<bool> {
    Seq::new(features.len(), |j: int| present.contains(features[j]))
}

/// Whether an arm's pattern matches the probes: every place that the pattern
/// asks for was probed and found present.
pub open spec fn arm_fits(pattern: Seq<bool>, probed: Seq<bool>) -> bool {
    forall|j: int| 0 <= j < pattern.len() && #[trigger] pattern[j] ==> j < probed.len() && probed[j]
}

/// The target of the first arm that matches the probes; the generic fallback
/// where none does.
pub open spec fn selected(arms: Seq<Arm>, probed: Seq<bool>) -> Target {
    match first_from(|i: int| arm_fits(arms[i].pattern@, probed), 0, arms.len() as int) {
        Some(i) => arms[i].target,
        None => Target::Generic,
    }
}

/// The first static test whose features the build guarantees.
pub open spec fn first_static(statics: Seq<StaticArm>, enabled: Seq<Seq<char>>) -> Option<int> {
    first_from(
        |k: int| all_among(texts(statics[k].features@), enabled),
        0,
        statics.len() as int,
    )
}

/// How one call of a dispatch function ends.
#[derive(Clone, Copy, Debug, PartialEq, Eq, Hash, Structural)]
pub struct Outcome {
    /// The implementation that ran.
    pub target: Target,
    /// What the cache cell holds after the call.
    pub cell: CellValue,
    /// Whether the detection oracle was asked.
    pub probed: bool,
}

/// Whether every feature of the list is among those of the pool.
pub fn covers(pool: &Vec<String>, features: &Vec<String>) -> (r: bool)
    ensures
        r == all_among(texts(features@), texts(pool@)),
{
    let mut j: usize = 0;
    while j < features.len()
        invariant
            j <= features@.len(),
            forall|k: int| 0 <= k < j ==> texts(pool@).contains(#[trigger] texts(features@)[k]),
        decreases features@.len() - j,
    {
        if !contains_text(pool, features[j].as_str()) {
            assert(!texts(pool@).contains(texts(features@)[j as int]));
            return false;
        }
        j += 1;
    }
    true
}

/// Whether an arm's pattern matches the probes.
pub fn fits(pattern: &Vec<bool>, probed: &Vec<bool>) -> (r: bool)
    ensures
        r == arm_fits(pattern@, probed@),
{
    let mut j: usize = 0;
    while j < pattern.len()
        invariant
            j <= pattern@.len(),
            forall|k: int|
                0 <= k < j && #[trigger] pattern@[k] ==> k < probed@.len() && probed@[k],
        decreases pattern@.len() - j,
    {
        if pattern[j] && !(j < probed.len() && probed[j]) {
            return false;
        }
        j += 1;
    }
    true
}

impl Resolve {
    /// What the resolver chooses on a machine that has the features
    /// `present`.
    pub open spec fn resolved(self, present: Seq<Seq<char>>) -> Target {
        selected(self.arms@, probes(texts(self.features@), present))
    }

    /// Asks the oracle for each feature of the section.
    pub fn probe(&self, present: &Vec<String>) -> (r: Vec<bool>)
        ensures
            r@ == probes(texts(self.features@), texts(present@)),
    {
        let mut out: Vec<bool> = Vec::new();
        let mut j: usize = 0;
        while j < self.features.len()
            invariant
                j <= self.features@.len(),
                out@ == probes(texts(self.features@), texts(present@)).take(j as int),
            decreases self.features@.len() - j,
        {
            out.push(contains_text(present, self.features[j].as_str()));
            assert(out@ =~= probes(texts(self.features@), texts(present@)).take(j + 1));
            j += 1;
        }
        assert(out@ =~= probes(texts(self.features@), texts(present@)));
        out
    }

    /// Matches the probes against the arms in order.
    pub fn select(&self, probed: &Vec<bool>) -> (r: Target)
        ensures
            r == selected(self.arms@, probed@),
    {
        let ghost p = |i: int| arm_fits(self.arms@[i].pattern@, probed@);
        let mut i: usize = 0;
        while i < self.arms.len()
            invariant
                i <= self.arms@.len(),
                p == |i: int| arm_fits(self.arms@[i].pattern@, probed@),
                first_from(p, 0, self.arms@.len() as int) == first_from(
                    p,
                    i as int,
                    self.arms@.len() as int,
                ),
            decreases self.arms@.len() - i,
        {
            if fits(&self.arms[i].pattern, probed) {
                assert(p(i as int));
                return self.arms[i].target;
            }
            assert(!p(i as int));
            i += 1;
        }
        Target::Generic
    }

    /// Resolves on a machine that has the features `present`.
    pub fn resolve(&self, present: &Vec<String>) -> (r: Target)
        ensures
            r == self.resolved(texts(present@)),
    {
        let probed = self.probe(present);
        self.select(&probed)
    }
}

impl Section {
    /// How a call of the dispatch function ends, in a build that guarantees
    /// the features `enabled`, with `cell` in the cache cell, on a machine
    /// that has the features `present`.
    ///
    /// Where the build guarantees every feature of the section, the generic
    /// fallback runs; else where it guarantees the features of a static
    /// test, the first such test decides. Neither touches the cell or the
    /// oracle. Else the cell decides, and where it is unresolved the
    /// resolver runs and stores its choice.
    pub open spec fn dispatched(
        self,
        enabled: Seq<Seq<char>>,
        cell: CellValue,
        present: Seq<Seq<char>>,
    ) -> Outcome {
        let body = self.dispatch.body;
        if all_among(texts(body.base.features@), enabled) {
            Outcome { target: body.base.target, cell, probed: false }
        } else {
            match first_static(body.statics@, enabled) {
                Some(k) => Outcome { target: body.statics@[k].target, cell, probed: false },
                None => match cell {
                    CellValue::Resolved(target) => Outcome { target, cell, probed: false },
                    CellValue::Unresolved => {
                        let target = self.resolver.body.resolved(present);
                        Outcome { target, cell: CellValue::Resolved(target), probed: true }
                    },
                },
            }
        }
    }

    /// Runs one call of the dispatch function.
    pub fn dispatch(&self, enabled: &Vec<String>, cell: CellValue, present: &Vec<String>) -> (r:
        Outcome)
        ensures
            r == self.dispatched(texts(enabled@), cell, texts(present@)),
    {
        let body = &self.dispatch.body;
        if covers(enabled, &body.base.features) {
            return Outcome { target: body.base.target, cell, probed: false };
        }
        let ghost statics = self.dispatch.body.statics@;
        let ghost pool = texts(enabled@);
        let ghost p = |k: int| all_among(texts(statics[k].features@), pool);
        let mut k: usize = 0;
        while k < body.statics.len()
            invariant
                k <= statics.len(),
                body == &self.dispatch.body,
                statics == self.dispatch.body.statics@,
                pool == texts(enabled@),
                !all_among(texts(self.dispatch.body.base.features@), pool),
                p == |k: int| all_among(texts(statics[k].features@), pool),
                first_static(statics, pool) == first_from(p, k as int, statics.len() as int),
            decreases statics.len() - k,
        {
            if covers(enabled, &body.statics[k].features) {
                assert(p(k as int));
                return Outcome { target: body.statics[k].target, cell, probed: false };
            }
            assert(!p(k as int));
            k += 1;
        }
        match cell {
            CellValue::Resolved(target) => Outcome { target, cell, probed: false },
            CellValue::Unresolved => {
                let target = self.resolver.body.resolve(present);
                Outcome { target, cell: CellValue::Resolved(target), probed: true }
            },
        }
    }
}

impl Dispatcher {
    /// The section that a build for `target` reaches: the first whose
    /// architecture the target belongs to. A build that reaches none runs
    /// the generic fallback.
    pub open spec fn routed(self, target: Seq<char>) -> Option<int> {
        first_from(
            |g: int| self.sections@[g].arch.subsumes(target),
            0,
            self.sections@.len() as int,
        )
    }

    /// How a call of the outer function ends in a build for `target`. `cell`
    /// is what the cache cell of the build's section holds. At compile time
    /// (`const_eval`), a function that is routed through the bridge runs the
    /// generic fallback without a look at the cell or the machine.
    pub open spec fn called(
        self,
        target: Seq<char>,
        const_eval: bool,
        enabled: Seq<Seq<char>>,
        cell: CellValue,
        present: Seq<Seq<char>>,
    ) -> Outcome {
        match self.routed(target) {
            None => Outcome { target: Target::Generic, cell, probed: false },
            Some(g) => if const_eval && self.sections@[g].route is ConstBridge {
                Outcome { target: Target::Generic, cell, probed: false }
            } else {
                self.sections@[g].dispatched(enabled, cell, present)
            },
        }
    }

    /// Runs one call of the outer function.
    pub fn call(
        &self,
        target: &str,
        const_eval: bool,
        enabled: &Vec<String>,
        cell: CellValue,
        present: &Vec<String>,
    ) -> (r: Outcome)
        ensures
            r == self.called(target@, const_eval, texts(enabled@), cell, texts(present@)),
    {
        match self.route(target) {
            None => Outcome { target: Target::Generic, cell, probed: false },
            Some(g) => {
                let section = &self.sections[g];
                let bridged = match &section.route {
                    Route::ConstBridge { .. } => true,
                    Route::Direct(_) => false,
                };
                if const_eval && bridged {
                    Outcome { target: Target::Generic, cell, probed: false }
                } else {
                    section.dispatch(enabled, cell, present)
                }
            },
        }
    }

    /// Finds the section of a build whose `target_arch` is `target`.
    pub fn route(&self, target: &str) -> (r: Option<usize>)
        ensures
            match r {
                Some(g) => g < self.sections@.len() && self.routed(target@) == Some(g as int),
                None => self.routed(target@) is None,
            },
    {
        let ghost p = |g: int| self.sections@[g].arch.subsumes(target@);
        let mut g: usize = 0;
        while g < self.sections.len()
            invariant
                g <= self.sections@.len(),
                p == |g: int| self.sections@[g].arch.subsumes(target@),
                first_from(p, 0, self.sections@.len() as int) == first_from(
                    p,
                    g as int,
                    self.sections@.len() as int,
                ),
            decreases self.sections@.len() - g,
        {
            if self.sections[g].arch.belongs(target) {
                assert(p(g as int));
                return Some(g);
            }
            assert(!p(g as int));
            g += 1;
        }
        None
    }
}

} // verus!
