//! What holds of every dispatcher that the synthesis gives.
//!
//! The rules of selection are stated here over the specialisations alone.
//! The sections are proved to follow the rules, and what the rules imply for
//! a running program is proved from them.

use crate::arch::lemma_targets_disjoint;
use crate::builder::{generic_name, Plan};
use crate::features::{all_features, feature_union};
use crate::item::{Call, CellValue, Dispatcher, FnDef, Route, Section, Target};
use crate::runtime::{
    all_among, arm_fits, first_from, first_static, lemma_first_from, lemma_first_from_same, probes,
    Outcome,
};
use crate::specialisation::{
    archs_of, grouped, lemma_archs_of, lemma_distinct, ArchGroupView, SpecialisationView,
};
use crate::synth::{
    is_dispatcher, is_section, is_variant, lemma_static_places, pattern_of, static_places,
};
use crate::text::texts;
use vstd::prelude::*;

verus! {

/// The rule of the resolver: the first specialisation, in the order
/// declared, whose features are all present; the generic fallback where there
/// is none. Order decides, not how much a specialisation asks for.
pub open spec fn chosen(specs: Seq<SpecialisationView>, present: Seq<Seq<char>>) -> Target {
    match first_from(|i: int| all_among(specs[i].features, present), 0, specs.len() as int) {
        Some(i) => Target::Variant(i as usize),
        None => Target::Generic,
    }
}

/// The rule of the compile-time tests: the generic fallback where the build
/// guarantees every feature that the specialisations name; else the first
/// static specialisation whose features the build guarantees; else none.
pub open spec fn static_choice(specs: Seq<SpecialisationView>, enabled: Seq<Seq<char>>) -> Option<
    Target,
> {
    if all_among(feature_union(specs), enabled) {
        Some(Target::Generic)
    } else {
        match first_from(
            |i: int| specs[i].is_static && all_among(specs[i].features, enabled),
            0,
            specs.len() as int,
        ) {
            Some(i) => Some(Target::Variant(i as usize)),
            None => None,
        }
    }
}

/// The rule of a call: a compile-time choice is final and touches neither
/// the cell nor the oracle; without one the cell decides, and an unresolved
/// cell is resolved by the rule of the resolver and holds the choice from
/// then on.
pub open spec fn protocol(
    specs: Seq<SpecialisationView>,
    enabled: Seq<Seq<char>>,
    cell: CellValue,
    present: Seq<Seq<char>>,
) -> Outcome {
    match static_choice(specs, enabled) {
        Some(target) => Outcome { target, cell, probed: false },
        None => match cell {
            CellValue::Resolved(target) => Outcome { target, cell, probed: false },
            CellValue::Unresolved => Outcome {
                target: chosen(specs, present),
                cell: CellValue::Resolved(chosen(specs, present)),
                probed: true,
            },
        },
    }
}

/// How the call number `n` of a section's dispatch function ends, counted
/// from 1, where the cell starts out unresolved and nothing else writes it.
pub open spec fn nth_call(
    section: Section,
    enabled: Seq<Seq<char>>,
    present: Seq<Seq<char>>,
    n: nat,
) -> Outcome
    decreases n,
{
    if n <= 1 {
        section.dispatched(enabled, CellValue::Unresolved, present)
    } else {
        section.dispatched(enabled, nth_call(section, enabled, present, (n - 1) as nat).cell, present)
    }
}

/// Every feature of a specialisation is among those of the section.
pub proof fn lemma_union_covers(specs: Seq<SpecialisationView>, i: int)
    requires
        0 <= i < specs.len(),
    ensures
        all_among(specs[i].features, feature_union(specs)),
    decreases specs.len(),
{
    let all = all_features(specs);
    lemma_distinct(all);
    assert forall|j: int| 0 <= j < specs[i].features.len() implies feature_union(specs).contains(
        #[trigger] specs[i].features[j],
    ) by {
        let x = specs[i].features[j];
        lemma_all_features_has(specs, i, j);
        assert(all.contains(x));
    }
}

/// A feature of a specialisation stands in the list of all features.
proof fn lemma_all_features_has(specs: Seq<SpecialisationView>, i: int, j: int)
    requires
        0 <= i < specs.len(),
        0 <= j < specs[i].features.len(),
    ensures
        all_features(specs).contains(specs[i].features[j]),
    decreases specs.len(),
{
    let init = all_features(specs.drop_last());
    if i == specs.len() - 1 {
        assert(all_features(specs)[init.len() + j] == specs[i].features[j]);
    } else {
        lemma_all_features_has(specs.drop_last(), i, j);
        let k = choose|k: int| 0 <= k < init.len() && init[k] == specs[i].features[j];
        assert(all_features(specs)[k] == specs[i].features[j]);
    }
}

/// An arm matches the probes of a machine exactly where the machine has
/// every feature of the arm's specialisation.
pub proof fn lemma_pattern_fits(
    features: Seq<Seq<char>>,
    probed: Seq<Seq<char>>,
    present: Seq<Seq<char>>,
)
    requires
        all_among(features, probed),
    ensures
        arm_fits(pattern_of(features, probed), probes(probed, present)) == all_among(
            features,
            present,
        ),
{
    let pattern = pattern_of(features, probed);
    let answers = probes(probed, present);
    if arm_fits(pattern, answers) {
        assert forall|j: int| 0 <= j < features.len() implies present.contains(
            #[trigger] features[j],
        ) by {
            let m = choose|m: int| 0 <= m < probed.len() && probed[m] == features[j];
            assert(pattern[m]);
            assert(answers[m]);
        }
    }
    if all_among(features, present) {
        assert forall|m: int| 0 <= m < pattern.len() && #[trigger] pattern[m] implies m
            < answers.len() && answers[m] by {
            let j = choose|j: int| 0 <= j < features.len() && features[j] == probed[m];
            assert(present.contains(features[j]));
        }
    }
}

/// The resolver of a section chooses by the rule of the resolver.
pub proof fn lemma_resolver_follows_rule(
    plan: Plan,
    section: Section,
    group: ArchGroupView,
    std: bool,
    present: Seq<Seq<char>>,
)
    requires
        is_section(plan, section, group, std),
    ensures
        section.resolver.body.resolved(present) == chosen(group.specs, present),
{
    let specs = group.specs;
    let arms = section.resolver.body.arms@;
    let probed = feature_union(specs);
    let answers = probes(texts(section.resolver.body.features@), present);
    let p = |i: int| arm_fits(arms[i].pattern@, answers);
    let q = |i: int| all_among(specs[i].features, present);
    assert forall|i: int| 0 <= i < arms.len() implies #[trigger] p(i) == q(i) by {
        lemma_union_covers(specs, i);
        lemma_pattern_fits(specs[i].features, probed, present);
    }
    lemma_first_from_same(p, q, 0, arms.len() as int);
    lemma_first_from(q, 0, specs.len() as int);
}

/// The static tests of a section choose by the rule of the compile-time
/// tests.
proof fn lemma_statics_follow_rule(
    plan: Plan,
    section: Section,
    group: ArchGroupView,
    std: bool,
    enabled: Seq<Seq<char>>,
)
    requires
        is_section(plan, section, group, std),
    ensures
        match first_static(section.dispatch.body.statics@, enabled) {
            Some(k) => first_from(
                |i: int| group.specs[i].is_static && all_among(group.specs[i].features, enabled),
                0,
                group.specs.len() as int,
            ) == Some(static_places(group.specs)[k]) && section.dispatch.body.statics@[k].target
                == Target::Variant(static_places(group.specs)[k] as usize),
            None => first_from(
                |i: int| group.specs[i].is_static && all_among(group.specs[i].features, enabled),
                0,
                group.specs.len() as int,
            ) is None,
        },
{
    let specs = group.specs;
    let statics = section.dispatch.body.statics@;
    let places = static_places(specs);
    let p = |k: int| all_among(texts(statics[k].features@), enabled);
    let q = |i: int| specs[i].is_static && all_among(specs[i].features, enabled);
    lemma_static_places(specs);
    lemma_first_from(p, 0, statics.len() as int);
    lemma_first_from(q, 0, specs.len() as int);
    assert forall|k: int| 0 <= k < statics.len() implies #[trigger] p(k) == q(places[k]) by {
        assert(texts(statics[k].features@) == specs[places[k]].features);
    }
    match first_from(q, 0, specs.len() as int) {
        Some(i) => {
            assert(places.contains(i));
            let k = choose|k: int| 0 <= k < places.len() && places[k] == i;
            assert(p(k));
            let found = first_from(p, 0, statics.len() as int).unwrap();
            assert(q(places[found]));
            if found < k {
                assert(places[found] < places[k]);
            }
        },
        None => {
            if first_from(p, 0, statics.len() as int) is Some {
                let found = first_from(p, 0, statics.len() as int).unwrap();
                assert(q(places[found]));
            }
        },
    }
}

/// A section runs the protocol: what a call of its dispatch function does
/// is what the rules say of its specialisations.
pub proof fn lemma_section_follows_protocol(
    plan: Plan,
    section: Section,
    group: ArchGroupView,
    std: bool,
    enabled: Seq<Seq<char>>,
    cell: CellValue,
    present: Seq<Seq<char>>,
)
    requires
        is_section(plan, section, group, std),
    ensures
        section.dispatched(enabled, cell, present) == protocol(group.specs, enabled, cell, present),
{
    lemma_statics_follow_rule(plan, section, group, std, enabled);
    lemma_resolver_follows_rule(plan, section, group, std, present);
}

/// The number of specialisations of a section fits the index type.
proof fn lemma_specs_fit(plan: Plan, section: Section, group: ArchGroupView, std: bool)
    requires
        is_section(plan, section, group, std),
    ensures
        group.specs.len() <= usize::MAX,
{
    assert(group.specs.len() == section.specs@.len());
    assert(section.specs@.len() == section.specs.len());
}

/// Where the build guarantees the features of a static specialisation, the
/// choice is made at compile time. The oracle is not asked and the cell is
/// left alone; what runs is the generic fallback where the build guarantees
/// every feature of the section, and else the first static specialisation
/// that the build guarantees, which stands no later than the given one.
pub proof fn lemma_static_short_circuit(
    plan: Plan,
    section: Section,
    group: ArchGroupView,
    std: bool,
    enabled: Seq<Seq<char>>,
    cell: CellValue,
    present: Seq<Seq<char>>,
    i: int,
)
    requires
        is_section(plan, section, group, std),
        0 <= i < group.specs.len(),
        group.specs[i].is_static,
        all_among(group.specs[i].features, enabled),
    ensures
        !section.dispatched(enabled, cell, present).probed,
        section.dispatched(enabled, cell, present).cell == cell,
        Some(section.dispatched(enabled, cell, present).target) == static_choice(
            group.specs,
            enabled,
        ),
        section.dispatched(enabled, cell, present).target matches Target::Variant(k) ==> k <= i
            && group.specs[k as int].is_static && all_among(
            group.specs[k as int].features,
            enabled,
        ),
{
    let specs = group.specs;
    lemma_specs_fit(plan, section, group, std);
    lemma_section_follows_protocol(plan, section, group, std, enabled, cell, present);
    let q = |i: int| specs[i].is_static && all_among(specs[i].features, enabled);
    lemma_first_from(q, 0, specs.len() as int);
    assert(q(i));
}

/// On a machine that satisfies no specialisation, the resolver chooses the
/// generic fallback.
pub proof fn lemma_fallback(
    plan: Plan,
    section: Section,
    group: ArchGroupView,
    std: bool,
    present: Seq<Seq<char>>,
)
    requires
        is_section(plan, section, group, std),
        forall|i: int|
            0 <= i < group.specs.len() ==> !all_among(#[trigger] group.specs[i].features, present),
    ensures
        section.resolver.body.resolved(present) == Target::Generic,
{
    let specs = group.specs;
    lemma_resolver_follows_rule(plan, section, group, std, present);
    let q = |i: int| all_among(specs[i].features, present);
    lemma_first_from(q, 0, specs.len() as int);
    if first_from(q, 0, specs.len() as int) is Some {
        let i = first_from(q, 0, specs.len() as int).unwrap();
        assert(q(i));
        assert(all_among(specs[i].features, present));
    }
}

/// A specialisation that the machine satisfies, and before which it
/// satisfies none, is the one that the resolver chooses, whatever later
/// specialisations the machine satisfies too and however much they ask for.
pub proof fn lemma_first_match(
    plan: Plan,
    section: Section,
    group: ArchGroupView,
    std: bool,
    present: Seq<Seq<char>>,
    i: int,
)
    requires
        is_section(plan, section, group, std),
        0 <= i < group.specs.len(),
        all_among(group.specs[i].features, present),
        forall|k: int| 0 <= k < i ==> !all_among(#[trigger] group.specs[k].features, present),
    ensures
        section.resolver.body.resolved(present) == Target::Variant(i as usize),
{
    let specs = group.specs;
    lemma_specs_fit(plan, section, group, std);
    lemma_resolver_follows_rule(plan, section, group, std, present);
    let q = |i: int| all_among(specs[i].features, present);
    lemma_first_from(q, 0, specs.len() as int);
    assert(q(i));
    let found = first_from(q, 0, specs.len() as int).unwrap();
    assert(q(found));
    if found < i {
        assert(all_among(specs[found].features, present));
    }
}

/// In one build on one machine, every call ends at the target of the first
/// call and leaves the cell as the first call left it, and no call after the
/// first asks the oracle.
pub proof fn lemma_calls_agree(
    section: Section,
    enabled: Seq<Seq<char>>,
    present: Seq<Seq<char>>,
    n: nat,
)
    requires
        n >= 1,
    ensures
        nth_call(section, enabled, present, n).target == nth_call(section, enabled, present, 1).target,
        nth_call(section, enabled, present, n).cell == nth_call(section, enabled, present, 1).cell,
        n >= 2 ==> !nth_call(section, enabled, present, n).probed,
    decreases n,
{
    if n >= 2 {
        lemma_calls_agree(section, enabled, present, (n - 1) as nat);
    }
}

/// Whether the calls of a run could have seen these cell values: each call
/// sees the cell unresolved or as an earlier call of the run left it.
pub open spec fn observable(
    section: Section,
    enabled: Seq<Seq<char>>,
    present: Seq<Seq<char>>,
    seen: Seq<CellValue>,
) -> bool {
    forall|k: int|
        0 <= k < seen.len() ==> (#[trigger] seen[k]) == CellValue::Unresolved || exists|j: int|
            0 <= j < k && seen[k] == section.dispatched(enabled, #[trigger] seen[j], present).cell
}

/// However first calls overlap and resolve again what another has resolved,
/// every call ends at the target of a lone first call and stores what that
/// call stores: the cell ends as after calls in sequence.
pub proof fn lemma_resolution_idempotent(
    section: Section,
    enabled: Seq<Seq<char>>,
    present: Seq<Seq<char>>,
    seen: Seq<CellValue>,
    k: int,
)
    requires
        observable(section, enabled, present, seen),
        0 <= k < seen.len(),
    ensures
        section.dispatched(enabled, seen[k], present).target == nth_call(
            section,
            enabled,
            present,
            1,
        ).target,
        section.dispatched(enabled, seen[k], present).cell == nth_call(
            section,
            enabled,
            present,
            1,
        ).cell,
    decreases k,
{
    if seen[k] != CellValue::Unresolved {
        let j = choose|j: int|
            0 <= j < k && seen[k] == section.dispatched(enabled, #[trigger] seen[j], present).cell;
        lemma_resolution_idempotent(section, enabled, present, seen, j);
    }
}

/// The cell never holds a value outside the section: what a call stores
/// names the generic fallback or one of the specialisations, under the index
/// strategy by an integer that stands for nothing else.
pub proof fn lemma_cell_within(
    plan: Plan,
    section: Section,
    group: ArchGroupView,
    std: bool,
    enabled: Seq<Seq<char>>,
    cell: CellValue,
    present: Seq<Seq<char>>,
)
    requires
        is_section(plan, section, group, std),
        cell.within(group.specs.len() as int),
    ensures
        section.dispatched(enabled, cell, present).target.within(group.specs.len() as int),
        section.dispatched(enabled, cell, present).cell.within(group.specs.len() as int),
        CellValue::of_index(
            section.dispatched(enabled, cell, present).cell.index(),
            group.specs.len() as int,
        ) == Some(section.dispatched(enabled, cell, present).cell),
{
    let specs = group.specs;
    lemma_specs_fit(plan, section, group, std);
    lemma_section_follows_protocol(plan, section, group, std, enabled, cell, present);
    let q = |i: int| specs[i].is_static && all_among(specs[i].features, enabled);
    let r = |i: int| all_among(specs[i].features, present);
    lemma_first_from(q, 0, specs.len() as int);
    lemma_first_from(r, 0, specs.len() as int);
}

/// At most one section of a dispatcher is present in a compiled artifact:
/// no build belongs to the architectures of two of them.
pub proof fn lemma_one_section(
    plan: Plan,
    dispatcher: Dispatcher,
    name: Seq<char>,
    entries: Seq<SpecialisationView>,
    std: bool,
    target: Seq<char>,
    g: int,
    h: int,
)
    requires
        is_dispatcher(plan, dispatcher, name, grouped(entries), std),
        0 <= g < dispatcher.sections@.len(),
        0 <= h < dispatcher.sections@.len(),
        dispatcher.sections@[g].arch.subsumes(target),
        dispatcher.sections@[h].arch.subsumes(target),
    ensures
        g == h,
{
    lemma_archs_of(entries);
    lemma_targets_disjoint(dispatcher.sections@[g].arch, dispatcher.sections@[h].arch, target);
    assert(dispatcher.sections@[g].arch == grouped(entries)[g].arch);
    assert(dispatcher.sections@[h].arch == grouped(entries)[h].arch);
    assert(archs_of(entries)[g] == archs_of(entries)[h]);
}

/// Every section of a dispatcher runs the protocol on the specialisations
/// of its group.
pub proof fn lemma_dispatcher_follows_protocol(
    plan: Plan,
    dispatcher: Dispatcher,
    name: Seq<char>,
    groups: Seq<ArchGroupView>,
    std: bool,
    g: int,
    enabled: Seq<Seq<char>>,
    cell: CellValue,
    present: Seq<Seq<char>>,
)
    requires
        is_dispatcher(plan, dispatcher, name, groups, std),
        0 <= g < dispatcher.sections@.len(),
    ensures
        dispatcher.sections@[g].dispatched(enabled, cell, present) == protocol(
            groups[g].specs,
            enabled,
            cell,
            present,
        ),
{
    lemma_section_follows_protocol(
        plan,
        dispatcher.sections@[g],
        groups[g],
        std,
        enabled,
        cell,
        present,
    );
}

/// The strategy does not show: sections synthesised for the same
/// specialisations end every call alike, whether the choice is cached as an
/// address or as an index.
pub proof fn lemma_strategies_agree(
    by_pointer: Plan,
    by_index: Plan,
    pointed: Section,
    indexed: Section,
    group: ArchGroupView,
    std: bool,
    enabled: Seq<Seq<char>>,
    cell: CellValue,
    present: Seq<Seq<char>>,
)
    requires
        is_section(by_pointer, pointed, group, std),
        is_section(by_index, indexed, group, std),
    ensures
        pointed.dispatched(enabled, cell, present) == indexed.dispatched(enabled, cell, present),
{
    lemma_section_follows_protocol(by_pointer, pointed, group, std, enabled, cell, present);
    lemma_section_follows_protocol(by_index, indexed, group, std, enabled, cell, present);
}

/// A call of the outer function runs the protocol of the one section that
/// the build belongs to, and the generic fallback where it belongs to none.
/// A call at compile time, which only a `const` function admits, runs the
/// generic fallback and asks no oracle.
pub proof fn lemma_outer_call(
    plan: Plan,
    dispatcher: Dispatcher,
    name: Seq<char>,
    entries: Seq<SpecialisationView>,
    std: bool,
    target: Seq<char>,
    const_eval: bool,
    enabled: Seq<Seq<char>>,
    cell: CellValue,
    present: Seq<Seq<char>>,
)
    requires
        is_dispatcher(plan, dispatcher, name, grouped(entries), std),
        const_eval ==> plan.is_const,
    ensures
        dispatcher.called(target, const_eval, enabled, cell, present) == (if const_eval
            || forall|g: int|
            0 <= g < grouped(entries).len() ==> !(#[trigger] grouped(entries)[g]).arch.subsumes(
                target,
            ) {
            Outcome { target: Target::Generic, cell, probed: false }
        } else {
            protocol(
                grouped(entries)[dispatcher.routed(target).unwrap()].specs,
                enabled,
                cell,
                present,
            )
        }),
        forall|g: int|
            0 <= g < grouped(entries).len() && (#[trigger] grouped(entries)[g]).arch.subsumes(
                target,
            ) ==> dispatcher.routed(target) == Some(g),
{
    let p = |g: int| dispatcher.sections@[g].arch.subsumes(target);
    let n = dispatcher.sections@.len() as int;
    lemma_first_from(p, 0, n);
    assert forall|g: int|
        0 <= g < grouped(entries).len() && (#[trigger] grouped(entries)[g]).arch.subsumes(
            target,
        ) implies dispatcher.routed(target) == Some(g) by {
        assert(dispatcher.sections@[g].arch == grouped(entries)[g].arch);
        assert(p(g));
        let found = dispatcher.routed(target).unwrap();
        lemma_one_section(plan, dispatcher, name, entries, std, target, g, found);
    }
    match dispatcher.routed(target) {
        Some(g) => {
            assert(p(g));
            assert(dispatcher.sections@[g].arch == grouped(entries)[g].arch);
            lemma_section_follows_protocol(
                plan,
                dispatcher.sections@[g],
                grouped(entries)[g],
                std,
                enabled,
                cell,
                present,
            );
        },
        None => {
            assert forall|g: int| 0 <= g < grouped(entries).len() implies !(#[trigger] grouped(
                entries,
            )[g]).arch.subsumes(target) by {
                assert(dispatcher.sections@[g].arch == grouped(entries)[g].arch);
                assert(!p(g));
            }
        },
    }
}

/// The place of a name among the parameters.
pub open spec fn place_of(name: Seq<char>, params: Seq<Seq<char>>) -> int {
    choose|i: int| 0 <= i < params.len() && params[i] == name
}

/// What a call hands to its callee while the parameters hold `values`: for
/// each argument, the value of the parameter that it names.
pub open spec fn arguments<V>(call: Call, params: Seq<Seq<char>>, values: Seq<V>) -> Seq<V> {
    Seq::new(call.args@.len(), |i: int| values[place_of(call.args@[i]@, params)])
}

/// A variant hands its parameters on to the generic fallback, unchanged and
/// in order: whatever the reference body computes from its input, the
/// variant returns the same on the same input. (No two parameters of a
/// function share a name.)
pub proof fn lemma_variant_equivalence<V, R>(
    plan: Plan,
    def: FnDef<Call>,
    spec: SpecialisationView,
    values: Seq<V>,
    reference: spec_fn(Seq<V>) -> R,
)
    requires
        is_variant(plan, def, spec),
        plan.param_idents.no_duplicates(),
        values.len() == plan.param_idents.len(),
    ensures
        def.body.callee@ == generic_name(),
        arguments(def.body, plan.param_idents, values) == values,
        reference(arguments(def.body, plan.param_idents, values)) == reference(values),
{
    let params = plan.param_idents;
    assert forall|i: int| 0 <= i < values.len() implies arguments(def.body, params, values)[i]
        == values[i] by {
        assert(texts(def.body.args@)[i] == params[i]);
        assert(params[i] == def.body.args@[i]@);
        let found = place_of(def.body.args@[i]@, params);
        assert(0 <= found < params.len() && params[found] == params[i]);
    }
    assert(texts(def.body.args@).len() == def.body.args@.len());
    assert(arguments(def.body, params, values) =~= values);
}

} // verus!
