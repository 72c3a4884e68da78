//! The synthesis of a dispatcher from the plan of the reference function and
//! its specialisations.

use crate::arch::Architecture;
use crate::builder::{generic_ident, generic_name, safe_generic_ident, FnBuilder, Function, Plan};
use crate::error::Error;
use crate::features::{collect_features, feature_union};
use crate::item::{
    Arm, Attribute, Call, Cell, Dispatch, Dispatcher, Dynamic, FnDef, MemoryOrder, Resolve, Route,
    Section, StaticArm, Target,
};
use crate::specialisation::{
    group_views, grouped, parse_from, spec_views, ArchGroup, ArchGroupView, Specialisation,
    SpecialisationView,
};
use crate::text::{clone_strings, contains_text, join, joined, texts};
use crate::token::Token;
use vstd::prelude::*;

verus! {

/// The pattern of a specialisation over the probed features: `true` at the
/// places of the features that it requires, and a wildcard elsewhere.
pub open spec fn pattern_of(features: Seq<Seq<char>>, probed: Seq<Seq<char>>) -> Seq<bool> {
    Seq::new(probed.len(), |j: int| features.contains(probed[j]))
}

/// The places of the static specialisations, in order.
pub open spec fn static_places(specs: Seq<SpecialisationView>) -> Seq<int>
    decreases specs.len(),
{
    if specs.len() == 0 {
        Seq::empty()
    } else if specs.last().is_static {
        static_places(specs.drop_last()).push(specs.len() - 1)
    } else {
        static_places(specs.drop_last())
    }
}

/// The specialisations whose body is derived from the reference body, in
/// order.
pub open spec fn derived(specs: Seq<SpecialisationView>) -> Seq<SpecialisationView> {
    specs.filter(|s: SpecialisationView| !s.is_manual)
}

/// The derived specialisations of all groups, one group behind the other.
pub open spec fn all_derived(groups: Seq<ArchGroupView>) -> Seq<SpecialisationView>
    decreases groups.len(),
{
    if groups.len() == 0 {
        Seq::empty()
    } else {
        all_derived(groups.drop_last()) + derived(groups.last().specs)
    }
}

/// Whether a function is the variant of a specialisation: compiled only for
/// the architecture and with the required features enabled, under the name
/// of the specialisation, and doing nothing but call the generic fallback on
/// its parameters.
pub open spec fn is_variant(plan: Plan, def: FnDef<Call>, spec: SpecialisationView) -> bool {
    &&& def.attributes@.len() == 2
    &&& def.attributes@[0] == Attribute::Cfg(spec.arch)
    &&& def.attributes@[1] matches Attribute::TargetFeature(list) && list@ == joined(
        spec.features,
        ","@,
    )
    &&& plan.is_detail(def, plan.is_const, plan.inner_unsafe, spec.ident)
    &&& def.body.in_unsafe == plan.inner_unsafe
    &&& def.body.callee@ == generic_name()
    &&& texts(def.body.args@) == plan.param_idents
}

/// Whether the arms are those of the specialisations: one for each, in
/// order, with its pattern over the probed features.
pub open spec fn is_arms(
    arms: Seq<Arm>,
    specs: Seq<SpecialisationView>,
    probed: Seq<Seq<char>>,
) -> bool {
    &&& arms.len() == specs.len()
    &&& forall|i: int|
        0 <= i < arms.len() ==> {
            &&& (#[trigger] arms[i]).pattern@ == pattern_of(specs[i].features, probed)
            &&& arms[i].target == Target::Variant(i as usize)
        }
}

/// Whether a function is the resolver of the section of `arch`. The store
/// to the cell is atomic and relaxed: resolvers that run at once store the
/// same, so that no order between them is needed.
pub open spec fn is_resolver(
    plan: Plan,
    def: FnDef<Resolve>,
    arch: Architecture,
    specs: Seq<SpecialisationView>,
    std: bool,
) -> bool {
    &&& def.attributes@ == seq![Attribute::Cfg(arch)]
    &&& plan.is_detail(def, false, plan.is_unsafe, arch.resolver_name())
    &&& def.body.cell@ == arch.cell_name()
    &&& def.body.std == std
    &&& def.body.detect@ == arch.detect_name()
    &&& texts(def.body.features@) == feature_union(specs)
    &&& is_arms(def.body.arms@, specs, feature_union(specs))
    &&& def.body.store == MemoryOrder::Relaxed
    &&& plan.is_call(def.body.dispatch, arch.dispatch_name())
}

/// Whether the static tests are those of the specialisations: one for each
/// static one, in order, answering with the call of that specialisation.
pub open spec fn is_statics(
    plan: Plan,
    statics: Seq<StaticArm>,
    specs: Seq<SpecialisationView>,
) -> bool {
    &&& statics.len() == static_places(specs).len()
    &&& forall|k: int|
        0 <= k < statics.len() ==> {
            let i = static_places(specs)[k];
            &&& texts((#[trigger] statics[k]).features@) == specs[i].features
            &&& statics[k].target == Target::Variant(i as usize)
            &&& plan.is_variant_call(statics[k].call, specs[i].ident)
        }
}

/// Whether the dynamic path is that of the strategy.
pub open spec fn is_dynamic(
    plan: Plan,
    dynamic: Dynamic,
    arch: Architecture,
    specs: Seq<SpecialisationView>,
) -> bool {
    match dynamic {
        Dynamic::Pointer(ptr) => !plan.use_jump_table && plan.is_ptr(ptr),
        Dynamic::Index { resolver, generic, variants } => {
            &&& plan.use_jump_table
            &&& plan.is_call(resolver, arch.resolver_name())
            &&& plan.is_call(generic, generic_name())
            &&& variants@.len() == specs.len()
            &&& forall|i: int|
                0 <= i < variants@.len() ==> plan.is_variant_call(
                    #[trigger] variants@[i],
                    specs[i].ident,
                )
        },
    }
}

/// Whether a function is the dispatch function of the section of `arch`.
/// The load from the cell is atomic and relaxed.
pub open spec fn is_dispatch(
    plan: Plan,
    def: FnDef<Dispatch>,
    arch: Architecture,
    specs: Seq<SpecialisationView>,
) -> bool {
    &&& def.attributes@ == seq![
        Attribute::Cfg(arch),
        Attribute::AllowUnreachableCode,
        Attribute::InlineAlways,
    ]
    &&& plan.is_detail(def, false, false, arch.dispatch_name())
    &&& def.body.cell@ == arch.cell_name()
    &&& def.body.load == MemoryOrder::Relaxed
    &&& texts(def.body.base.features@) == feature_union(specs)
    &&& def.body.base.target == Target::Generic
    &&& plan.is_call(def.body.base.call, generic_name())
    &&& is_statics(plan, def.body.statics@, specs)
    &&& is_dynamic(plan, def.body.dynamic, arch, specs)
}

/// Whether a route is that to the section of `arch`: through the bridge
/// where the reference function is `const`, direct where it is not.
pub open spec fn is_route(plan: Plan, route: Route, arch: Architecture) -> bool {
    match route {
        Route::Direct(call) => !plan.is_const && plan.is_call(call, arch.dispatch_name()),
        Route::ConstBridge { safe_generic, dispatch } => {
            &&& plan.is_const
            &&& dispatch@ == arch.dispatch_name()
            &&& safe_generic.attributes@ == seq![Attribute::Cfg(arch), Attribute::InlineAlways]
            &&& plan.is_detail(safe_generic, true, false, "_safe_generic"@)
            &&& plan.is_call(safe_generic.body, generic_name())
        },
    }
}

/// Whether a section is the one synthesised for a group of specialisations.
pub open spec fn is_section(plan: Plan, section: Section, group: ArchGroupView, std: bool) -> bool {
    &&& section.arch == group.arch
    &&& spec_views(section.specs@) == group.specs
    &&& texts(section.features@) == feature_union(group.specs)
    &&& section.cell.name@ == group.arch.cell_name()
    &&& section.cell.strategy == plan.strategy()
    &&& section.cell.resolver@ == group.arch.resolver_name()
    &&& is_resolver(plan, section.resolver, group.arch, group.specs, std)
    &&& is_dispatch(plan, section.dispatch, group.arch, group.specs)
    &&& is_route(plan, section.route, group.arch)
}

/// Whether a dispatcher is the one synthesised for the function `name` and
/// the groups of its specialisations.
pub open spec fn is_dispatcher(
    plan: Plan,
    dispatcher: Dispatcher,
    name: Seq<char>,
    groups: Seq<ArchGroupView>,
    std: bool,
) -> bool {
    &&& dispatcher.outer.attributes@.len() == 0
    &&& plan.is_detail(dispatcher.outer, plan.is_const, plan.is_unsafe, name)
    &&& plan.is_call(dispatcher.outer.body, generic_name())
    &&& plan.is_generic(dispatcher.generic)
    &&& dispatcher.variants@.len() == all_derived(groups).len()
    &&& forall|k: int|
        0 <= k < dispatcher.variants@.len() ==> is_variant(
            plan,
            #[trigger] dispatcher.variants@[k],
            all_derived(groups)[k],
        )
    &&& dispatcher.sections@.len() == groups.len()
    &&& forall|g: int|
        0 <= g < dispatcher.sections@.len() ==> is_section(
            plan,
            #[trigger] dispatcher.sections@[g],
            groups[g],
            std,
        )
}

/// The pattern of a specialisation with these features over the probed ones.
fn pattern(features: &Vec<String>, probed: &Vec<String>) -> (r: Vec<bool>)
    ensures
        r@ == pattern_of(texts(features@), texts(probed@)),
{
    let mut out: Vec<bool> = Vec::new();
    let mut j: usize = 0;
    while j < probed.len()
        invariant
            j <= probed@.len(),
            out@ == pattern_of(texts(features@), texts(probed@)).take(j as int),
        decreases probed@.len() - j,
    {
        let hit = contains_text(features, probed[j].as_str());
        out.push(hit);
        assert(out@ =~= pattern_of(texts(features@), texts(probed@)).take(j + 1));
        j += 1;
    }
    assert(out@ =~= pattern_of(texts(features@), texts(probed@)));
    out
}

impl Specialisation {
    /// The variant of the specialisation.
    pub fn variant(&self, builder: &FnBuilder) -> (r: FnDef<Call>)
        ensures
            is_variant(builder@, r, self@),
    {
        let mut attributes: Vec<Attribute> = Vec::new();
        attributes.push(Attribute::Cfg(self.arch));
        attributes.push(Attribute::TargetFeature(join(&self.features, ",")));
        let generic = generic_ident();
        let body = Call {
            in_unsafe: builder.inner_unsafe,
            callee: generic,
            args: clone_strings(&builder.param_idents),
        };
        builder.build_detail(attributes, true, builder.inner_unsafe, self.ident.as_str(), body)
    }
}

/// The arms of the resolver of the specialisations.
fn arms_of(specs: &Vec<Specialisation>, probed: &Vec<String>) -> (r: Vec<Arm>)
    ensures
        is_arms(r@, spec_views(specs@), texts(probed@)),
{
    let mut arms: Vec<Arm> = Vec::new();
    let mut i: usize = 0;
    while i < specs.len()
        invariant
            i <= specs@.len(),
            arms@.len() == i,
            forall|k: int|
                0 <= k < i ==> {
                    &&& (#[trigger] arms@[k]).pattern@ == pattern_of(
                        spec_views(specs@)[k].features,
                        texts(probed@),
                    )
                    &&& arms@[k].target == Target::Variant(k as usize)
                },
        decreases specs@.len() - i,
    {
        arms.push(Arm { pattern: pattern(&specs[i].features, probed), target: Target::Variant(i) });
        i += 1;
    }
    arms
}

/// The static places lie among the specialisations, in rising order.
pub proof fn lemma_static_places(specs: Seq<SpecialisationView>)
    ensures
        static_places(specs).len() <= specs.len(),
        forall|k: int|
            0 <= k < static_places(specs).len() ==> {
                &&& 0 <= (#[trigger] static_places(specs)[k]) < specs.len()
                &&& specs[static_places(specs)[k]].is_static
            },
        forall|k: int, l: int|
            0 <= k < l < static_places(specs).len() ==> static_places(specs)[k] < static_places(
                specs,
            )[l],
        forall|i: int|
            0 <= i < specs.len() && (#[trigger] specs[i]).is_static ==> static_places(
                specs,
            ).contains(i),
    decreases specs.len(),
{
    if specs.len() > 0 {
        let init = specs.drop_last();
        lemma_static_places(init);
        assert forall|i: int|
            0 <= i < specs.len() && (#[trigger] specs[i]).is_static implies static_places(
            specs,
        ).contains(i) by {
            if i < init.len() {
                assert(init[i].is_static);
                let k = choose|k: int|
                    0 <= k < static_places(init).len() && static_places(init)[k] == i;
                assert(static_places(specs)[k] == i);
            } else {
                assert(static_places(specs)[static_places(init).len() as int] == i);
            }
        }
    }
}

/// The static tests of the dispatch function of the specialisations.
fn statics_of(builder: &FnBuilder, specs: &Vec<Specialisation>) -> (r: Vec<StaticArm>)
    ensures
        is_statics(builder@, r@, spec_views(specs@)),
{
    let mut statics: Vec<StaticArm> = Vec::new();
    let mut i: usize = 0;
    let ghost views = spec_views(specs@);
    assert(views.take(0) =~= Seq::<SpecialisationView>::empty());
    while i < specs.len()
        invariant
            i <= specs@.len(),
            views == spec_views(specs@),
            is_statics(builder@, statics@, views.take(i as int)),
        decreases specs@.len() - i,
    {
        let ghost before = views.take(i as int);
        let ghost after = views.take(i + 1);
        proof {
            assert(after.drop_last() =~= before);
            assert(after.last() == views[i as int]);
            lemma_static_places(before);
        }
        let ghost old_statics = statics@;
        if specs[i].is_static {
            statics.push(
                StaticArm {
                    features: clone_strings(&specs[i].features),
                    target: Target::Variant(i),
                    call: builder.build_variant_call(specs[i].ident.as_str()),
                },
            );
        }
        assert(is_statics(builder@, statics@, after)) by {
            assert forall|k: int| 0 <= k < statics@.len() implies {
                let p = static_places(after)[k];
                &&& texts((#[trigger] statics@[k]).features@) == after[p].features
                &&& statics@[k].target == Target::Variant(p as usize)
                &&& builder@.is_variant_call(statics@[k].call, after[p].ident)
            } by {
                if k < old_statics.len() {
                    assert(statics@[k] == old_statics[k]);
                    let p = static_places(before)[k];
                    assert(after[p] == before[p]);
                }
            }
        }
        i += 1;
    }
    assert(views.take(specs@.len() as int) =~= views);
    statics
}

/// The calls of the variants of the specialisations, in order.
fn variant_calls(builder: &FnBuilder, specs: &Vec<Specialisation>) -> (r: Vec<Call>)
    ensures
        r@.len() == specs@.len(),
        forall|i: int|
            0 <= i < r@.len() ==> builder@.is_variant_call(
                #[trigger] r@[i],
                spec_views(specs@)[i].ident,
            ),
{
    let mut calls: Vec<Call> = Vec::new();
    let mut i: usize = 0;
    while i < specs.len()
        invariant
            i <= specs@.len(),
            calls@.len() == i,
            forall|k: int|
                0 <= k < i ==> builder@.is_variant_call(
                    #[trigger] calls@[k],
                    spec_views(specs@)[k].ident,
                ),
        decreases specs@.len() - i,
    {
        calls.push(builder.build_variant_call(specs[i].ident.as_str()));
        i += 1;
    }
    calls
}

/// The resolver of the section of `arch`.
fn resolver_of(
    builder: &FnBuilder,
    arch: Architecture,
    specs: &Vec<Specialisation>,
    features: &Vec<String>,
    std: bool,
) -> (r: FnDef<Resolve>)
    requires
        texts(features@) == feature_union(spec_views(specs@)),
    ensures
        is_resolver(builder@, r, arch, spec_views(specs@), std),
{
    let mut attributes: Vec<Attribute> = Vec::new();
    attributes.push(Attribute::Cfg(arch));
    assert(attributes@ =~= seq![Attribute::Cfg(arch)]);
    let body = Resolve {
        cell: arch.jump_ref_ident(),
        std,
        detect: arch.detect_macro(),
        features: clone_strings(features),
        arms: arms_of(specs, features),
        store: MemoryOrder::Relaxed,
        dispatch: builder.build_call(arch.dispatch_ident().as_str()),
    };
    builder.build_detail(
        attributes,
        false,
        builder.orig.is_unsafe,
        arch.init_ident().as_str(),
        body,
    )
}

/// The dispatch function of the section of `arch`.
fn dispatch_of(
    builder: &FnBuilder,
    arch: Architecture,
    specs: &Vec<Specialisation>,
    features: &Vec<String>,
) -> (r: FnDef<Dispatch>)
    requires
        texts(features@) == feature_union(spec_views(specs@)),
    ensures
        is_dispatch(builder@, r, arch, spec_views(specs@)),
{
    let generic = generic_ident();
    let mut attributes: Vec<Attribute> = Vec::new();
    attributes.push(Attribute::Cfg(arch));
    attributes.push(Attribute::AllowUnreachableCode);
    attributes.push(Attribute::InlineAlways);
    assert(attributes@ =~= seq![
        Attribute::Cfg(arch),
        Attribute::AllowUnreachableCode,
        Attribute::InlineAlways,
    ]);
    let dynamic = if builder.use_jump_table {
        Dynamic::Index {
            resolver: builder.build_call(arch.init_ident().as_str()),
            generic: builder.build_call(generic.as_str()),
            variants: variant_calls(builder, specs),
        }
    } else {
        Dynamic::Pointer(builder.build_ptr())
    };
    let body = Dispatch {
        cell: arch.jump_ref_ident(),
        load: MemoryOrder::Relaxed,
        base: StaticArm {
            features: clone_strings(features),
            target: Target::Generic,
            call: builder.build_call(generic.as_str()),
        },
        statics: statics_of(builder, specs),
        dynamic,
    };
    builder.build_detail(attributes, false, false, arch.dispatch_ident().as_str(), body)
}

/// The route of the outer function to the section of `arch`.
fn route_of(builder: &FnBuilder, arch: Architecture) -> (r: Route)
    ensures
        is_route(builder@, r, arch),
{
    if builder.orig.is_const {
        let generic = generic_ident();
        let mut attributes: Vec<Attribute> = Vec::new();
        attributes.push(Attribute::Cfg(arch));
        attributes.push(Attribute::InlineAlways);
        assert(attributes@ =~= seq![Attribute::Cfg(arch), Attribute::InlineAlways]);
        let safe_generic = builder.build_detail(
            attributes,
            true,
            false,
            safe_generic_ident().as_str(),
            builder.build_call(generic.as_str()),
        );
        Route::ConstBridge { safe_generic, dispatch: arch.dispatch_ident() }
    } else {
        Route::Direct(builder.build_call(arch.dispatch_ident().as_str()))
    }
}

/// The section of a group of specialisations.
pub fn build_section(builder: &FnBuilder, group: ArchGroup, std: bool) -> (r: Section)
    ensures
        is_section(builder@, r, group@, std),
{
    let arch = group.arch;
    let features = collect_features(&group.specs);
    let cell = Cell {
        name: arch.jump_ref_ident(),
        strategy: builder.strategy(),
        resolver: arch.init_ident(),
    };
    let resolver = resolver_of(builder, arch, &group.specs, &features, std);
    let dispatch = dispatch_of(builder, arch, &group.specs, &features);
    let route = route_of(builder, arch);
    Section { arch, specs: group.specs, features, cell, resolver, dispatch, route }
}

/// Appends the variants of the derived specialisations among `specs`.
fn push_variants(
    builder: &FnBuilder,
    specs: &Vec<Specialisation>,
    variants: &mut Vec<FnDef<Call>>,
    Ghost(done): Ghost<Seq<SpecialisationView>>,
)
    requires
        old(variants)@.len() == done.len(),
        forall|k: int|
            0 <= k < done.len() ==> is_variant(builder@, #[trigger] old(variants)@[k], done[k]),
    ensures
        final(variants)@.len() == (done + derived(spec_views(specs@))).len(),
        forall|k: int|
            0 <= k < final(variants)@.len() ==> is_variant(
                builder@,
                #[trigger] final(variants)@[k],
                (done + derived(spec_views(specs@)))[k],
            ),
{
    let ghost views = spec_views(specs@);
    let ghost keep = |s: SpecialisationView| !s.is_manual;
    let mut i: usize = 0;
    proof {
        assert(views.take(0) =~= Seq::<SpecialisationView>::empty());
        reveal(Seq::filter);
        assert(done + views.take(0).filter(keep) =~= done);
    }
    while i < specs.len()
        invariant
            i <= specs@.len(),
            views == spec_views(specs@),
            keep == |s: SpecialisationView| !s.is_manual,
            variants@.len() == (done + views.take(i as int).filter(keep)).len(),
            forall|k: int|
                0 <= k < variants@.len() ==> is_variant(
                    builder@,
                    #[trigger] variants@[k],
                    (done + views.take(i as int).filter(keep))[k],
                ),
        decreases specs@.len() - i,
    {
        let ghost before = views.take(i as int);
        let ghost after = views.take(i + 1);
        proof {
            assert(after.drop_last() =~= before);
            assert(after.last() == views[i as int]);
            reveal(Seq::filter);
            assert(after.filter(keep) == if keep(views[i as int]) {
                before.filter(keep).push(views[i as int])
            } else {
                before.filter(keep)
            });
        }
        if !specs[i].is_manual {
            variants.push(specs[i].variant(builder));
            assert(done + after.filter(keep) =~= (done + before.filter(keep)).push(
                views[i as int],
            ));
        }
        i += 1;
    }
    assert(views.take(specs@.len() as int) =~= views);
}

/// Synthesises the dispatcher of the plan for the groups of its
/// specialisations.
pub fn synthesize(builder: &FnBuilder, groups: Vec<ArchGroup>, std: bool) -> (r: Dispatcher)
    ensures
        is_dispatcher(builder@, r, builder.orig.name@, group_views(groups@), std),
{
    let ghost all = group_views(groups@);
    let generic_name = generic_ident();
    let mut rest = groups;
    let mut sections: Vec<Section> = Vec::new();
    let mut variants: Vec<FnDef<Call>> = Vec::new();
    assert(all.skip(0) =~= all);
    assert(all.take(0) =~= Seq::<ArchGroupView>::empty());
    while rest.len() > 0
        invariant
            sections@.len() + rest@.len() == all.len(),
            group_views(rest@) == all.skip(sections@.len() as int),
            forall|k: int|
                0 <= k < sections@.len() ==> is_section(
                    builder@,
                    #[trigger] sections@[k],
                    all[k],
                    std,
                ),
            variants@.len() == all_derived(all.take(sections@.len() as int)).len(),
            forall|k: int|
                0 <= k < variants@.len() ==> is_variant(
                    builder@,
                    #[trigger] variants@[k],
                    all_derived(all.take(sections@.len() as int))[k],
                ),
        decreases rest@.len(),
    {
        let ghost g = sections@.len() as int;
        let ghost old_rest = group_views(rest@);
        let ghost old_groups = rest@;
        let group = rest.remove(0);
        proof {
            assert(group@ == old_rest[0]);
            assert(group@ == all[g]);
            assert forall|k: int| 0 <= k < rest@.len() implies group_views(rest@)[k] == all.skip(
                g + 1,
            )[k] by {
                assert(rest@[k] == old_groups[k + 1]);
                assert(old_rest[k + 1] == all.skip(g)[k + 1]);
            }
            assert(group_views(rest@) =~= all.skip(g + 1));
            assert(all.take(g + 1).drop_last() =~= all.take(g));
            assert(all.take(g + 1).last() == all[g]);
        }
        push_variants(builder, &group.specs, &mut variants, Ghost(all_derived(all.take(g))));
        sections.push(build_section(builder, group, std));
    }
    assert(all.take(all.len() as int) =~= all);
    let outer = builder.build_detail(
        Vec::new(),
        true,
        builder.orig.is_unsafe,
        builder.orig.name.as_str(),
        builder.build_call(generic_name.as_str()),
    );
    Dispatcher { outer, generic: builder.build_generic(), variants, sections }
}

/// Synthesises the dispatcher of a function from the function and the list
/// of its specialisations. `std` says whether feature detection goes through
/// `std::arch`. The analysis of the function comes first, so that its error
/// is the one reported where both the function and the list have one.
pub fn make_special(attr: &Vec<Token>, orig: &Function, std: bool) -> (r: Result<Dispatcher, Error>)
    ensures
        match r {
            Ok(dispatcher) => {
                &&& orig.accepted()
                &&& parse_from(attr@, 0) matches Ok(entries) && is_dispatcher(
                    orig.plan(),
                    dispatcher,
                    orig.name@,
                    grouped(entries),
                    std,
                )
            },
            Err(e) => orig.rejected_with(e) || (orig.accepted() && parse_from(attr@, 0) == Err::<
                Seq<SpecialisationView>,
                Error,
            >(e)),
        },
{
    let builder = match FnBuilder::new(orig) {
        Ok(builder) => builder,
        Err(e) => {
            return Err(e);
        },
    };
    let groups = match Specialisation::parse(attr) {
        Ok(groups) => groups,
        Err(e) => {
            return Err(e);
        },
    };
    Ok(synthesize(&builder, groups, std))
}

} // verus!
