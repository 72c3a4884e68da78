use maybe_special::arch::Architecture;
use maybe_special::builder::{FnBuilder, FnParam, Function, GenericKind, GenericParam};
use maybe_special::error::{Error, ErrorKind, Location};
use maybe_special::features::collect_features;
use maybe_special::item::{
    Arm, Attribute, Call, Cell, Dispatch, Dynamic, FnDef, FnPointer, MemoryOrder, Params,
    Reference, Resolve, ReturnType, Route, StaticArm, Strategy, Target,
};
use maybe_special::specialisation::Specialisation;
use maybe_special::synth::{build_section, make_special, synthesize};
use maybe_special::token::{Delimiter, Token};

fn delimiter(d: proc_macro2::Delimiter) -> Delimiter {
    match d {
        proc_macro2::Delimiter::Parenthesis => Delimiter::Parenthesis,
        proc_macro2::Delimiter::Brace => Delimiter::Brace,
        proc_macro2::Delimiter::Bracket => Delimiter::Bracket,
        proc_macro2::Delimiter::None => Delimiter::Invisible,
    }
}

fn convert(stream: proc_macro2::TokenStream) -> Vec<Token> {
    stream
        .into_iter()
        .map(|tree| match tree {
            proc_macro2::TokenTree::Ident(ident) => Token::Ident(ident.to_string()),
            proc_macro2::TokenTree::Punct(punct) => Token::Punct(punct.as_char()),
            proc_macro2::TokenTree::Literal(lit) => Token::literal(lit.to_string()),
            proc_macro2::TokenTree::Group(group) => {
                Token::Group(delimiter(group.delimiter()), convert(group.stream()))
            }
        })
        .collect()
}

fn lex(source: &str) -> Vec<Token> {
    convert(source.parse::<proc_macro2::TokenStream>().unwrap())
}

fn function(params: &[(&str, &str)]) -> Function {
    Function {
        name: "fast_dot_product".to_string(),
        is_const: false,
        is_async: false,
        is_unsafe: false,
        generics: vec![],
        params: params
            .iter()
            .map(|(name, ty)| FnParam::Typed { name: name.to_string(), ty: lex(ty) })
            .collect(),
        has_return_ty: true,
        has_body: true,
    }
}

fn dot() -> Function {
    function(&[("a", "[u32; 16]"), ("b", "[u32; 16]")])
}

fn strings(items: &[&str]) -> Vec<String> {
    items.iter().map(|s| s.to_string()).collect()
}

fn call(in_unsafe: bool, callee: &str) -> Call {
    Call { in_unsafe, callee: callee.to_string(), args: strings(&["a", "b"]) }
}

const VALUE: ReturnType = ReturnType { declared: true, future: false };

const EXAMPLE: &str =
    "x86 = [\"avx512f\", \"avx512vl\"], static x86 = [\"sse4.1\"], riscv = [\"v\"]";

#[test]
fn union_of_features_keeps_first_mention() {
    let groups = Specialisation::parse(&lex(
        "x86 = [\"b\", \"a\"], x86 = [\"a\", \"c\"], x86 = [\"c\", \"b\", \"d\"]",
    ))
    .unwrap();
    assert_eq!(collect_features(&groups[0].specs), strings(&["b", "a", "c", "d"]));
    assert_eq!(collect_features(&vec![]), Vec::<String>::new());
}

#[test]
fn outer_function_and_generic_fallback() {
    let function = dot();
    let dispatcher = make_special(&lex(EXAMPLE), &function, true).unwrap();
    assert_eq!(
        dispatcher.outer,
        FnDef {
            attributes: vec![],
            is_const: false,
            is_async: false,
            is_unsafe: false,
            name: "fast_dot_product".to_string(),
            params: Params::Outer,
            return_ty: VALUE,
            body: call(false, "_generic"),
        }
    );
    assert_eq!(
        dispatcher.generic,
        FnDef {
            attributes: vec![Attribute::InlineAlways],
            is_const: false,
            is_async: false,
            is_unsafe: false,
            name: "_generic".to_string(),
            params: Params::Declared,
            return_ty: VALUE,
            body: Reference,
        }
    );
}

#[test]
fn one_variant_for_each_derived_specialisation() {
    let function = dot();
    let dispatcher = make_special(&lex(EXAMPLE), &function, true).unwrap();
    let variant = |arch, features: &str, name: &str| FnDef {
        attributes: vec![Attribute::Cfg(arch), Attribute::TargetFeature(features.to_string())],
        is_const: false,
        is_async: false,
        is_unsafe: true,
        name: name.to_string(),
        params: Params::Outer,
        return_ty: VALUE,
        body: call(true, "_generic"),
    };
    assert_eq!(
        dispatcher.variants,
        vec![
            variant(Architecture::X86, "avx512f,avx512vl", "_x86_avx512f_avx512vl"),
            variant(Architecture::X86, "sse4.1", "_x86_sse41"),
            variant(Architecture::RISCV, "v", "_riscv_v"),
        ]
    );
}

#[test]
fn manual_specialisation_gets_no_variant() {
    let function = dot();
    let dispatcher = make_special(
        &lex("static x86 = [\"avx2\"] => unsafe dot_product_avx2, static x86 = [\"sse4.1\"], riscv = [\"v\"] => unsafe by_hand"),
        &function,
        true,
    )
    .unwrap();
    let names: Vec<&str> = dispatcher.variants.iter().map(|v| v.name.as_str()).collect();
    assert_eq!(names, vec!["_x86_sse41"]);
    assert_eq!(dispatcher.sections.len(), 2);
    assert_eq!(dispatcher.sections[0].specs.len(), 2);
    assert_eq!(
        dispatcher.sections[0].dispatch.body.statics,
        vec![
            StaticArm {
                features: strings(&["avx2"]),
                target: Target::Variant(0),
                call: call(true, "dot_product_avx2"),
            },
            StaticArm {
                features: strings(&["sse4.1"]),
                target: Target::Variant(1),
                call: call(true, "_x86_sse41"),
            },
        ]
    );
}

#[test]
fn section_under_the_pointer_strategy() {
    let function = dot();
    let dispatcher = make_special(&lex(EXAMPLE), &function, true).unwrap();
    assert_eq!(dispatcher.sections.len(), 2);
    let section = &dispatcher.sections[0];
    assert_eq!(section.arch, Architecture::X86);
    assert_eq!(section.specs.len(), 2);
    assert_eq!(section.features, strings(&["avx512f", "avx512vl", "sse4.1"]));
    assert_eq!(
        section.cell,
        Cell {
            name: "JUMP_REF_x86".to_string(),
            strategy: Strategy::Pointer,
            resolver: "_init_x86".to_string(),
        }
    );
    assert_eq!(
        section.resolver,
        FnDef {
            attributes: vec![Attribute::Cfg(Architecture::X86)],
            is_const: false,
            is_async: false,
            is_unsafe: false,
            name: "_init_x86".to_string(),
            params: Params::Outer,
            return_ty: VALUE,
            body: Resolve {
                cell: "JUMP_REF_x86".to_string(),
                std: true,
                detect: "is_x86_feature_detected".to_string(),
                features: strings(&["avx512f", "avx512vl", "sse4.1"]),
                arms: vec![
                    Arm { pattern: vec![true, true, false], target: Target::Variant(0) },
                    Arm { pattern: vec![false, false, true], target: Target::Variant(1) },
                ],
                store: MemoryOrder::Relaxed,
                dispatch: call(false, "_dispatch_x86"),
            },
        }
    );
    assert_eq!(
        section.dispatch,
        FnDef {
            attributes: vec![
                Attribute::Cfg(Architecture::X86),
                Attribute::AllowUnreachableCode,
                Attribute::InlineAlways,
            ],
            is_const: false,
            is_async: false,
            is_unsafe: false,
            name: "_dispatch_x86".to_string(),
            params: Params::Outer,
            return_ty: VALUE,
            body: Dispatch {
                cell: "JUMP_REF_x86".to_string(),
                load: MemoryOrder::Relaxed,
                base: StaticArm {
                    features: strings(&["avx512f", "avx512vl", "sse4.1"]),
                    target: Target::Generic,
                    call: call(false, "_generic"),
                },
                statics: vec![StaticArm {
                    features: strings(&["sse4.1"]),
                    target: Target::Variant(1),
                    call: call(true, "_x86_sse41"),
                }],
                dynamic: Dynamic::Pointer(FnPointer {
                    lifetimes: vec![],
                    is_unsafe: false,
                    return_ty: VALUE,
                }),
            },
        }
    );
    assert_eq!(section.route, Route::Direct(call(false, "_dispatch_x86")));
    let section = &dispatcher.sections[1];
    assert_eq!(section.arch, Architecture::RISCV);
    assert_eq!(section.features, strings(&["v"]));
    assert_eq!(section.cell.name, "JUMP_REF_riscv");
    assert_eq!(section.resolver.body.detect, "is_riscv_feature_detected");
    assert_eq!(section.dispatch.body.statics, vec![]);
}

#[test]
fn section_under_the_index_strategy() {
    let mut function = dot();
    function.generics = vec![
        GenericParam { kind: GenericKind::Lifetime, name: "a".to_string() },
        GenericParam { kind: GenericKind::Type, name: "T".to_string() },
    ];
    let dispatcher = make_special(&lex(EXAMPLE), &function, false).unwrap();
    let section = &dispatcher.sections[0];
    assert_eq!(section.cell.strategy, Strategy::Index);
    assert!(!section.resolver.body.std);
    assert_eq!(
        section.dispatch.body.dynamic,
        Dynamic::Index {
            resolver: call(false, "_init_x86"),
            generic: call(false, "_generic"),
            variants: vec![call(true, "_x86_avx512f_avx512vl"), call(true, "_x86_sse41")],
        }
    );
    assert!(dispatcher.variants.iter().all(|v| !v.is_unsafe && !v.body.in_unsafe));
}

#[test]
fn asynchronous_function_keeps_async_on_the_generic_fallback_only() {
    let mut function = dot();
    function.is_async = true;
    let dispatcher = make_special(&lex(EXAMPLE), &function, true).unwrap();
    let future = ReturnType { declared: true, future: true };
    assert!(dispatcher.generic.is_async);
    assert_eq!(dispatcher.generic.return_ty, VALUE);
    assert!(!dispatcher.outer.is_async);
    assert_eq!(dispatcher.outer.return_ty, future);
    for variant in &dispatcher.variants {
        assert!(!variant.is_async);
        assert_eq!(variant.return_ty, future);
    }
    for section in &dispatcher.sections {
        assert_eq!(section.cell.strategy, Strategy::Index);
        assert!(!section.resolver.is_async);
        assert_eq!(section.resolver.return_ty, future);
        assert!(!section.dispatch.is_async);
        assert_eq!(section.dispatch.return_ty, future);
    }
}

#[test]
fn const_function_is_routed_through_the_bridge() {
    let mut function = dot();
    function.is_const = true;
    let dispatcher = make_special(&lex(EXAMPLE), &function, true).unwrap();
    assert!(dispatcher.outer.is_const);
    assert!(dispatcher.generic.is_const);
    assert!(dispatcher.variants.iter().all(|v| v.is_const));
    let section = &dispatcher.sections[1];
    assert!(!section.resolver.is_const);
    assert!(!section.dispatch.is_const);
    assert_eq!(
        section.route,
        Route::ConstBridge {
            safe_generic: FnDef {
                attributes: vec![Attribute::Cfg(Architecture::RISCV), Attribute::InlineAlways],
                is_const: true,
                is_async: false,
                is_unsafe: false,
                name: "_safe_generic".to_string(),
                params: Params::Outer,
                return_ty: VALUE,
                body: call(false, "_generic"),
            },
            dispatch: "_dispatch_riscv".to_string(),
        }
    );
}

#[test]
fn unsafe_function_calls_its_own_items_in_unsafe_blocks() {
    let mut function = dot();
    function.is_unsafe = true;
    let dispatcher = make_special(&lex(EXAMPLE), &function, true).unwrap();
    assert!(dispatcher.outer.is_unsafe);
    assert!(dispatcher.generic.is_unsafe);
    assert_eq!(dispatcher.outer.body, call(true, "_generic"));
    let section = &dispatcher.sections[0];
    assert!(section.resolver.is_unsafe);
    assert!(!section.dispatch.is_unsafe);
    assert_eq!(section.resolver.body.dispatch, call(true, "_dispatch_x86"));
    assert_eq!(section.route, Route::Direct(call(true, "_dispatch_x86")));
    assert_eq!(
        section.dispatch.body.dynamic,
        Dynamic::Pointer(FnPointer { lifetimes: vec![], is_unsafe: true, return_ty: VALUE })
    );
}

#[test]
fn no_specialisation_leaves_the_generic_fallback() {
    let function = dot();
    let dispatcher = make_special(&vec![], &function, true).unwrap();
    assert_eq!(dispatcher.sections, vec![]);
    assert_eq!(dispatcher.variants, vec![]);
    assert_eq!(dispatcher.outer.body, call(false, "_generic"));
}

#[test]
fn synthesis_in_steps_gives_the_same() {
    let function = dot();
    let builder = FnBuilder::new(&function).unwrap();
    let groups = Specialisation::parse(&lex(EXAMPLE)).unwrap();
    let dispatcher = synthesize(&builder, groups, true);
    assert_eq!(dispatcher, make_special(&lex(EXAMPLE), &function, true).unwrap());
    let mut groups = Specialisation::parse(&lex(EXAMPLE)).unwrap();
    let riscv = build_section(&builder, groups.remove(1), true);
    assert_eq!(riscv, dispatcher.sections[1]);
    let spec = &dispatcher.sections[1].specs[0];
    assert_eq!(spec.variant(&builder), dispatcher.variants[2]);
}

#[test]
fn error_of_the_function_comes_before_that_of_the_list() {
    let mut function = dot();
    function.has_body = false;
    assert_eq!(
        make_special(&lex("x87 = []"), &function, true),
        Err(Error { kind: ErrorKind::MissingBody, at: Location::Nowhere })
    );
    function.params.push(FnParam::Receiver);
    assert_eq!(
        make_special(&lex("x87 = []"), &function, true),
        Err(Error { kind: ErrorKind::Receiver, at: Location::Param(2) })
    );
    let function = dot();
    assert_eq!(
        make_special(&lex("x87 = []"), &function, true),
        Err(Error { kind: ErrorKind::UnsupportedArchitecture, at: Location::Attr(0) })
    );
}
