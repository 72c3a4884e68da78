use maybe_special::builder::{FnParam, Function};
use maybe_special::item::{CellValue, Dispatcher, Section, Target};
use maybe_special::runtime::{covers, fits, Outcome};
use maybe_special::synth::make_special;
use maybe_special::token::{Delimiter, Token};

fn literal(value: &str) -> Token {
    Token::literal(format!("\"{}\"", value))
}

fn list(features: &[&str]) -> Token {
    let mut inner = Vec::new();
    for feature in features {
        if !inner.is_empty() {
            inner.push(Token::Punct(','));
        }
        inner.push(literal(feature));
    }
    Token::Group(Delimiter::Bracket, inner)
}

/// The tokens of a list of specialisations, each given by its architecture,
/// whether it is static, and its features.
fn declare(entries: &[(&str, bool, &[&str])]) -> Vec<Token> {
    let mut tokens = Vec::new();
    for (arch, is_static, features) in entries {
        if *is_static {
            tokens.push(Token::Ident("static".to_string()));
        }
        tokens.push(Token::Ident(arch.to_string()));
        tokens.push(Token::Punct('='));
        tokens.push(list(features));
        tokens.push(Token::Punct(','));
    }
    tokens
}

fn dispatcher(entries: &[(&str, bool, &[&str])], generic: bool) -> Dispatcher {
    let function = Function {
        name: "f".to_string(),
        is_const: false,
        is_async: generic,
        is_unsafe: false,
        generics: vec![],
        params: vec![FnParam::Typed { name: "x".to_string(), ty: vec![Token::Ident("u8".to_string())] }],
        has_return_ty: false,
        has_body: true,
    };
    make_special(&declare(entries), &function, true).unwrap()
}

fn section(entries: &[(&str, bool, &[&str])]) -> Section {
    dispatcher(entries, false).sections.remove(0)
}

fn strings(items: &[&str]) -> Vec<String> {
    items.iter().map(|s| s.to_string()).collect()
}

fn resolved(target: Target) -> Outcome {
    Outcome { target, cell: CellValue::Resolved(target), probed: true }
}

#[test]
fn covers_asks_for_every_feature() {
    assert!(covers(&strings(&["a", "b"]), &strings(&["b"])));
    assert!(covers(&strings(&["a", "b"]), &strings(&["b", "a", "b"])));
    assert!(covers(&strings(&[]), &strings(&[])));
    assert!(!covers(&strings(&["a", "b"]), &strings(&["b", "c"])));
    assert!(!covers(&strings(&[]), &strings(&["a"])));
}

#[test]
fn patterns_match_where_every_asked_place_is_present() {
    assert!(fits(&vec![true, false], &vec![true, false]));
    assert!(fits(&vec![true, false], &vec![true, true]));
    assert!(fits(&vec![false, false], &vec![false, false]));
    assert!(fits(&vec![], &vec![]));
    assert!(!fits(&vec![true, true], &vec![true, false]));
    assert!(!fits(&vec![true], &vec![]));
    assert!(fits(&vec![false], &vec![]));
}

#[test]
fn probes_follow_the_features_of_the_section() {
    let section = section(&[("x86", false, &["avx2", "fma"]), ("x86", false, &["sse4.1"])]);
    let resolver = &section.resolver.body;
    assert_eq!(resolver.probe(&strings(&["sse4.1", "avx2"])), vec![true, false, true]);
    assert_eq!(resolver.probe(&strings(&[])), vec![false, false, false]);
    assert_eq!(resolver.select(&vec![true, true, true]), Target::Variant(0));
    assert_eq!(resolver.select(&vec![true, false, true]), Target::Variant(1));
    assert_eq!(resolver.select(&vec![true, false, false]), Target::Generic);
}

#[test]
fn first_match_priority() {
    let section = section(&[("x86", false, &["a"]), ("x86", false, &["a", "b"])]);
    let present = strings(&["a", "b"]);
    assert_eq!(section.resolver.body.resolve(&present), Target::Variant(0));
    assert_eq!(
        section.dispatch(&vec![], CellValue::Unresolved, &present),
        resolved(Target::Variant(0))
    );
}

#[test]
fn declaration_order_decides_between_unrelated_sets() {
    let present = strings(&["a", "b"]);
    let ab = section(&[("x86", false, &["a"]), ("x86", false, &["b"])]);
    assert_eq!(ab.resolver.body.resolve(&present), Target::Variant(0));
    let ba = section(&[("x86", false, &["b"]), ("x86", false, &["a"])]);
    assert_eq!(ba.resolver.body.resolve(&present), Target::Variant(0));
    assert_eq!(ab.specs[0].ident, "_x86_a");
    assert_eq!(ba.specs[0].ident, "_x86_b");
}

#[test]
fn more_specific_specialisation_wins_only_where_declared_first() {
    let section = section(&[("x86", false, &["a", "b"]), ("x86", false, &["a"])]);
    assert_eq!(section.resolver.body.resolve(&strings(&["a", "b"])), Target::Variant(0));
    assert_eq!(section.resolver.body.resolve(&strings(&["a"])), Target::Variant(1));
    assert_eq!(section.resolver.body.resolve(&strings(&["b"])), Target::Generic);
}

#[test]
fn fallback_where_nothing_matches() {
    let section = section(&[("x86", false, &["avx2"]), ("x86", false, &["sse4.1", "fma"])]);
    for present in [strings(&[]), strings(&["fma"]), strings(&["sse4.1", "avx"]), strings(&["neon"])] {
        assert_eq!(
            section.dispatch(&vec![], CellValue::Unresolved, &present),
            resolved(Target::Generic)
        );
    }
}

#[test]
fn static_short_circuit_asks_no_oracle() {
    let section = section(&[("x86", false, &["avx2"]), ("x86", true, &["sse4.1"])]);
    let enabled = strings(&["sse2", "sse4.1"]);
    for cell in [
        CellValue::Unresolved,
        CellValue::Resolved(Target::Generic),
        CellValue::Resolved(Target::Variant(0)),
    ] {
        for present in [strings(&[]), strings(&["avx2", "sse4.1"])] {
            assert_eq!(
                section.dispatch(&enabled, cell, &present),
                Outcome { target: Target::Variant(1), cell, probed: false }
            );
        }
    }
}

#[test]
fn first_guaranteed_static_specialisation_wins() {
    let section = section(&[
        ("x86", true, &["avx512f"]),
        ("x86", false, &["avx2"]),
        ("x86", true, &["avx2", "fma"]),
        ("x86", true, &["avx2"]),
    ]);
    let run = |enabled: &[&str]| section.dispatch(&strings(enabled), CellValue::Unresolved, &vec![]);
    assert_eq!(run(&["avx2"]).target, Target::Variant(3));
    assert_eq!(run(&["avx2", "fma"]).target, Target::Variant(2));
    assert_eq!(run(&["avx512f", "avx2"]).target, Target::Variant(0));
    assert!(!run(&["avx2"]).probed);
    // No static specialisation is guaranteed: the machine decides.
    assert_eq!(run(&["fma"]), resolved(Target::Generic));
}

#[test]
fn build_with_every_feature_runs_the_generic_fallback() {
    let section = section(&[("x86", true, &["avx2"]), ("x86", false, &["sse4.1"])]);
    assert_eq!(
        section.dispatch(&strings(&["sse4.1", "avx2", "fma"]), CellValue::Unresolved, &vec![]),
        Outcome { target: Target::Generic, cell: CellValue::Unresolved, probed: false }
    );
}

#[test]
fn specialisation_that_is_not_static_is_never_chosen_at_compile_time() {
    let section = section(&[("x86", false, &["avx2"]), ("x86", false, &["sse4.1"])]);
    assert_eq!(
        section.dispatch(&strings(&["avx2"]), CellValue::Unresolved, &vec![]),
        resolved(Target::Generic)
    );
}

#[test]
fn avx2_absent_and_sse41_present() {
    let entries: &[(&str, bool, &[&str])] =
        &[("x86", false, &["avx2"]), ("x86", true, &["sse4.1"])];
    let dispatcher = dispatcher(entries, false);
    let section = &dispatcher.sections[0];
    assert_eq!(section.specs[0].ident, "_x86_avx2");
    let present = strings(&["sse4.1"]);
    // The build guarantees sse4.1: chosen at compile time.
    assert_eq!(
        section.dispatch(&strings(&["sse4.1"]), CellValue::Unresolved, &present),
        Outcome { target: Target::Variant(1), cell: CellValue::Unresolved, probed: false }
    );
    // The build guarantees nothing: the resolver runs. The pattern of the
    // avx2 specialisation does not match; that of the sse4.1 specialisation,
    // which has an arm like any other, does.
    let outcome = section.dispatch(&vec![], CellValue::Unresolved, &present);
    assert_eq!(outcome, resolved(Target::Variant(1)));
    assert_eq!(section.specs[1].ident, "_x86_sse41");
    // Whatever was chosen returns what the generic fallback returns.
    assert!(dispatcher.variants.iter().all(|v| v.body.callee == "_generic"));
    assert!(dispatcher.variants.iter().all(|v| v.body.args == vec!["x"]));
    assert_eq!(dispatcher.variants.len(), 2);
    // A machine without either feature ends at the generic fallback itself.
    assert_eq!(
        section.dispatch(&vec![], CellValue::Unresolved, &vec![]),
        resolved(Target::Generic)
    );
}

#[test]
fn calls_after_the_first_agree_with_it() {
    let section = section(&[("x86", false, &["avx2"]), ("x86", false, &["sse4.1"])]);
    for present in [strings(&["sse4.1"]), strings(&["avx2", "sse4.1"]), strings(&[])] {
        let first = section.dispatch(&vec![], CellValue::Unresolved, &present);
        assert!(first.probed);
        let mut cell = first.cell;
        for _ in 0..5 {
            let next = section.dispatch(&vec![], cell, &present);
            assert_eq!(next, Outcome { target: first.target, cell: first.cell, probed: false });
            cell = next.cell;
        }
    }
}

#[test]
fn overlapping_first_calls_store_the_same() {
    let section = section(&[("x86", false, &["avx2"]), ("x86", false, &["sse4.1"])]);
    let present = strings(&["sse4.1"]);
    let alone = section.dispatch(&vec![], CellValue::Unresolved, &present);
    // Three calls that all saw the cell unresolved, and one that saw it
    // after the first store.
    let seen = [CellValue::Unresolved, CellValue::Unresolved, CellValue::Unresolved, alone.cell];
    let mut cell = CellValue::Unresolved;
    for observed in seen {
        let outcome = section.dispatch(&vec![], observed, &present);
        assert_eq!(outcome.target, alone.target);
        assert_eq!(outcome.cell, alone.cell);
        cell = outcome.cell;
    }
    assert_eq!(cell, CellValue::Resolved(Target::Variant(1)));
}

#[test]
fn index_stands_for_one_cell_value() {
    assert_eq!(CellValue::Unresolved.to_index(), 0);
    assert_eq!(CellValue::Resolved(Target::Generic).to_index(), 1);
    assert_eq!(CellValue::Resolved(Target::Variant(0)).to_index(), 2);
    assert_eq!(CellValue::Resolved(Target::Variant(3)).to_index(), 5);
    assert_eq!(CellValue::from_index(0, 4), Some(CellValue::Unresolved));
    assert_eq!(CellValue::from_index(1, 4), Some(CellValue::Resolved(Target::Generic)));
    assert_eq!(CellValue::from_index(2, 4), Some(CellValue::Resolved(Target::Variant(0))));
    assert_eq!(CellValue::from_index(5, 4), Some(CellValue::Resolved(Target::Variant(3))));
    assert_eq!(CellValue::from_index(6, 4), None);
    assert_eq!(CellValue::from_index(2, 0), None);
    assert_eq!(
        CellValue::from_index(usize::MAX, usize::MAX),
        Some(CellValue::Resolved(Target::Variant(usize::MAX - 2)))
    );
    assert_eq!(CellValue::from_index(usize::MAX, usize::MAX - 2), None);
}

#[test]
fn both_strategies_choose_alike() {
    let entries: &[(&str, bool, &[&str])] =
        &[("x86", false, &["avx2"]), ("x86", true, &["sse4.1"]), ("x86", false, &["fma"])];
    let by_pointer = dispatcher(entries, false).sections.remove(0);
    let by_index = dispatcher(entries, true).sections.remove(0);
    for enabled in [strings(&[]), strings(&["sse4.1"])] {
        for present in [strings(&[]), strings(&["fma"]), strings(&["avx2", "fma"])] {
            let mut code = 0;
            let mut cell = CellValue::Unresolved;
            for _ in 0..3 {
                let seen = CellValue::from_index(code, by_index.specs.len()).unwrap();
                let indexed = by_index.dispatch(&enabled, seen, &present);
                let pointed = by_pointer.dispatch(&enabled, cell, &present);
                assert_eq!(indexed, pointed);
                code = indexed.cell.to_index();
                cell = pointed.cell;
            }
        }
    }
}

#[test]
fn outer_function_routes_to_the_section_of_the_build() {
    let dispatcher = dispatcher(
        &[("x86", false, &["avx2"]), ("riscv", false, &["v"]), ("x86", true, &["sse4.1"])],
        false,
    );
    assert_eq!(dispatcher.route("x86"), Some(0));
    assert_eq!(dispatcher.route("x86_64"), Some(0));
    assert_eq!(dispatcher.route("riscv32"), Some(1));
    assert_eq!(dispatcher.route("riscv64"), Some(1));
    assert_eq!(dispatcher.route("aarch64"), None);
    assert_eq!(dispatcher.route("riscv"), None);
    assert_eq!(dispatcher.route(""), None);
}

#[test]
fn outer_function_ends_at_the_generic_fallback_without_a_section() {
    let dispatcher = dispatcher(&[("x86", false, &["avx2"]), ("riscv", false, &["v"])], false);
    let present = strings(&["avx2", "v"]);
    assert_eq!(
        dispatcher.call("aarch64", false, &vec![], CellValue::Unresolved, &present),
        Outcome { target: Target::Generic, cell: CellValue::Unresolved, probed: false }
    );
    assert_eq!(
        dispatcher.call("x86_64", false, &vec![], CellValue::Unresolved, &present),
        resolved(Target::Variant(0))
    );
    assert_eq!(
        dispatcher.call("riscv64", false, &vec![], CellValue::Unresolved, &strings(&["avx2"])),
        resolved(Target::Generic)
    );
}

#[test]
fn const_function_asks_no_oracle_at_compile_time() {
    let function = Function {
        name: "f".to_string(),
        is_const: true,
        is_async: false,
        is_unsafe: false,
        generics: vec![],
        params: vec![],
        has_return_ty: false,
        has_body: true,
    };
    let dispatcher =
        make_special(&declare(&[("x86", false, &["avx2"])]), &function, true).unwrap();
    let present = strings(&["avx2"]);
    assert_eq!(
        dispatcher.call("x86", true, &vec![], CellValue::Unresolved, &present),
        Outcome { target: Target::Generic, cell: CellValue::Unresolved, probed: false }
    );
    assert_eq!(
        dispatcher.call("x86", false, &vec![], CellValue::Unresolved, &present),
        resolved(Target::Variant(0))
    );
}
