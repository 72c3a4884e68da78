use maybe_special::builder::{
    contains_impl, generic_ident, safe_generic_ident, FnBuilder, FnParam, Function, GenericKind,
    GenericParam,
};
use maybe_special::error::{Error, ErrorKind, Location};
use maybe_special::item::{
    Attribute, Call, FnDef, FnPointer, Params, Reference, ReturnType, Strategy,
};
use maybe_special::token::{Delimiter, Token};

fn ident(name: &str) -> Token {
    Token::Ident(name.to_string())
}

fn typed(name: &str, ty: Vec<Token>) -> FnParam {
    FnParam::Typed { name: name.to_string(), ty }
}

fn generic(kind: GenericKind, name: &str) -> GenericParam {
    GenericParam { kind, name: name.to_string() }
}

/// `fn dot(a: [u32; 16], b: [u32; 16]) -> u32 { .. }`
fn plain() -> Function {
    let array = || {
        vec![Token::Group(
            Delimiter::Bracket,
            vec![ident("u32"), Token::Punct(';'), Token::literal("16".to_string())],
        )]
    };
    Function {
        name: "dot".to_string(),
        is_const: false,
        is_async: false,
        is_unsafe: false,
        generics: vec![],
        params: vec![typed("a", array()), typed("b", array())],
        has_return_ty: true,
        has_body: true,
    }
}

fn rejected(function: &Function) -> Error {
    FnBuilder::new(function).unwrap_err()
}

#[test]
fn plain_function_uses_pointers() {
    let function = plain();
    let builder = FnBuilder::new(&function).unwrap();
    assert!(!builder.use_jump_table);
    assert_eq!(builder.strategy(), Strategy::Pointer);
    assert_eq!(builder.param_idents, vec!["a", "b"]);
    assert_eq!(builder.inner_return_ty, ReturnType { declared: true, future: false });
    assert_eq!(builder.outer_return_ty, ReturnType { declared: true, future: false });
    assert!(builder.inner_unsafe);
    assert_eq!(builder.orig, &function);
}

#[test]
fn receiver_is_rejected() {
    let mut function = plain();
    function.params.insert(0, FnParam::Receiver);
    assert_eq!(rejected(&function), Error { kind: ErrorKind::Receiver, at: Location::Param(0) });
}

#[test]
fn typed_self_is_rejected() {
    let mut function = plain();
    function.params.push(typed("self", vec![ident("Box"), Token::Punct('<'), ident("Self"), Token::Punct('>')]));
    assert_eq!(rejected(&function), Error { kind: ErrorKind::Receiver, at: Location::Param(2) });
}

#[test]
fn first_receiver_is_reported() {
    let mut function = plain();
    function.params.push(FnParam::Receiver);
    function.params.push(FnParam::Receiver);
    function.has_body = false;
    assert_eq!(rejected(&function), Error { kind: ErrorKind::Receiver, at: Location::Param(2) });
}

#[test]
fn missing_body_is_rejected() {
    let mut function = plain();
    function.has_body = false;
    assert_eq!(rejected(&function), Error { kind: ErrorKind::MissingBody, at: Location::Nowhere });
}

#[test]
fn async_function_uses_the_jump_table() {
    let mut function = plain();
    function.is_async = true;
    let builder = FnBuilder::new(&function).unwrap();
    assert!(builder.use_jump_table);
    assert_eq!(builder.strategy(), Strategy::Index);
    assert_eq!(builder.inner_return_ty, ReturnType { declared: true, future: false });
    assert_eq!(builder.outer_return_ty, ReturnType { declared: true, future: true });
    assert!(!builder.inner_unsafe);
}

#[test]
fn opaque_parameter_type_uses_the_jump_table() {
    let mut function = plain();
    function.params.push(typed("f", vec![ident("impl"), ident("Fn"), Token::Group(Delimiter::Parenthesis, vec![])]));
    assert!(FnBuilder::new(&function).unwrap().use_jump_table);
}

#[test]
fn opaque_type_is_found_inside_groups() {
    let mut function = plain();
    function.params.push(typed(
        "pair",
        vec![Token::Group(
            Delimiter::Parenthesis,
            vec![
                ident("u8"),
                Token::Punct(','),
                Token::Punct('&'),
                Token::Group(Delimiter::Bracket, vec![ident("impl"), ident("Copy")]),
            ],
        )],
    ));
    assert!(FnBuilder::new(&function).unwrap().use_jump_table);
}

#[test]
fn contains_impl_looks_at_identifiers_only() {
    assert!(!contains_impl(&vec![]));
    assert!(!contains_impl(&vec![ident("implement"), ident("Impl")]));
    assert!(!contains_impl(&vec![Token::literal("\"impl\"".to_string())]));
    assert!(contains_impl(&vec![ident("Vec"), Token::Punct('<'), ident("impl"), ident("A"), Token::Punct('>')]));
    assert!(contains_impl(&vec![Token::Group(
        Delimiter::Invisible,
        vec![Token::Group(Delimiter::Brace, vec![ident("impl")])]
    )]));
}

#[test]
fn type_and_const_generics_use_the_jump_table() {
    let mut function = plain();
    function.generics = vec![generic(GenericKind::Lifetime, "a"), generic(GenericKind::Type, "T")];
    assert!(FnBuilder::new(&function).unwrap().use_jump_table);
    function.generics = vec![generic(GenericKind::Const, "N")];
    assert!(FnBuilder::new(&function).unwrap().use_jump_table);
}

#[test]
fn lifetimes_alone_keep_pointers() {
    let mut function = plain();
    function.generics = vec![generic(GenericKind::Lifetime, "a"), generic(GenericKind::Lifetime, "b")];
    let builder = FnBuilder::new(&function).unwrap();
    assert!(!builder.use_jump_table);
    assert_eq!(
        builder.build_ptr(),
        FnPointer {
            lifetimes: vec!["a".to_string(), "b".to_string()],
            is_unsafe: false,
            return_ty: ReturnType { declared: true, future: false },
        }
    );
}

#[test]
fn pointer_type_skips_other_generics() {
    let mut function = plain();
    function.is_unsafe = true;
    function.has_return_ty = false;
    function.generics = vec![
        generic(GenericKind::Type, "T"),
        generic(GenericKind::Lifetime, "a"),
        generic(GenericKind::Const, "N"),
        generic(GenericKind::Lifetime, "b"),
    ];
    assert_eq!(
        FnBuilder::new(&function).unwrap().build_ptr(),
        FnPointer {
            lifetimes: vec!["a".to_string(), "b".to_string()],
            is_unsafe: true,
            return_ty: ReturnType { declared: false, future: false },
        }
    );
}

#[test]
fn unit_return_type_where_none_is_declared() {
    let mut function = plain();
    function.has_return_ty = false;
    function.is_async = true;
    let builder = FnBuilder::new(&function).unwrap();
    assert_eq!(builder.inner_return_ty, ReturnType { declared: false, future: false });
    assert_eq!(builder.outer_return_ty, ReturnType { declared: false, future: true });
}

#[test]
fn unsafe_function_keeps_the_boundary_under_the_jump_table() {
    let mut function = plain();
    function.is_async = true;
    function.is_unsafe = true;
    let builder = FnBuilder::new(&function).unwrap();
    assert!(builder.use_jump_table);
    assert!(builder.inner_unsafe);
}

#[test]
fn fixed_names() {
    assert_eq!(generic_ident(), "_generic");
    assert_eq!(safe_generic_ident(), "_safe_generic");
}

#[test]
fn generic_fallback_is_the_reference_function() {
    let mut function = plain();
    function.is_const = true;
    function.is_unsafe = true;
    let builder = FnBuilder::new(&function).unwrap();
    assert_eq!(
        builder.build_generic(),
        FnDef {
            attributes: vec![Attribute::InlineAlways],
            is_const: true,
            is_async: false,
            is_unsafe: true,
            name: "_generic".to_string(),
            params: Params::Declared,
            return_ty: ReturnType { declared: true, future: false },
            body: Reference,
        }
    );
    let mut function = plain();
    function.is_async = true;
    let builder = FnBuilder::new(&function).unwrap();
    let generic = builder.build_generic();
    assert!(generic.is_async);
    assert!(!generic.is_const);
    assert!(!generic.is_unsafe);
    assert_eq!(generic.return_ty, ReturnType { declared: true, future: false });
}

#[test]
fn detail_has_the_outer_signature() {
    let mut function = plain();
    function.is_async = true;
    function.is_const = true;
    let builder = FnBuilder::new(&function).unwrap();
    assert_eq!(
        builder.build_detail(vec![Attribute::AllowUnreachableCode], true, true, "name", 7u8),
        FnDef {
            attributes: vec![Attribute::AllowUnreachableCode],
            is_const: true,
            is_async: false,
            is_unsafe: true,
            name: "name".to_string(),
            params: Params::Outer,
            return_ty: ReturnType { declared: true, future: true },
            body: 7u8,
        }
    );
    let detail = builder.build_detail(vec![], false, false, "other", ());
    assert!(!detail.is_const);
    assert!(!detail.is_unsafe);
    let function = plain();
    let builder = FnBuilder::new(&function).unwrap();
    assert!(!builder.build_detail(vec![], true, false, "other", ()).is_const);
}

#[test]
fn calls_pass_the_parameters_in_order() {
    let mut function = plain();
    let builder = FnBuilder::new(&function).unwrap();
    assert_eq!(
        builder.build_call("_dispatch_x86"),
        Call {
            in_unsafe: false,
            callee: "_dispatch_x86".to_string(),
            args: vec!["a".to_string(), "b".to_string()],
        }
    );
    assert_eq!(
        builder.build_variant_call("_x86_avx2"),
        Call {
            in_unsafe: true,
            callee: "_x86_avx2".to_string(),
            args: vec!["a".to_string(), "b".to_string()],
        }
    );
    function.is_unsafe = true;
    function.params.clear();
    let builder = FnBuilder::new(&function).unwrap();
    assert_eq!(
        builder.build_call("_generic"),
        Call { in_unsafe: true, callee: "_generic".to_string(), args: vec![] }
    );
}
