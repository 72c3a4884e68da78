//! The analysis of the reference function's signature, and the functions
//! that a dispatcher is built from.

use crate::error::{Error, ErrorKind, Location};
use crate::item::{Attribute, Call, FnDef, FnPointer, Params, Reference, ReturnType, Strategy};
use crate::text::{clone_strings, same_text, texts};
use crate::token::Token;
use vstd::prelude::*;

verus! {

/// The kind of a generic parameter.
#[derive(Clone, Copy, Debug, PartialEq, Eq, Hash, Structural)]
pub enum GenericKind {
    Lifetime,
    Type,
    Const,
}

/// A generic parameter of the reference function.
#[derive(Debug, PartialEq, Eq)]
pub struct GenericParam {
    pub kind: GenericKind,
    pub name: String,
}

/// A parameter of the reference function.
#[derive(Debug, PartialEq, Eq)]
pub enum FnParam {
    /// `self` in one of its forms.
    Receiver,
    /// A parameter with its name and the tokens of its type.
    Typed { name: String, ty: Vec<Token> },
}

/// The reference function, as far as the analysis reads it.
#[derive(Debug, PartialEq, Eq)]
pub struct Function {
    pub name: String,
    pub is_const: bool,
    pub is_async: bool,
    pub is_unsafe: bool,
    pub generics: Vec<GenericParam>,
    pub params: Vec<FnParam>,
    /// Whether a return type is declared.
    pub has_return_ty: bool,
    pub has_body: bool,
}

/// Whether the token is `impl` or a group that holds `impl` at any depth.
pub open spec fn holds_impl(token: Token) -> bool
    decreases token,
{
    match token {
        Token::Ident(name) => name@ == "impl"@,
        Token::Group(_, inner) => exists|k: int| 0 <= k < inner.len() && holds_impl(#[trigger] inner[k]),
        _ => false,
    }
}

/// Whether a type written with these tokens contains an opaque type.
pub open spec fn mentions_impl(ty: Seq<Token>) -> bool {
    exists|k: int| 0 <= k < ty.len() && holds_impl(#[trigger] ty[k])
}

impl FnParam {
    /// Whether the parameter is a receiver: `self` in one of its short
    /// forms, or a typed parameter named `self`.
    pub open spec fn is_receiver(self) -> bool {
        match self {
            FnParam::Receiver => true,
            FnParam::Typed { name, ty } => name@ == "self"@,
        }
    }

    /// The name of the parameter.
    pub open spec fn ident(self) -> Seq<char> {
        match self {
            FnParam::Receiver => "self"@,
            FnParam::Typed { name, ty } => name@,
        }
    }

    /// Whether the type of the parameter contains an opaque type.
    pub open spec fn is_opaque(self) -> bool {
        match self {
            FnParam::Receiver => false,
            FnParam::Typed { name, ty } => mentions_impl(ty@),
        }
    }
}

impl Function {
    /// Whether the analysis accepts the function: it takes no receiver and
    /// has a body.
    pub open spec fn accepted(self) -> bool {
        &&& forall|i: int| 0 <= i < self.params@.len() ==> !(#[trigger] self.params@[i]).is_receiver()
        &&& self.has_body
    }

    /// Whether the analysis rejects the function with this error: that of
    /// the first receiver, or where there is none, that of the missing body.
    pub open spec fn rejected_with(self, e: Error) -> bool {
        ||| exists|i: int|
            {
                &&& 0 <= i < self.params@.len()
                &&& (#[trigger] self.params@[i]).is_receiver()
                &&& forall|j: int| 0 <= j < i ==> !(#[trigger] self.params@[j]).is_receiver()
                &&& e == Error { kind: ErrorKind::Receiver, at: Location::Param(i as usize) }
            }
        ||| {
            &&& forall|i: int|
                0 <= i < self.params@.len() ==> !(#[trigger] self.params@[i]).is_receiver()
            &&& !self.has_body
            &&& e == Error { kind: ErrorKind::MissingBody, at: Location::Nowhere }
        }
    }

    /// The names of the parameters in order.
    pub open spec fn param_names(self) -> Seq<Seq<char>> {
        Seq::new(self.params@.len(), |i: int| self.params@[i].ident())
    }

    /// The names of the lifetime parameters in order.
    pub open spec fn lifetime_names(self) -> Seq<Seq<char>> {
        self.generics@.filter(|g: GenericParam| g.kind == GenericKind::Lifetime).map_values(
            |g: GenericParam| g.name@,
        )
    }

    /// Whether no pointer type describes the function exactly: it is
    /// asynchronous, a parameter's type contains an opaque type, or it has a
    /// generic parameter other than a lifetime.
    pub open spec fn needs_jump_table(self) -> bool {
        ||| self.is_async
        ||| exists|i: int| 0 <= i < self.params@.len() && (#[trigger] self.params@[i]).is_opaque()
        ||| exists|j: int|
            0 <= j < self.generics@.len() && (#[trigger] self.generics@[j]).kind
                != GenericKind::Lifetime
    }
}

/// What the analysis derives from the reference function: the outer and the
/// inner signature, the strategy, and whether a variant is declared `unsafe`.
pub ghost struct Plan {
    pub is_const: bool,
    pub is_async: bool,
    pub is_unsafe: bool,
    /// The names of the lifetime parameters in order.
    pub lifetimes: Seq<Seq<char>>,
    /// Whether the choice is cached as an index, not as an address.
    pub use_jump_table: bool,
    /// The names of the parameters in order.
    pub param_idents: Seq<Seq<char>>,
    /// What a variant returns.
    pub inner_return_ty: ReturnType,
    /// What callers see returned.
    pub outer_return_ty: ReturnType,
    /// Whether calling a variant crosses an unchecked contract.
    pub inner_unsafe: bool,
}

impl Function {
    /// The plan of the dispatcher of the function. The outer return type is
    /// a future of the inner one where the function is asynchronous; a
    /// variant is declared `unsafe` under the pointer strategy, and where
    /// the function is.
    pub open spec fn plan(self) -> Plan {
        Plan {
            is_const: self.is_const,
            is_async: self.is_async,
            is_unsafe: self.is_unsafe,
            lifetimes: self.lifetime_names(),
            use_jump_table: self.needs_jump_table(),
            param_idents: self.param_names(),
            inner_return_ty: ReturnType { declared: self.has_return_ty, future: false },
            outer_return_ty: ReturnType { declared: self.has_return_ty, future: self.is_async },
            inner_unsafe: !self.needs_jump_table() || self.is_unsafe,
        }
    }
}

impl Plan {
    /// The strategy of the plan.
    pub open spec fn strategy(self) -> Strategy {
        if self.use_jump_table {
            Strategy::Index
        } else {
            Strategy::Pointer
        }
    }

    /// Whether a call is that of the dispatcher's function `callee`: on the
    /// parameters in order, in an `unsafe` block where the reference function
    /// is `unsafe`.
    pub open spec fn is_call(self, call: Call, callee: Seq<char>) -> bool {
        &&& call.in_unsafe == self.is_unsafe
        &&& call.callee@ == callee
        &&& texts(call.args@) == self.param_idents
    }

    /// Whether a call is that of the variant `callee`: on the parameters in
    /// order, in an `unsafe` block.
    pub open spec fn is_variant_call(self, call: Call, callee: Seq<char>) -> bool {
        &&& call.in_unsafe
        &&& call.callee@ == callee
        &&& texts(call.args@) == self.param_idents
    }

    /// Whether a function is the generic fallback: the reference function
    /// under the fallback's name, always inlined, with its qualifiers, its
    /// parameters as declared, the inner return type and its own body.
    pub open spec fn is_generic(self, def: FnDef<Reference>) -> bool {
        &&& def.attributes@ == seq![Attribute::InlineAlways]
        &&& def.is_const == self.is_const
        &&& def.is_async == self.is_async
        &&& def.is_unsafe == self.is_unsafe
        &&& def.name@ == generic_name()
        &&& def.params == Params::Declared
        &&& def.return_ty == self.inner_return_ty
    }

    /// Whether a pointer type is that of the variants: quantified over the
    /// lifetime parameters of the reference function, `unsafe` where that
    /// is, with the outer return type.
    pub open spec fn is_ptr(self, ptr: FnPointer) -> bool {
        &&& texts(ptr.lifetimes@) == self.lifetimes
        &&& ptr.is_unsafe == self.is_unsafe
        &&& ptr.return_ty == self.outer_return_ty
    }

    /// Whether a function has the outer signature: never `async`, `const`
    /// and `unsafe` as stated, with the outer parameters and the outer
    /// return type.
    pub open spec fn is_detail<B>(
        self,
        def: FnDef<B>,
        is_const: bool,
        is_unsafe: bool,
        name: Seq<char>,
    ) -> bool {
        &&& def.is_const == is_const
        &&& !def.is_async
        &&& def.is_unsafe == is_unsafe
        &&& def.name@ == name
        &&& def.params == Params::Outer
        &&& def.return_ty == self.outer_return_ty
    }
}

/// Whether `impl` stands among the tokens at any depth.
pub fn contains_impl(tokens: &Vec<Token>) -> (r: bool)
    ensures
        r == mentions_impl(tokens@),
    decreases tokens,
{
    let mut k: usize = 0;
    while k < tokens.len()
        invariant
            k <= tokens@.len(),
            forall|j: int| 0 <= j < k ==> !holds_impl(#[trigger] tokens@[j]),
        decreases tokens@.len() - k,
    {
        let found = match &tokens[k] {
            Token::Ident(name) => same_text(name.as_str(), "impl"),
            Token::Group(_, inner) => contains_impl(inner),
            _ => false,
        };
        if found {
            return true;
        }
        k += 1;
    }
    false
}

/// The plan of a dispatcher, and the builder of its functions.
#[derive(Debug)]
pub struct FnBuilder<'a> {
    pub orig: &'a Function,
    /// Whether the choice is cached as an index, not as an address.
    pub use_jump_table: bool,
    pub param_idents: Vec<String>,
    pub inner_return_ty: ReturnType,
    pub outer_return_ty: ReturnType,
    /// Whether calling a variant crosses an unchecked contract.
    pub inner_unsafe: bool,
}

/// The name of the generic fallback.
pub open spec fn generic_name() -> Seq<char> {
    "_generic"@
}

/// The name of the generic fallback.
pub fn generic_ident() -> (r: String)
    ensures
        r@ == generic_name(),
{
    String::from_str("_generic")
}

/// The name of the wrapper of the generic fallback that a compile-time
/// evaluation calls.
pub fn safe_generic_ident() -> (r: String)
    ensures
        r@ == "_safe_generic"@,
{
    String::from_str("_safe_generic")
}

impl<'a> View for FnBuilder<'a> {
    type V = Plan;

    open spec fn view(&self) -> Plan {
        Plan {
            is_const: self.orig.is_const,
            is_async: self.orig.is_async,
            is_unsafe: self.orig.is_unsafe,
            lifetimes: self.orig.lifetime_names(),
            use_jump_table: self.use_jump_table,
            param_idents: texts(self.param_idents@),
            inner_return_ty: self.inner_return_ty,
            outer_return_ty: self.outer_return_ty,
            inner_unsafe: self.inner_unsafe,
        }
    }
}

impl<'a> FnBuilder<'a> {
    /// Whether the plan is the one of the function, and the function one
    /// that the analysis accepts.
    pub open spec fn wf(&self) -> bool {
        self.orig.accepted() && self@ == self.orig.plan()
    }

    /// Analyses the reference function.
    pub fn new(orig: &'a Function) -> (r: Result<FnBuilder<'a>, Error>)
        ensures
            match r {
                Ok(b) => b.wf() && b.orig == orig,
                Err(e) => orig.rejected_with(e),
            },
    {
        let mut use_jump_table = orig.is_async;
        let mut param_idents: Vec<String> = Vec::new();
        let mut i: usize = 0;
        while i < orig.params.len()
            invariant
                i <= orig.params@.len(),
                forall|j: int| 0 <= j < i ==> !(#[trigger] orig.params@[j]).is_receiver(),
                use_jump_table == (orig.is_async || exists|j: int|
                    0 <= j < i && (#[trigger] orig.params@[j]).is_opaque()),
                texts(param_idents@) == orig.param_names().take(i as int),
            decreases orig.params@.len() - i,
        {
            match &orig.params[i] {
                FnParam::Receiver => {
                    return Err(Error { kind: ErrorKind::Receiver, at: Location::Param(i) });
                },
                FnParam::Typed { name, ty } => {
                    if same_text(name.as_str(), "self") {
                        return Err(Error { kind: ErrorKind::Receiver, at: Location::Param(i) });
                    }
                    if contains_impl(ty) {
                        use_jump_table = true;
                    }
                    let ghost before = texts(param_idents@);
                    param_idents.push(name.clone());
                    assert(texts(param_idents@) =~= before.push(name@));
                },
            }
            assert(texts(param_idents@) =~= orig.param_names().take(i + 1));
            i += 1;
        }
        assert(orig.param_names().take(orig.params@.len() as int) =~= orig.param_names());
        if !orig.has_body {
            return Err(Error { kind: ErrorKind::MissingBody, at: Location::Nowhere });
        }
        let mut j: usize = 0;
        let ghost by_params = use_jump_table;
        while j < orig.generics.len()
            invariant
                j <= orig.generics@.len(),
                use_jump_table == (by_params || exists|k: int|
                    0 <= k < j && (#[trigger] orig.generics@[k]).kind != GenericKind::Lifetime),
            decreases orig.generics@.len() - j,
        {
            match orig.generics[j].kind {
                GenericKind::Lifetime => {},
                _ => {
                    use_jump_table = true;
                },
            }
            j += 1;
        }
        let inner_return_ty = ReturnType { declared: orig.has_return_ty, future: false };
        let outer_return_ty = ReturnType { declared: orig.has_return_ty, future: orig.is_async };
        let inner_unsafe = !use_jump_table || orig.is_unsafe;
        Ok(
            FnBuilder {
                orig,
                use_jump_table,
                param_idents,
                inner_return_ty,
                outer_return_ty,
                inner_unsafe,
            },
        )
    }

    /// The strategy of the plan.
    pub fn strategy(&self) -> (r: Strategy)
        ensures
            r == self@.strategy(),
    {
        if self.use_jump_table {
            Strategy::Index
        } else {
            Strategy::Pointer
        }
    }

    /// A function of the dispatcher. It is `async` or `const` only where it
    /// is asked to copy the qualifier and the reference function has it.
    fn build<B>(
        &self,
        attributes: Vec<Attribute>,
        copy_async: bool,
        copy_const: bool,
        declare_unsafe: bool,
        name: &str,
        params: Params,
        return_ty: ReturnType,
        body: B,
    ) -> (r: FnDef<B>)
        ensures
            r.attributes == attributes,
            r.is_const == (copy_const && self.orig.is_const),
            r.is_async == (copy_async && self.orig.is_async),
            r.is_unsafe == declare_unsafe,
            r.name@ == name@,
            r.params == params,
            r.return_ty == return_ty,
            r.body == body,
    {
        FnDef {
            attributes,
            is_const: copy_const && self.orig.is_const,
            is_async: copy_async && self.orig.is_async,
            is_unsafe: declare_unsafe,
            name: String::from_str(name),
            params,
            return_ty,
            body,
        }
    }

    /// A function with the outer signature: never `async`, with the outer
    /// parameters and the outer return type.
    pub fn build_detail<B>(
        &self,
        attributes: Vec<Attribute>,
        copy_const: bool,
        declare_unsafe: bool,
        name: &str,
        body: B,
    ) -> (r: FnDef<B>)
        ensures
            r.attributes == attributes,
            self@.is_detail(r, copy_const && self.orig.is_const, declare_unsafe, name@),
            r.body == body,
    {
        self.build(
            attributes,
            false,
            copy_const,
            declare_unsafe,
            name,
            Params::Outer,
            self.outer_return_ty,
            body,
        )
    }

    /// The generic fallback.
    pub fn build_generic(&self) -> (r: FnDef<Reference>)
        ensures
            self@.is_generic(r),
    {
        let mut attributes: Vec<Attribute> = Vec::new();
        attributes.push(Attribute::InlineAlways);
        let name = generic_ident();
        self.build(
            attributes,
            true,
            true,
            self.orig.is_unsafe,
            name.as_str(),
            Params::Declared,
            self.inner_return_ty,
            Reference,
        )
    }

    /// The type of a pointer to a variant.
    pub fn build_ptr(&self) -> (r: FnPointer)
        ensures
            self@.is_ptr(r),
    {
        let mut lifetimes: Vec<String> = Vec::new();
        let mut j: usize = 0;
        let ghost keep = |g: GenericParam| g.kind == GenericKind::Lifetime;
        let ghost name = |g: GenericParam| g.name@;
        assert(self.orig.generics@.take(0) =~= Seq::<GenericParam>::empty());
        assert(texts(lifetimes@) =~= self.orig.generics@.take(0).filter(keep).map_values(name)) by {
            reveal(Seq::filter);
        }
        while j < self.orig.generics.len()
            invariant
                j <= self.orig.generics@.len(),
                keep == |g: GenericParam| g.kind == GenericKind::Lifetime,
                name == |g: GenericParam| g.name@,
                texts(lifetimes@) == self.orig.generics@.take(j as int).filter(keep).map_values(
                    name,
                ),
            decreases self.orig.generics@.len() - j,
        {
            let generic = &self.orig.generics[j];
            proof {
                let before = self.orig.generics@.take(j as int);
                let after = self.orig.generics@.take(j + 1);
                assert(after.drop_last() =~= before);
                assert(after.last() == *generic);
                reveal(Seq::filter);
                assert(after.filter(keep) == if keep(*generic) {
                    before.filter(keep).push(*generic)
                } else {
                    before.filter(keep)
                });
            }
            match generic.kind {
                GenericKind::Lifetime => {
                    let ghost before = texts(lifetimes@);
                    lifetimes.push(generic.name.clone());
                    assert(texts(lifetimes@) =~= before.push(generic.name@));
                },
                _ => {},
            }
            assert(texts(lifetimes@) =~= self.orig.generics@.take(j + 1).filter(keep).map_values(
                name,
            ));
            j += 1;
        }
        assert(self.orig.generics@.take(self.orig.generics@.len() as int) =~= self.orig.generics@);
        FnPointer { lifetimes, is_unsafe: self.orig.is_unsafe, return_ty: self.outer_return_ty }
    }

    /// The call of the function named `ident` on the parameters.
    pub fn build_call(&self, ident: &str) -> (r: Call)
        ensures
            self@.is_call(r, ident@),
    {
        Call {
            in_unsafe: self.orig.is_unsafe,
            callee: String::from_str(ident),
            args: clone_strings(&self.param_idents),
        }
    }

    /// The call of the variant named `ident` on the parameters.
    pub fn build_variant_call(&self, ident: &str) -> (r: Call)
        ensures
            self@.is_variant_call(r, ident@),
    {
        Call {
            in_unsafe: true,
            callee: String::from_str(ident),
            args: clone_strings(&self.param_idents),
        }
    }
}

} // verus!
