//! What stops generation, and where in the input it was found.

use vstd::prelude::*;

verus! {

/// The place in the input that an error is pinned to.
#[derive(Clone, Copy, Debug, PartialEq, Eq, Hash, Structural)]
pub enum Location {
    /// The input ended, or the error belongs to no single token.
    Nowhere,
    /// The token of the specialisation list at this index.
    Attr(usize),
    /// Inside the group at the first index, the token at the second.
    Inner(usize, usize),
    /// The parameter of the function at this index.
    Param(usize),
}

#[derive(Clone, Copy, Debug, PartialEq, Eq, Hash, Structural)]
pub enum ErrorKind {
    /// The annotated item is no function.
    NotAFunction,
    /// The function takes a receiver.
    Receiver,
    /// The function has no body.
    MissingBody,
    /// A specialisation does not start with an architecture.
    ExpectedArchitecture,
    /// The name stands for no supported architecture.
    UnsupportedArchitecture,
    /// No `=` follows the architecture.
    ExpectedEquals,
    /// No bracketed feature list follows the `=`.
    ExpectedFeatureList,
    /// A feature is not a string literal.
    ExpectedStringLiteral,
    /// Two features are not separated by a comma.
    ExpectedComma,
    /// The feature list is empty.
    EmptyFeatureSet,
    /// A manual override does not start with `=>`.
    ExpectedArrow,
    /// No `unsafe` follows the `=>` of a manual override.
    ExpectedUnsafe,
    /// No identifier follows the `unsafe` of a manual override.
    ExpectedIdent,
}

/// An error that aborts generation.
#[derive(Clone, Copy, Debug, PartialEq, Eq, Hash, Structural)]
pub struct Error {
    pub kind: ErrorKind,
    pub at: Location,
}

impl ErrorKind {
    /// What the grammar expected where an error of this kind was raised.
    pub open spec fn expectation(self) -> Seq<char> {
        match self {
            ErrorKind::ExpectedArchitecture => "an architecture"@,
            ErrorKind::ExpectedEquals => "="@,
            ErrorKind::ExpectedFeatureList => "[\"feature\", \"feature\", ...]"@,
            ErrorKind::ExpectedStringLiteral => "a string literal"@,
            ErrorKind::ExpectedComma => ","@,
            ErrorKind::EmptyFeatureSet => "features"@,
            ErrorKind::ExpectedArrow => "=>"@,
            ErrorKind::ExpectedUnsafe => "unsafe"@,
            ErrorKind::ExpectedIdent => "ident"@,
            _ => Seq::empty(),
        }
    }

    fn expected(&self) -> (r: &'static str)
        ensures
            r@ == self.expectation(),
    {
        match self {
            ErrorKind::ExpectedArchitecture => "an architecture",
            ErrorKind::ExpectedEquals => "=",
            ErrorKind::ExpectedFeatureList => "[\"feature\", \"feature\", ...]",
            ErrorKind::ExpectedStringLiteral => "a string literal",
            ErrorKind::ExpectedComma => ",",
            ErrorKind::EmptyFeatureSet => "features",
            ErrorKind::ExpectedArrow => "=>",
            ErrorKind::ExpectedUnsafe => "unsafe",
            ErrorKind::ExpectedIdent => "ident",
            _ => {
                let empty = "";
                proof {
                    reveal_strlit("");
                }
                assert(empty@ =~= Seq::<char>::empty());
                empty
            },
        }
    }
}

impl Error {
    /// The message of the error, where `found` is the offending token as
    /// written in the input.
    pub open spec fn message_text(self, found: Seq<char>) -> Seq<char> {
        match self.kind {
            ErrorKind::NotAFunction => "make_special can only accept fn items"@,
            ErrorKind::Receiver =>
                "make_special cannot take fn items that use self, please read the crate documentation for more details."@,
            ErrorKind::MissingBody => "make_special cannot take fn items without a body"@,
            ErrorKind::UnsupportedArchitecture => found + " is not a supported architecture"@,
            kind => if self.at == Location::Nowhere {
                "expected "@ + kind.expectation() + " but found nothing"@
            } else {
                "expected "@ + kind.expectation() + " but got "@ + found
            },
        }
    }

    /// The message of the error. `found` is the offending token as it stands
    /// in the input; it is not read where the error is pinned to no token.
    pub fn message(&self, found: &str) -> (r: String)
        ensures
            r@ == self.message_text(found@),
    {
        match self.kind {
            ErrorKind::NotAFunction => String::from_str("make_special can only accept fn items"),
            ErrorKind::Receiver => String::from_str(
                "make_special cannot take fn items that use self, please read the crate documentation for more details.",
            ),
            ErrorKind::MissingBody => String::from_str(
                "make_special cannot take fn items without a body",
            ),
            ErrorKind::UnsupportedArchitecture => {
                let mut out = String::from_str(found);
                out.append(" is not a supported architecture");
                out
            },
            kind => {
                let mut out = String::from_str("expected ");
                out.append(kind.expected());
                if self.at == Location::Nowhere {
                    out.append(" but found nothing");
                } else {
                    out.append(" but got ");
                    out.append(found);
                }
                out
            },
        }
    }
}

} // verus!
