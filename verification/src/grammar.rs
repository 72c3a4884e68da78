//! The grammar of a specialisation list as a relation between tokens and
//! what they spell, and the proof that the reader accepts what the grammar
//! describes.

use crate::arch::Architecture;
use crate::error::Error;
use crate::specialisation::{
    auto_ident, bracketed, distinct, entry_at, ident_name, item_fits, lemma_list_error,
    list_error, listed_features, parse_from, tail_at, SpecialisationView,
};
use crate::text::lowercase;
use crate::token::Token;
use vstd::prelude::*;

verus! {

/// One entry of a list as it is written.
pub ghost struct Written {
    /// Whether the entry starts with `static`.
    pub is_static: bool,
    /// The name of the architecture as written.
    pub arch: Seq<char>,
    /// The features in the order listed, with repetitions.
    pub features: Seq<Seq<char>>,
    /// The name that a manual override supplies.
    pub manual: Option<Seq<char>>,
    /// Whether a comma follows the entry.
    pub comma: bool,
}

impl Written {
    /// The number of tokens that the entry takes.
    pub open spec fn width(self) -> int {
        (if self.is_static {
            1int
        } else {
            0int
        }) + 3 + (if self.manual is Some {
            4int
        } else {
            0int
        }) + (if self.comma {
            1int
        } else {
            0int
        })
    }

    /// The specialisation that the entry declares for the architecture that
    /// its name stands for.
    pub open spec fn declared(self, arch: Architecture) -> SpecialisationView {
        SpecialisationView {
            arch,
            features: distinct(self.features),
            is_static: self.is_static,
            is_manual: self.manual is Some,
            ident: match self.manual {
                Some(name) => name,
                None => auto_ident(arch, self.features),
            },
        }
    }
}

/// Whether the tokens of a bracketed group list the features: string
/// literals that denote them, with a comma between neighbours.
pub open spec fn lists(inner: Seq<Token>, features: Seq<Seq<char>>) -> bool {
    &&& features.len() > 0
    &&& inner.len() == 2 * features.len() - 1
    &&& forall|j: int|
        0 <= j < features.len() ==> (#[trigger] inner[2 * j]).string_value() == Some(features[j])
    &&& forall|j: int| 0 <= j < features.len() - 1 ==> (#[trigger] inner[2 * j + 1]).is_punct(',')
}

/// Whether the tokens from `pos` on spell the entry:
///
/// ```text
/// ["static"] architecture "=" "[" feature {"," feature} "]" ["=>" "unsafe" ident] [","]
/// ```
///
/// An entry without a comma ends the list or stands before a token that is
/// no punctuation.
pub open spec fn spells(tokens: Seq<Token>, pos: int, w: Written) -> bool {
    let a = if w.is_static {
        pos + 1
    } else {
        pos
    };
    let q = if w.manual is Some {
        a + 7
    } else {
        a + 3
    };
    &&& 0 <= pos
    &&& pos + w.width() <= tokens.len()
    &&& w.is_static ==> tokens[pos].is_ident("static"@)
    &&& tokens[a].is_ident(w.arch)
    &&& tokens[a + 1].is_punct('=')
    &&& bracketed(tokens[a + 2]) matches Some(inner) && lists(inner, w.features)
    &&& w.manual matches Some(name) ==> {
        &&& tokens[a + 3].is_punct('=')
        &&& tokens[a + 4].is_punct('>')
        &&& tokens[a + 5].is_ident("unsafe"@)
        &&& tokens[a + 6].is_ident(name)
    }
    &&& if w.comma {
        tokens[q].is_punct(',')
    } else {
        q < tokens.len() ==> !(tokens[q] is Punct)
    }
}

/// Whether the tokens from `pos` on spell the entries, one behind the other,
/// and nothing else.
pub open spec fn spells_all(tokens: Seq<Token>, pos: int, entries: Seq<Written>) -> bool
    decreases entries.len(),
{
    if entries.len() == 0 {
        pos == tokens.len()
    } else {
        spells(tokens, pos, entries[0]) && spells_all(
            tokens,
            pos + entries[0].width(),
            entries.drop_first(),
        )
    }
}

/// The specialisations that the entries declare, where every name stands for
/// an architecture.
pub open spec fn declared_all(entries: Seq<Written>) -> Seq<SpecialisationView> {
    Seq::new(
        entries.len(),
        |i: int| entries[i].declared(Architecture::lookup(entries[i].arch).unwrap()),
    )
}

/// `static` is the name of no architecture: the word that opens an entry
/// cannot be taken for the architecture.
pub proof fn lemma_static_is_no_architecture()
    ensures
        Architecture::lookup("static"@) is None,
{
    reveal_strlit("static");
    reveal_strlit("aarch64");
    reveal_strlit("loongarch");
    reveal_strlit("riscv");
    reveal_strlit("x86");
    reveal_strlit("x86_64");
    reveal_strlit("arm");
    reveal_strlit("mips64");
    reveal_strlit("mips32");
    reveal_strlit("mips");
    reveal_strlit("powerpc64");
    reveal_strlit("powerpc32");
    reveal_strlit("powerpc");
    reveal_strlit("s390x");
    let lower = lowercase("static"@);
    assert(lower.len() == 6 && lower[0] == 's');
    assert("aarch64"@.len() == 7);
    assert("loongarch"@.len() == 9);
    assert("riscv"@.len() == 5);
    assert("x86"@.len() == 3);
    assert("x86_64"@.len() == 6 && "x86_64"@[0] == 'x');
    assert("arm"@.len() == 3);
    assert("mips64"@.len() == 6 && "mips64"@[0] == 'm');
    assert("mips32"@.len() == 6 && "mips32"@[0] == 'm');
    assert("mips"@.len() == 4);
    assert("powerpc64"@.len() == 9);
    assert("powerpc32"@.len() == 9);
    assert("powerpc"@.len() == 7);
    assert("s390x"@.len() == 5);
}

/// A group that lists features is read without error, as those features.
pub proof fn lemma_list_read(inner: Seq<Token>, features: Seq<Seq<char>>, group: int)
    requires
        lists(inner, features),
    ensures
        list_error(inner, group, 0) is None,
        listed_features(inner) == features,
{
    assert forall|k: int| 0 <= k < inner.len() implies item_fits(inner, k) by {
        if k % 2 == 0 {
            let j = k / 2;
            assert(inner[2 * j].string_value() == Some(features[j]));
        } else {
            let j = (k - 1) / 2;
            assert(inner[2 * j + 1].is_punct(','));
        }
    }
    lemma_list_error(inner, group, 0);
    assert forall|j: int| 0 <= j < features.len() implies listed_features(inner)[j]
        == features[j] by {
        assert(inner[2 * j].string_value() == Some(features[j]));
    }
    assert(listed_features(inner) =~= features);
}

/// An entry that the tokens spell is read as the specialisation that it
/// declares, and reading goes on behind it.
pub proof fn lemma_entry_read(tokens: Seq<Token>, pos: int, w: Written, arch: Architecture)
    requires
        spells(tokens, pos, w),
        Architecture::lookup(w.arch) == Some(arch),
    ensures
        0 <= pos < tokens.len(),
        tokens[pos] is Ident,
        entry_at(tokens, pos) == Ok::<(SpecialisationView, int), Error>(
            (w.declared(arch), pos + w.width()),
        ),
{
    lemma_static_is_no_architecture();
    let a = if w.is_static {
        pos + 1
    } else {
        pos
    };
    let inner = bracketed(tokens[a + 2]).unwrap();
    lemma_list_read(inner, w.features, a + 2);
    let entry = SpecialisationView {
        arch,
        features: distinct(w.features),
        is_static: w.is_static,
        is_manual: false,
        ident: auto_ident(arch, w.features),
    };
    assert(tail_at(tokens, a + 3, entry) == Ok::<(SpecialisationView, int), Error>(
        (w.declared(arch), pos + w.width()),
    ));
}

/// A list that the tokens spell, with names that stand for architectures, is
/// read as the specialisations that its entries declare, in order.
pub proof fn lemma_list_accepted(tokens: Seq<Token>, pos: int, entries: Seq<Written>)
    requires
        spells_all(tokens, pos, entries),
        0 <= pos <= tokens.len(),
        forall|i: int|
            0 <= i < entries.len() ==> Architecture::lookup((#[trigger] entries[i]).arch) is Some,
    ensures
        parse_from(tokens, pos) == Ok::<Seq<SpecialisationView>, Error>(
            declared_all(entries),
        ),
    decreases entries.len(),
{
    if entries.len() == 0 {
        assert(declared_all(entries) =~= Seq::<SpecialisationView>::empty());
    } else {
        let w = entries[0];
        let arch = Architecture::lookup(w.arch).unwrap();
        lemma_entry_read(tokens, pos, w, arch);
        let rest = entries.drop_first();
        assert forall|i: int| 0 <= i < rest.len() implies Architecture::lookup(
            (#[trigger] rest[i]).arch,
        ) is Some by {
            assert(rest[i] == entries[i + 1]);
        }
        lemma_list_accepted(tokens, pos + w.width(), rest);
        assert(seq![w.declared(arch)] + declared_all(rest) =~= declared_all(entries));
    }
}

/// The entry that the reader takes the tokens from `pos` on for.
spec fn taken(tokens: Seq<Token>, pos: int) -> Written {
    let a = if tokens[pos].is_ident("static"@) {
        pos + 1
    } else {
        pos
    };
    let manual = a + 3 < tokens.len() && tokens[a + 3].is_punct('=');
    let q = if manual {
        a + 7
    } else {
        a + 3
    };
    Written {
        is_static: a != pos,
        arch: ident_name(tokens[a]).unwrap(),
        features: listed_features(bracketed(tokens[a + 2]).unwrap()),
        manual: if manual {
            Some(ident_name(tokens[a + 6]).unwrap())
        } else {
            None
        },
        comma: q < tokens.len() && tokens[q].is_punct(','),
    }
}

/// An entry that is read without error is spelled by the tokens, but for
/// what follows it.
proof fn lemma_entry_spelled(tokens: Seq<Token>, pos: int)
    requires
        0 <= pos < tokens.len(),
        tokens[pos] is Ident,
        entry_at(tokens, pos) is Ok,
    ensures
        ({
            let w = taken(tokens, pos);
            let (entry, next) = entry_at(tokens, pos).unwrap();
            &&& next == pos + w.width()
            &&& next <= tokens.len()
            &&& Architecture::lookup(w.arch) is Some
            &&& entry == w.declared(Architecture::lookup(w.arch).unwrap())
            &&& (w.comma || next == tokens.len() || tokens[next] is Ident) ==> spells(
                tokens,
                pos,
                w,
            )
        }),
{
    let w = taken(tokens, pos);
    let a = if tokens[pos].is_ident("static"@) {
        pos + 1
    } else {
        pos
    };
    let inner = bracketed(tokens[a + 2]).unwrap();
    lemma_list_error(inner, a + 2, 0);
    assert(lists(inner, w.features)) by {
        assert forall|j: int| 0 <= j < w.features.len() implies (#[trigger] inner[2 * j]).string_value()
            == Some(w.features[j]) by {
            assert(item_fits(inner, 2 * j));
        }
        assert forall|j: int| 0 <= j < w.features.len() - 1 implies (#[trigger] inner[2 * j
            + 1]).is_punct(',') by {
            assert(item_fits(inner, 2 * j + 1));
        }
    }
}

/// A list that is read without error is spelled by the tokens: the reader
/// accepts nothing but what the grammar describes, and gives what the
/// entries declare.
pub proof fn lemma_list_spelled(tokens: Seq<Token>, pos: int)
    requires
        0 <= pos <= tokens.len(),
        parse_from(tokens, pos) is Ok,
    ensures
        exists|entries: Seq<Written>|
            {
                &&& #[trigger] spells_all(tokens, pos, entries)
                &&& forall|i: int|
                    0 <= i < entries.len() ==> Architecture::lookup(
                        (#[trigger] entries[i]).arch,
                    ) is Some
                &&& parse_from(tokens, pos) == Ok::<Seq<SpecialisationView>, Error>(
                    declared_all(entries),
                )
            },
    decreases tokens.len() - pos,
{
    if pos == tokens.len() {
        let entries = Seq::<Written>::empty();
        assert(declared_all(entries) =~= Seq::<SpecialisationView>::empty());
        assert(spells_all(tokens, pos, entries));
    } else {
        lemma_entry_spelled(tokens, pos);
        let w = taken(tokens, pos);
        let next = pos + w.width();
        lemma_list_spelled(tokens, next);
        let rest = choose|rest: Seq<Written>|
            {
                &&& #[trigger] spells_all(tokens, next, rest)
                &&& forall|i: int|
                    0 <= i < rest.len() ==> Architecture::lookup((#[trigger] rest[i]).arch) is Some
                &&& parse_from(tokens, next) == Ok::<Seq<SpecialisationView>, Error>(
                    declared_all(rest),
                )
            };
        let entries = seq![w] + rest;
        assert(entries.drop_first() =~= rest);
        assert(entries[0] == w);
        assert(spells_all(tokens, pos, entries));
        assert forall|i: int| 0 <= i < entries.len() implies Architecture::lookup(
            (#[trigger] entries[i]).arch,
        ) is Some by {
            if i > 0 {
                assert(entries[i] == rest[i - 1]);
            }
        }
        lemma_list_accepted(tokens, pos, entries);
    }
}

} // verus!
