//! Specialisations and the grammar of the list that declares them.
//!
//! A list is a sequence of entries, each optionally followed by a comma:
//!
//! ```text
//! ["static"] architecture "=" "[" feature {"," feature} "]" ["=>" "unsafe" ident]
//! ```
//!
//! where a feature is a string literal.

use crate::arch::{lemma_name_is_plain, Architecture};
use crate::error::{Error, ErrorKind, Location};
use crate::text::{
    contains_text, is_ident_char, is_identifier, push_sanitized, sanitized, texts,
};
use crate::token::{Delimiter, Token};
use vstd::prelude::*;

verus! {

/// One hardware-specific variant of the function: valid on builds for `arch`
/// where every feature of `features` is present.
#[derive(Debug, PartialEq, Eq)]
pub struct Specialisation {
    pub arch: Architecture,
    /// The required features: not empty, each once, in the order written.
    pub features: Vec<String>,
    /// Whether the variant is chosen at compile time where the build
    /// guarantees its features.
    pub is_static: bool,
    /// Whether the body is supplied by the caller under `ident`, not derived
    /// from the reference implementation.
    pub is_manual: bool,
    /// The name of the variant.
    pub ident: String,
}

/// The specialisations declared for one architecture, in the order written.
#[derive(Debug, PartialEq, Eq)]
pub struct ArchGroup {
    pub arch: Architecture,
    pub specs: Vec<Specialisation>,
}

/// A group as a mathematical value.
pub ghost struct ArchGroupView {
    pub arch: Architecture,
    pub specs: Seq<SpecialisationView>,
}

/// A specialisation as a mathematical value.
pub ghost struct SpecialisationView {
    pub arch: Architecture,
    pub features: Seq<Seq<char>>,
    pub is_static: bool,
    pub is_manual: bool,
    pub ident: Seq<char>,
}

impl View for Specialisation {
    type V = SpecialisationView;

    open spec fn view(&self) -> SpecialisationView {
        SpecialisationView {
            arch: self.arch,
            features: texts(self.features@),
            is_static: self.is_static,
            is_manual: self.is_manual,
            ident: self.ident@,
        }
    }
}

/// The values of a sequence of specialisations.
pub open spec fn spec_views(specs: Seq<Specialisation>) -> Seq<SpecialisationView> {
    specs.map_values(|s: Specialisation| s@)
}

impl View for ArchGroup {
    type V = ArchGroupView;

    open spec fn view(&self) -> ArchGroupView {
        ArchGroupView { arch: self.arch, specs: spec_views(self.specs@) }
    }
}

/// The values of a sequence of groups.
pub open spec fn group_views(groups: Seq<ArchGroup>) -> Seq<ArchGroupView> {
    groups.map_values(|g: ArchGroup| g@)
}

impl ArchGroupView {
    /// A group is not empty, and holds specialisations of its architecture
    /// whose feature sets are sound.
    pub open spec fn wf(self) -> bool {
        &&& self.specs.len() > 0
        &&& forall|i: int|
            0 <= i < self.specs.len() ==> (#[trigger] self.specs[i]).arch == self.arch
                && self.specs[i].wf()
    }
}

impl SpecialisationView {
    /// A feature set is never empty and holds each feature once.
    pub open spec fn wf(self) -> bool {
        self.features.len() > 0 && self.features.no_duplicates()
    }
}

/// The items of a list without repetitions, each where it first occurs.
pub open spec fn distinct(items: Seq<Seq<char>>) -> Seq<Seq<char>>
    decreases items.len(),
{
    if items.len() == 0 {
        Seq::empty()
    } else {
        let init = distinct(items.drop_last());
        if init.contains(items.last()) {
            init
        } else {
            init.push(items.last())
        }
    }
}

/// The name derived for a variant: `_`, the architecture's name, and for each
/// listed feature `_` and those of its characters that may stand in an
/// identifier.
pub open spec fn auto_ident(arch: Architecture, listed: Seq<Seq<char>>) -> Seq<char>
    decreases listed.len(),
{
    if listed.len() == 0 {
        seq!['_'] + arch.name()
    } else {
        auto_ident(arch, listed.drop_last()) + seq!['_'] + sanitized(listed.last())
    }
}

/// `distinct` keeps exactly the items of the list, and each once.
pub proof fn lemma_distinct(items: Seq<Seq<char>>)
    ensures
        distinct(items).no_duplicates(),
        forall|x: Seq<char>| #[trigger] distinct(items).contains(x) <==> items.contains(x),
        items.len() > 0 ==> distinct(items).len() > 0,
        distinct(items).len() <= items.len(),
    decreases items.len(),
{
    if items.len() > 0 {
        let init_items = items.drop_last();
        let init = distinct(init_items);
        lemma_distinct(init_items);
        assert forall|x: Seq<char>| #[trigger]
            distinct(items).contains(x) <==> items.contains(x) by {
            if items.contains(x) {
                let i = choose|i: int| 0 <= i < items.len() && items[i] == x;
                if i < items.len() - 1 {
                    assert(init_items[i] == x);
                    assert(init_items.contains(x));
                    assert(init.contains(x));
                    if !init.contains(items.last()) {
                        let j = choose|j: int| 0 <= j < init.len() && init[j] == x;
                        assert(init.push(items.last())[j] == x);
                    }
                } else {
                    if !init.contains(items.last()) {
                        assert(init.push(items.last())[init.len() as int] == x);
                    }
                }
            }
            if distinct(items).contains(x) {
                let j = choose|j: int| 0 <= j < distinct(items).len() && distinct(items)[j] == x;
                if j < init.len() {
                    assert(init[j] == x);
                    assert(init.contains(x));
                    assert(init_items.contains(x));
                    let i = choose|i: int| 0 <= i < init_items.len() && init_items[i] == x;
                    assert(items[i] == x);
                } else {
                    assert(items[items.len() - 1] == x);
                }
            }
        }
        if items.len() == 1 {
            assert(init_items.len() == 0);
            assert(init.len() == 0);
        }
    }
}

/// The tokens inside a bracketed group; of any other token, none.
pub open spec fn bracketed(token: Token) -> Option<Seq<Token>> {
    match token {
        Token::Group(Delimiter::Bracket, inner) => Some(inner@),
        _ => None,
    }
}

/// The name that an identifier token holds; of any other token, none.
pub open spec fn ident_name(token: Token) -> Option<Seq<char>> {
    match token {
        Token::Ident(name) => Some(name@),
        _ => None,
    }
}

/// Whether the token at `k` of a feature list is what its place asks for: a
/// string literal at an even place, a comma at an odd one.
pub open spec fn item_fits(inner: Seq<Token>, k: int) -> bool {
    if k % 2 == 0 {
        inner[k].string_value() is Some
    } else {
        inner[k].is_punct(',')
    }
}

/// The first error of the feature list of the group at `group`, looking from
/// its token `k` on; `None` where the list is sound from there.
pub open spec fn list_error(inner: Seq<Token>, group: int, k: int) -> Option<Error>
    decreases inner.len() - k,
{
    if k >= inner.len() {
        if k % 2 == 1 {
            None
        } else if k == 0 {
            Some(Error { kind: ErrorKind::EmptyFeatureSet, at: Location::Nowhere })
        } else {
            Some(Error { kind: ErrorKind::ExpectedStringLiteral, at: Location::Nowhere })
        }
    } else if item_fits(inner, k) {
        list_error(inner, group, k + 1)
    } else {
        Some(
            Error {
                kind: if k % 2 == 0 {
                    ErrorKind::ExpectedStringLiteral
                } else {
                    ErrorKind::ExpectedComma
                },
                at: Location::Inner(group as usize, k as usize),
            },
        )
    }
}

/// The features that a sound feature list names, in the order written and
/// with repetitions.
pub open spec fn listed_features(inner: Seq<Token>) -> Seq<Seq<char>> {
    Seq::new(((inner.len() + 1) / 2) as nat, |j: int| inner[2 * j].string_value().unwrap())
}

/// The error for a token that is missing or wrong at index `at`: pinned to
/// the token, or to nothing where the input ends before it.
pub open spec fn unmet(kind: ErrorKind, tokens: Seq<Token>, at: int) -> Error {
    Error {
        kind,
        at: if at < tokens.len() {
            Location::Attr(at as usize)
        } else {
            Location::Nowhere
        },
    }
}

/// What may follow the feature list of an entry, from index `p` on: a comma,
/// a manual override with or without a comma after it, or nothing. Gives the
/// finished entry and the index at which the next one starts.
pub open spec fn tail_at(tokens: Seq<Token>, p: int, entry: SpecialisationView) -> Result<
    (SpecialisationView, int),
    Error,
> {
    if p < tokens.len() && tokens[p] is Punct {
        if tokens[p].is_punct(',') {
            Ok((entry, p + 1))
        } else if !tokens[p].is_punct('=') {
            Err(unmet(ErrorKind::ExpectedArrow, tokens, p))
        } else if !(p + 1 < tokens.len() && tokens[p + 1].is_punct('>')) {
            Err(unmet(ErrorKind::ExpectedArrow, tokens, p + 1))
        } else if !(p + 2 < tokens.len() && tokens[p + 2].is_ident("unsafe"@)) {
            Err(unmet(ErrorKind::ExpectedUnsafe, tokens, p + 2))
        } else if !(p + 3 < tokens.len() && tokens[p + 3] is Ident) {
            Err(unmet(ErrorKind::ExpectedIdent, tokens, p + 3))
        } else {
            let manual = SpecialisationView {
                is_manual: true,
                ident: ident_name(tokens[p + 3]).unwrap(),
                ..entry
            };
            if p + 4 < tokens.len() && tokens[p + 4].is_punct(',') {
                Ok((manual, p + 5))
            } else {
                Ok((manual, p + 4))
            }
        }
    } else {
        Ok((entry, p))
    }
}

/// The entry that starts with the identifier at `pos`, and the index at which
/// the next one starts.
pub open spec fn entry_at(tokens: Seq<Token>, pos: int) -> Result<(SpecialisationView, int), Error>
    recommends
        0 <= pos < tokens.len(),
        tokens[pos] is Ident,
{
    let a = if tokens[pos].is_ident("static"@) {
        pos + 1
    } else {
        pos
    };
    if !(a < tokens.len() && tokens[a] is Ident) {
        Err(unmet(ErrorKind::ExpectedArchitecture, tokens, a))
    } else {
        match Architecture::lookup(ident_name(tokens[a]).unwrap()) {
            None => Err(unmet(ErrorKind::UnsupportedArchitecture, tokens, a)),
            Some(arch) => {
                if !(a + 1 < tokens.len() && tokens[a + 1].is_punct('=')) {
                    Err(unmet(ErrorKind::ExpectedEquals, tokens, a + 1))
                } else if !(a + 2 < tokens.len() && bracketed(tokens[a + 2]) is Some) {
                    Err(unmet(ErrorKind::ExpectedFeatureList, tokens, a + 2))
                } else {
                    let inner = bracketed(tokens[a + 2]).unwrap();
                    match list_error(inner, a + 2, 0) {
                        Some(e) => Err(e),
                        None => {
                            let listed = listed_features(inner);
                            tail_at(
                                tokens,
                                a + 3,
                                SpecialisationView {
                                    arch,
                                    features: distinct(listed),
                                    is_static: a != pos,
                                    is_manual: false,
                                    ident: auto_ident(arch, listed),
                                },
                            )
                        },
                    }
                }
            },
        }
    }
}

/// The entries of the list from index `pos` on, in the order written, or the
/// first error.
pub open spec fn parse_from(tokens: Seq<Token>, pos: int) -> Result<Seq<SpecialisationView>, Error>
    decreases tokens.len() - pos,
{
    if pos < 0 || pos >= tokens.len() {
        Ok(Seq::empty())
    } else if !(tokens[pos] is Ident) {
        Err(unmet(ErrorKind::ExpectedArchitecture, tokens, pos))
    } else {
        match entry_at(tokens, pos) {
            Err(e) => Err(e),
            Ok((entry, next)) => {
                match parse_from(tokens, next) {
                    Ok(rest) => Ok(seq![entry] + rest),
                    Err(e) => Err(e),
                }
            },
        }
    }
}

/// The architectures of the entries, each where its first entry stands.
pub open spec fn archs_of(entries: Seq<SpecialisationView>) -> Seq<Architecture>
    decreases entries.len(),
{
    if entries.len() == 0 {
        Seq::empty()
    } else {
        let init = archs_of(entries.drop_last());
        if init.contains(entries.last().arch) {
            init
        } else {
            init.push(entries.last().arch)
        }
    }
}

/// The entries declared for `arch`, in the order written.
pub open spec fn of_arch(entries: Seq<SpecialisationView>, arch: Architecture) -> Seq<
    SpecialisationView,
> {
    entries.filter(|e: SpecialisationView| e.arch == arch)
}

/// The entries grouped by architecture: one group for each architecture that
/// has an entry, in the order in which the architectures first occur, each
/// holding the architecture's entries in the order written.
pub open spec fn grouped(entries: Seq<SpecialisationView>) -> Seq<ArchGroupView> {
    Seq::new(
        archs_of(entries).len(),
        |g: int| ArchGroupView { arch: archs_of(entries)[g], specs: of_arch(entries, archs_of(entries)[g]) },
    )
}

/// Reads the feature list inside the group at `group`.
fn scan_list(inner: &Vec<Token>, group: usize) -> (r: Result<Vec<String>, Error>)
    ensures
        match list_error(inner@, group as int, 0) {
            Some(e) => r == Err::<Vec<String>, Error>(e),
            None => r matches Ok(listed) && texts(listed@) == listed_features(inner@),
        },
{
    let n: usize = inner.len();
    let mut listed: Vec<String> = Vec::new();
    let mut k: usize = 0;
    while k < n
        invariant
            k <= n,
            n == inner@.len(),
            list_error(inner@, group as int, 0) == list_error(inner@, group as int, k as int),
            listed@.len() == (k + 1) / 2,
            forall|j: int| 0 <= j < listed@.len() ==> (#[trigger] listed@[j])@ == inner@[2 * j].string_value().unwrap(),
        decreases n - k,
    {
        if k % 2 == 0 {
            match &inner[k] {
                Token::Literal { text, value: Some(s) } => {
                    listed.push(s.clone());
                },
                _ => {
                    return Err(
                        Error {
                            kind: ErrorKind::ExpectedStringLiteral,
                            at: Location::Inner(group, k),
                        },
                    );
                },
            }
        } else {
            match &inner[k] {
                Token::Punct(c) => {
                    if *c != ',' {
                        return Err(
                            Error { kind: ErrorKind::ExpectedComma, at: Location::Inner(group, k) },
                        );
                    }
                },
                _ => {
                    return Err(
                        Error { kind: ErrorKind::ExpectedComma, at: Location::Inner(group, k) },
                    );
                },
            }
        }
        k += 1;
    }
    if n % 2 == 0 {
        if n == 0 {
            return Err(Error { kind: ErrorKind::EmptyFeatureSet, at: Location::Nowhere });
        }
        return Err(Error { kind: ErrorKind::ExpectedStringLiteral, at: Location::Nowhere });
    }
    assert(texts(listed@) =~= listed_features(inner@));
    Ok(listed)
}

/// The listed features without repetitions.
fn dedup(listed: &Vec<String>) -> (r: Vec<String>)
    ensures
        texts(r@) == distinct(texts(listed@)),
{
    let mut out: Vec<String> = Vec::new();
    let mut i: usize = 0;
    assert(texts(listed@).take(0) =~= Seq::<Seq<char>>::empty());
    while i < listed.len()
        invariant
            i <= listed@.len(),
            texts(out@) == distinct(texts(listed@).take(i as int)),
        decreases listed@.len() - i,
    {
        let ghost before = texts(listed@).take(i as int);
        let ghost after = texts(listed@).take(i + 1);
        assert(after.drop_last() =~= before);
        assert(after.last() == listed@[i as int]@);
        if !contains_text(&out, listed[i].as_str()) {
            let ghost old_out = texts(out@);
            out.push(listed[i].clone());
            assert(texts(out@) =~= old_out.push(listed@[i as int]@));
        }
        i += 1;
    }
    assert(texts(listed@).take(listed@.len() as int) =~= texts(listed@));
    out
}

/// The name derived for the variant of `arch` with the listed features.
fn auto_ident_of(arch: Architecture, listed: &Vec<String>) -> (r: String)
    ensures
        r@ == auto_ident(arch, texts(listed@)),
{
    let mut out = String::from_str("_");
    out.append(arch.as_str());
    proof {
        reveal_strlit("_");
        assert("_"@ =~= seq!['_']);
        assert(texts(listed@).take(0) =~= Seq::<Seq<char>>::empty());
    }
    let mut i: usize = 0;
    while i < listed.len()
        invariant
            i <= listed@.len(),
            out@ == auto_ident(arch, texts(listed@).take(i as int)),
        decreases listed@.len() - i,
    {
        let ghost before = texts(listed@).take(i as int);
        let ghost after = texts(listed@).take(i + 1);
        assert(after.drop_last() =~= before);
        assert(after.last() == listed@[i as int]@);
        out.push('_');
        push_sanitized(&mut out, listed[i].as_str());
        assert(out@ =~= auto_ident(arch, before) + seq!['_'] + sanitized(listed@[i as int]@));
        i += 1;
    }
    assert(texts(listed@).take(listed@.len() as int) =~= texts(listed@));
    out
}

/// Reads what may follow the feature list of an entry, from index `p` on.
fn parse_tail(tokens: &Vec<Token>, p: usize, entry: Specialisation) -> (r: Result<
    (Specialisation, usize),
    Error,
>)
    requires
        p <= tokens@.len(),
    ensures
        match tail_at(tokens@, p as int, entry@) {
            Ok((e, next)) => r matches Ok((spec, n)) && spec@ == e && n == next,
            Err(e) => r == Err::<(Specialisation, usize), Error>(e),
        },
{
    let n: usize = tokens.len();
    if p >= n {
        return Ok((entry, p));
    }
    match &tokens[p] {
        Token::Punct(c) => {
            if *c == ',' {
                return Ok((entry, p + 1));
            }
            if *c != '=' {
                return Err(Error { kind: ErrorKind::ExpectedArrow, at: Location::Attr(p) });
            }
        },
        _ => {
            return Ok((entry, p));
        },
    }
    if p + 1 >= n {
        return Err(Error { kind: ErrorKind::ExpectedArrow, at: Location::Nowhere });
    }
    if !tokens[p + 1].matches_punct('>') {
        return Err(Error { kind: ErrorKind::ExpectedArrow, at: Location::Attr(p + 1) });
    }
    if p + 2 >= n {
        return Err(Error { kind: ErrorKind::ExpectedUnsafe, at: Location::Nowhere });
    }
    if !tokens[p + 2].matches_ident("unsafe") {
        return Err(Error { kind: ErrorKind::ExpectedUnsafe, at: Location::Attr(p + 2) });
    }
    if p + 3 >= n {
        return Err(Error { kind: ErrorKind::ExpectedIdent, at: Location::Nowhere });
    }
    let ident = match &tokens[p + 3] {
        Token::Ident(name) => name.clone(),
        _ => {
            return Err(Error { kind: ErrorKind::ExpectedIdent, at: Location::Attr(p + 3) });
        },
    };
    let manual = Specialisation {
        arch: entry.arch,
        features: entry.features,
        is_static: entry.is_static,
        is_manual: true,
        ident,
    };
    if p + 4 < n && tokens[p + 4].matches_punct(',') {
        Ok((manual, p + 5))
    } else {
        Ok((manual, p + 4))
    }
}

/// Reads the entry that starts with the identifier at `pos`.
fn parse_entry(tokens: &Vec<Token>, pos: usize) -> (r: Result<(Specialisation, usize), Error>)
    requires
        pos < tokens@.len(),
        tokens@[pos as int] is Ident,
    ensures
        match entry_at(tokens@, pos as int) {
            Ok((e, next)) => r matches Ok((spec, n)) && spec@ == e && n == next,
            Err(e) => r == Err::<(Specialisation, usize), Error>(e),
        },
{
    let n: usize = tokens.len();
    let is_static = tokens[pos].matches_ident("static");
    let a: usize = if is_static {
        pos + 1
    } else {
        pos
    };
    if a >= n {
        return Err(Error { kind: ErrorKind::ExpectedArchitecture, at: Location::Nowhere });
    }
    let arch = match &tokens[a] {
        Token::Ident(name) => match Architecture::from_str(name.as_str()) {
            Ok(arch) => arch,
            Err(_) => {
                return Err(
                    Error { kind: ErrorKind::UnsupportedArchitecture, at: Location::Attr(a) },
                );
            },
        },
        _ => {
            return Err(Error { kind: ErrorKind::ExpectedArchitecture, at: Location::Attr(a) });
        },
    };
    if a + 1 >= n {
        return Err(Error { kind: ErrorKind::ExpectedEquals, at: Location::Nowhere });
    }
    if !tokens[a + 1].matches_punct('=') {
        return Err(Error { kind: ErrorKind::ExpectedEquals, at: Location::Attr(a + 1) });
    }
    if a + 2 >= n {
        return Err(Error { kind: ErrorKind::ExpectedFeatureList, at: Location::Nowhere });
    }
    let listed = match &tokens[a + 2] {
        Token::Group(Delimiter::Bracket, inner) => match scan_list(inner, a + 2) {
            Ok(listed) => listed,
            Err(e) => {
                return Err(e);
            },
        },
        _ => {
            return Err(Error { kind: ErrorKind::ExpectedFeatureList, at: Location::Attr(a + 2) });
        },
    };
    let features = dedup(&listed);
    let ident = auto_ident_of(arch, &listed);
    let entry = Specialisation { arch, features, is_static, is_manual: false, ident };
    parse_tail(tokens, a + 3, entry)
}

/// `archs_of` names each architecture once, and exactly those that have an
/// entry.
pub proof fn lemma_archs_of(entries: Seq<SpecialisationView>)
    ensures
        archs_of(entries).no_duplicates(),
        forall|a: Architecture| #[trigger]
            archs_of(entries).contains(a) <==> exists|i: int|
                0 <= i < entries.len() && (#[trigger] entries[i]).arch == a,
    decreases entries.len(),
{
    if entries.len() > 0 {
        let init_entries = entries.drop_last();
        let init = archs_of(init_entries);
        let last = entries.last().arch;
        lemma_archs_of(init_entries);
        assert forall|a: Architecture| #[trigger]
            archs_of(entries).contains(a) <==> exists|i: int|
                0 <= i < entries.len() && (#[trigger] entries[i]).arch == a by {
            if archs_of(entries).contains(a) {
                let j = choose|j: int| 0 <= j < archs_of(entries).len() && archs_of(entries)[j] == a;
                if j < init.len() {
                    assert(init[j] == a);
                    assert(init.contains(a));
                    let i = choose|i: int|
                        0 <= i < init_entries.len() && (#[trigger] init_entries[i]).arch == a;
                    assert(entries[i].arch == a);
                } else {
                    assert(entries[entries.len() - 1].arch == a);
                }
            }
            if exists|i: int| 0 <= i < entries.len() && (#[trigger] entries[i]).arch == a {
                let i = choose|i: int| 0 <= i < entries.len() && (#[trigger] entries[i]).arch == a;
                if i < entries.len() - 1 {
                    assert(init_entries[i].arch == a);
                    assert(init.contains(a));
                    let j = choose|j: int| 0 <= j < init.len() && init[j] == a;
                    assert(archs_of(entries)[j] == a);
                } else if init.contains(last) {
                } else {
                    assert(archs_of(entries)[init.len() as int] == a);
                }
            }
        }
    }
}

/// An architecture that `archs_of` does not name has no entry.
proof fn lemma_of_arch_absent(entries: Seq<SpecialisationView>, arch: Architecture)
    requires
        !archs_of(entries).contains(arch),
    ensures
        of_arch(entries, arch) == Seq::<SpecialisationView>::empty(),
    decreases entries.len(),
{
    reveal(Seq::filter);
    if entries.len() > 0 {
        let init = archs_of(entries.drop_last());
        if init.contains(arch) {
            let j = choose|j: int| 0 <= j < init.len() && init[j] == arch;
            assert(archs_of(entries)[j] == arch);
        }
        if entries.last().arch == arch && !init.contains(arch) {
            assert(archs_of(entries)[init.len() as int] == arch);
        }
        lemma_of_arch_absent(entries.drop_last(), arch);
    }
}

/// One more entry for an architecture that has a group joins that group.
proof fn lemma_grouped_extend(entries: Seq<SpecialisationView>, e: SpecialisationView, g: int)
    requires
        0 <= g < archs_of(entries).len(),
        archs_of(entries)[g] == e.arch,
    ensures
        grouped(entries.push(e)) == grouped(entries).update(
            g,
            ArchGroupView { arch: e.arch, specs: grouped(entries)[g].specs.push(e) },
        ),
{
    broadcast use Seq::lemma_filter_push;

    lemma_archs_of(entries);
    let more = entries.push(e);
    assert(more.drop_last() =~= entries);
    assert(archs_of(entries).contains(e.arch));
    assert(archs_of(more) == archs_of(entries));
    assert forall|k: int| 0 <= k < archs_of(entries).len() implies #[trigger] grouped(more)[k]
        == grouped(entries).update(
        g,
        ArchGroupView { arch: e.arch, specs: grouped(entries)[g].specs.push(e) },
    )[k] by {
        let a = archs_of(entries)[k];
        let p = |x: SpecialisationView| x.arch == a;
        assert(more.filter(p) == if p(e) {
            entries.filter(p).push(e)
        } else {
            entries.filter(p)
        });
    }
    assert(grouped(more) =~= grouped(entries).update(
        g,
        ArchGroupView { arch: e.arch, specs: grouped(entries)[g].specs.push(e) },
    ));
}

/// The first entry of an architecture opens a group behind the others.
proof fn lemma_grouped_append(entries: Seq<SpecialisationView>, e: SpecialisationView)
    requires
        !archs_of(entries).contains(e.arch),
    ensures
        grouped(entries.push(e)) == grouped(entries).push(
            ArchGroupView { arch: e.arch, specs: seq![e] },
        ),
{
    broadcast use Seq::lemma_filter_push;

    let more = entries.push(e);
    assert(more.drop_last() =~= entries);
    assert(archs_of(more) == archs_of(entries).push(e.arch));
    lemma_of_arch_absent(entries, e.arch);
    assert forall|k: int| 0 <= k < archs_of(more).len() implies #[trigger] grouped(more)[k]
        == grouped(entries).push(ArchGroupView { arch: e.arch, specs: seq![e] })[k] by {
        let a = archs_of(more)[k];
        let p = |x: SpecialisationView| x.arch == a;
        assert(more.filter(p) == if p(e) {
            entries.filter(p).push(e)
        } else {
            entries.filter(p)
        });
        if k < archs_of(entries).len() {
            assert(archs_of(entries).contains(a));
        } else {
            assert(entries.filter(p) == of_arch(entries, e.arch));
            assert(Seq::<SpecialisationView>::empty().push(e) =~= seq![e]);
        }
    }
    assert(grouped(more) =~= grouped(entries).push(
        ArchGroupView { arch: e.arch, specs: seq![e] },
    ));
}

/// Puts one more entry into the groups of the entries read so far.
fn place(
    groups: &mut Vec<ArchGroup>,
    spec: Specialisation,
    Ghost(entries): Ghost<Seq<SpecialisationView>>,
)
    requires
        group_views(old(groups)@) == grouped(entries),
    ensures
        group_views(final(groups)@) == grouped(entries.push(spec@)),
{
    let mut g: usize = 0;
    assert(group_views(groups@).len() == groups@.len());
    assert(grouped(entries).len() == archs_of(entries).len());
    while g < groups.len()
        invariant
            g <= groups@.len(),
            groups@ == old(groups)@,
            groups@.len() == archs_of(entries).len(),
            group_views(groups@) == grouped(entries),
            forall|j: int| 0 <= j < g ==> archs_of(entries)[j] != spec.arch,
        decreases groups@.len() - g,
    {
        assert(group_views(groups@)[g as int].arch == groups@[g as int].arch);
        assert(grouped(entries)[g as int].arch == archs_of(entries)[g as int]);
        if groups[g].arch == spec.arch {
            let ghost e = spec@;
            let mut group = groups.remove(g);
            let ghost before = spec_views(group.specs@);
            group.specs.push(spec);
            assert(spec_views(group.specs@) =~= before.push(e));
            groups.insert(g, group);
            proof {
                lemma_grouped_extend(entries, e, g as int);
                assert(group_views(groups@) =~= grouped(entries).update(
                    g as int,
                    ArchGroupView { arch: e.arch, specs: grouped(entries)[g as int].specs.push(e) },
                ));
            }
            return ;
        }
        g += 1;
    }
    proof {
        lemma_grouped_append(entries, spec@);
    }
    let ghost e = spec@;
    let arch = spec.arch;
    let mut specs: Vec<Specialisation> = Vec::new();
    specs.push(spec);
    assert(spec_views(specs@) =~= seq![e]);
    groups.push(ArchGroup { arch, specs });
    assert(group_views(groups@) =~= grouped(entries).push(
        ArchGroupView { arch: e.arch, specs: seq![e] },
    ));
}

/// What reading on from a later index adds to the entries read so far.
pub open spec fn continued(
    done: Seq<SpecialisationView>,
    rest: Result<Seq<SpecialisationView>, Error>,
) -> Result<Seq<SpecialisationView>, Error> {
    match rest {
        Ok(more) => Ok(done + more),
        Err(e) => Err(e),
    }
}

impl Specialisation {
    /// Reads a specialisation list. Gives the specialisations grouped by
    /// architecture, or the first error of the list.
    pub fn parse(tokens: &Vec<Token>) -> (r: Result<Vec<ArchGroup>, Error>)
        ensures
            match parse_from(tokens@, 0) {
                Ok(entries) => r matches Ok(groups) && group_views(groups@) == grouped(entries),
                Err(e) => r == Err::<Vec<ArchGroup>, Error>(e),
            },
            r matches Ok(groups) ==> forall|g: int|
                0 <= g < groups@.len() ==> (#[trigger] groups@[g])@.wf(),
    {
        let n: usize = tokens.len();
        let mut groups: Vec<ArchGroup> = Vec::new();
        let ghost mut done: Seq<SpecialisationView> = Seq::empty();
        let mut pos: usize = 0;
        assert(group_views(groups@) =~= grouped(done));
        assert(parse_from(tokens@, 0) == continued(done, parse_from(tokens@, 0))) by {
            match parse_from(tokens@, 0) {
                Ok(more) => {
                    assert(done + more =~= more);
                },
                Err(_) => {},
            }
        }
        while pos < n
            invariant
                pos <= n,
                n == tokens@.len(),
                group_views(groups@) == grouped(done),
                parse_from(tokens@, 0) == continued(done, parse_from(tokens@, pos as int)),
            decreases n - pos,
        {
            match &tokens[pos] {
                Token::Ident(_) => {},
                _ => {
                    return Err(
                        Error { kind: ErrorKind::ExpectedArchitecture, at: Location::Attr(pos) },
                    );
                },
            }
            match parse_entry(tokens, pos) {
                Err(e) => {
                    return Err(e);
                },
                Ok((spec, next)) => {
                    proof {
                        let e = spec@;
                        match parse_from(tokens@, next as int) {
                            Ok(more) => {
                                assert(done + (seq![e] + more) =~= done.push(e) + more);
                            },
                            Err(_) => {},
                        }
                    }
                    let ghost e = spec@;
                    place(&mut groups, spec, Ghost(done));
                    proof {
                        done = done.push(e);
                    }
                    pos = next;
                },
            }
        }
        assert(done + Seq::<SpecialisationView>::empty() =~= done);
        proof {
            lemma_parsed_wf(tokens@, 0);
            assert forall|g: int| 0 <= g < groups@.len() implies (#[trigger] groups@[g])@.wf() by {
                assert(groups@[g]@ == grouped(done)[g]);
                lemma_grouped_wf(done, g);
            }
        }
        Ok(groups)
    }
}

/// Every specialisation that the grammar gives has a feature set that is
/// not empty and holds each feature once.
pub proof fn lemma_parsed_wf(tokens: Seq<Token>, pos: int)
    ensures
        parse_from(tokens, pos) matches Ok(entries) ==> forall|i: int|
            0 <= i < entries.len() ==> (#[trigger] entries[i]).wf(),
    decreases tokens.len() - pos,
{
    if 0 <= pos < tokens.len() && tokens[pos] is Ident {
        match entry_at(tokens, pos) {
            Ok((entry, next)) => {
                let a = if tokens[pos].is_ident("static"@) {
                    pos + 1
                } else {
                    pos
                };
                let inner = bracketed(tokens[a + 2]).unwrap();
                lemma_list_error(inner, a + 2, 0);
                lemma_distinct(listed_features(inner));
                assert(entry.wf());
                lemma_parsed_wf(tokens, next);
            },
            Err(_) => {},
        }
    }
}

/// What `list_error` finds from `k` on: no error exactly where every token
/// from there on is what its place asks for and the list ends behind a
/// feature; else an error pinned to the first token that is not, or to
/// nothing where the list ends behind a comma or is empty.
pub proof fn lemma_list_error(inner: Seq<Token>, group: int, k: int)
    requires
        0 <= k <= inner.len(),
    ensures
        match list_error(inner, group, k) {
            None => inner.len() % 2 == 1 && forall|j: int|
                k <= j < inner.len() ==> item_fits(inner, j),
            Some(e) => {
                ||| exists|j: int|
                    {
                        &&& k <= j < inner.len()
                        &&& !item_fits(inner, j)
                        &&& forall|i: int| k <= i < j ==> item_fits(inner, i)
                        &&& e.at == Location::Inner(group as usize, j as usize)
                    }
                ||| {
                    &&& inner.len() % 2 == 0
                    &&& forall|j: int| k <= j < inner.len() ==> item_fits(inner, j)
                    &&& e.at == Location::Nowhere
                }
            },
        },
    decreases inner.len() - k,
{
    if k < inner.len() && item_fits(inner, k) {
        lemma_list_error(inner, group, k + 1);
    }
}

/// Grouping sound specialisations gives sound groups.
pub proof fn lemma_grouped_wf(entries: Seq<SpecialisationView>, g: int)
    requires
        forall|i: int| 0 <= i < entries.len() ==> (#[trigger] entries[i]).wf(),
        0 <= g < grouped(entries).len(),
    ensures
        grouped(entries)[g].wf(),
{
    lemma_groups_nonempty(entries, g);
    let arch = archs_of(entries)[g];
    let keep = |e: SpecialisationView| e.arch == arch;
    let specs = grouped(entries)[g].specs;
    assert forall|i: int| 0 <= i < specs.len() implies (#[trigger] specs[i]).arch == arch
        && specs[i].wf() by {
        broadcast use vstd::seq_lib::group_filter_ensures;

        assert(keep(entries.filter(keep)[i]));
        assert(entries.filter(keep).contains(specs[i]));
        entries.lemma_filter_contains_rev(keep, specs[i]);
        let k = choose|k: int| 0 <= k < entries.len() && entries[k] == specs[i];
        assert(entries[k].wf());
    }
}

/// A group is never empty: an architecture has a group only where a
/// specialisation was declared for it.
pub proof fn lemma_groups_nonempty(entries: Seq<SpecialisationView>, g: int)
    requires
        0 <= g < grouped(entries).len(),
    ensures
        grouped(entries)[g].specs.len() > 0,
{
    lemma_archs_of(entries);
    let arch = archs_of(entries)[g];
    assert(archs_of(entries).contains(arch));
    let i = choose|i: int| 0 <= i < entries.len() && (#[trigger] entries[i]).arch == arch;
    let keep = |e: SpecialisationView| e.arch == arch;
    broadcast use vstd::seq_lib::group_filter_ensures;

    assert(keep(entries[i]));
    assert(entries.filter(keep).contains(entries[i]));
}

/// A derived name can be written as an identifier, whatever characters the
/// features hold, and starts with `_`.
pub proof fn lemma_auto_ident(arch: Architecture, listed: Seq<Seq<char>>)
    ensures
        is_identifier(auto_ident(arch, listed)),
        auto_ident(arch, listed)[0] == '_',
    decreases listed.len(),
{
    lemma_name_is_plain(arch);
    if listed.len() > 0 {
        lemma_auto_ident(arch, listed.drop_last());
        broadcast use vstd::seq_lib::group_filter_ensures;

        let tail = sanitized(listed.last());
        assert forall|i: int| 0 <= i < tail.len() implies is_ident_char(#[trigger] tail[i]) by {
            let keep = |c: char| is_ident_char(c);
            assert(keep(listed.last().filter(keep)[i]));
        }
    }
}

} // verus!
