//! Operations on text that contracts elsewhere in the library speak of.

use vstd::prelude::*;

verus! {

/// `String::push` appends one character to the end of the string.
pub assume_specification[ String::push ](s: &mut String, ch: char)
    ensures
        final(s)@ == old(s)@.push(ch),
;

/// The texts that a sequence of strings holds.
pub open spec fn texts(strings: Seq<String>) -> Seq<Seq<char>> {
    strings.map_values(|s: String| s@)
}

/// The lower-case form of an ASCII letter; any other character is unchanged.
pub open spec fn ascii_lower(c: char) -> char {
    if 'A' <= c && c <= 'Z' {
        ((c as u32) + 32) as char
    } else {
        c
    }
}

/// The text with every ASCII letter in lower case.
pub open spec fn lowercase(s: Seq<char>) -> Seq<char> {
    Seq::new(s.len(), |i: int| ascii_lower(s[i]))
}

/// Whether the character may stand in a generated identifier.
pub open spec fn is_ident_char(c: char) -> bool {
    ||| 'a' <= c && c <= 'z'
    ||| 'A' <= c && c <= 'Z'
    ||| '0' <= c && c <= '9'
    ||| c == '_'
}

/// Whether the text can be written as an identifier: made of letters,
/// digits and `_`, not starting with a digit, and more than `_` alone.
pub open spec fn is_identifier(s: Seq<char>) -> bool {
    &&& s.len() > 0
    &&& forall|i: int| 0 <= i < s.len() ==> is_ident_char(#[trigger] s[i])
    &&& !('0' <= s[0] && s[0] <= '9')
    &&& !(s.len() == 1 && s[0] == '_')
}

/// The text without the characters that may not stand in an identifier.
pub open spec fn sanitized(s: Seq<char>) -> Seq<char> {
    s.filter(|c: char| is_ident_char(c))
}

/// The parts written one after another, with the separator between neighbours.
pub open spec fn joined(parts: Seq<Seq<char>>, sep: Seq<char>) -> Seq<char>
    decreases parts.len(),
{
    if parts.len() == 0 {
        Seq::empty()
    } else if parts.len() == 1 {
        parts[0]
    } else {
        joined(parts.drop_last(), sep) + sep + parts.last()
    }
}

pub fn to_ascii_lower(c: char) -> (r: char)
    ensures
        r == ascii_lower(c),
{
    if 'A' <= c && c <= 'Z' {
        let code: u32 = c as u32;
        let lower: u8 = (code + 32) as u8;
        lower as char
    } else {
        c
    }
}

pub fn ident_char(c: char) -> (r: bool)
    ensures
        r == is_ident_char(c),
{
    ('a' <= c && c <= 'z') || ('A' <= c && c <= 'Z') || ('0' <= c && c <= '9') || c == '_'
}

/// Whether two texts hold the same characters.
pub fn same_text(a: &str, b: &str) -> (r: bool)
    ensures
        r == (a@ == b@),
{
    let n: usize = a.unicode_len();
    if n != b.unicode_len() {
        return false;
    }
    let mut i: usize = 0;
    while i < n
        invariant
            i <= n,
            n == a@.len(),
            n == b@.len(),
            forall|j: int| 0 <= j < i ==> a@[j] == b@[j],
        decreases n - i,
    {
        if a.get_char(i) != b.get_char(i) {
            return false;
        }
        i += 1;
    }
    assert(a@ =~= b@);
    true
}

/// Whether `text` is among the strings.
pub fn contains_text(items: &Vec<String>, text: &str) -> (r: bool)
    ensures
        r == texts(items@).contains(text@),
{
    let mut i: usize = 0;
    while i < items.len()
        invariant
            i <= items@.len(),
            forall|j: int| 0 <= j < i ==> texts(items@)[j] != text@,
        decreases items@.len() - i,
    {
        if same_text(items[i].as_str(), text) {
            assert(texts(items@)[i as int] == text@);
            return true;
        }
        i += 1;
    }
    false
}

/// A copy of the strings.
pub fn clone_strings(items: &Vec<String>) -> (r: Vec<String>)
    ensures
        texts(r@) == texts(items@),
{
    let mut out: Vec<String> = Vec::new();
    let mut i: usize = 0;
    while i < items.len()
        invariant
            i <= items@.len(),
            texts(out@) == texts(items@).take(i as int),
        decreases items@.len() - i,
    {
        let ghost before = texts(out@);
        out.push(items[i].clone());
        assert(texts(out@) =~= before.push(items@[i as int]@));
        assert(texts(out@) =~= texts(items@).take(i + 1));
        i += 1;
    }
    assert(texts(items@).take(items@.len() as int) =~= texts(items@));
    out
}

/// The strings written one after another, with `sep` between neighbours.
pub fn join(items: &Vec<String>, sep: &str) -> (r: String)
    ensures
        r@ == joined(texts(items@), sep@),
{
    let mut out = String::new();
    let mut i: usize = 0;
    assert(texts(items@).take(0) =~= Seq::<Seq<char>>::empty());
    while i < items.len()
        invariant
            i <= items@.len(),
            out@ == joined(texts(items@).take(i as int), sep@),
        decreases items@.len() - i,
    {
        let ghost before = texts(items@).take(i as int);
        let ghost after = texts(items@).take(i + 1);
        assert(after.drop_last() =~= before);
        assert(after.last() == items@[i as int]@);
        if i > 0 {
            out.append(sep);
        }
        out.append(items[i].as_str());
        assert(out@ =~= joined(after, sep@)) by {
            if i == 0 {
                assert(before.len() == 0);
                assert(after.len() == 1);
                assert(Seq::<char>::empty() + items@[i as int]@ =~= items@[i as int]@);
            } else {
                assert(before.len() > 0);
            }
        }
        i += 1;
    }
    assert(texts(items@).take(items@.len() as int) =~= texts(items@));
    out
}

/// The text in ASCII lower case.
pub fn lowercase_of(s: &str) -> (r: String)
    ensures
        r@ == lowercase(s@),
{
    let n: usize = s.unicode_len();
    let mut out = String::new();
    let mut i: usize = 0;
    while i < n
        invariant
            i <= n,
            n == s@.len(),
            out@ == lowercase(s@).take(i as int),
        decreases n - i,
    {
        out.push(to_ascii_lower(s.get_char(i)));
        assert(out@ =~= lowercase(s@).take(i + 1));
        i += 1;
    }
    assert(out@ =~= lowercase(s@));
    out
}

/// Appends to `out` the characters of `s` that may stand in an identifier.
pub fn push_sanitized(out: &mut String, s: &str)
    ensures
        final(out)@ == old(out)@ + sanitized(s@),
{
    let n: usize = s.unicode_len();
    let mut i: usize = 0;
    let ghost keep = |c: char| is_ident_char(c);
    assert(s@.take(0) =~= Seq::<char>::empty());
    assert(out@ =~= old(out)@ + s@.take(0).filter(keep)) by {
        reveal(Seq::filter);
    }
    while i < n
        invariant
            i <= n,
            n == s@.len(),
            keep == |c: char| is_ident_char(c),
            out@ == old(out)@ + s@.take(i as int).filter(keep),
        decreases n - i,
    {
        let c = s.get_char(i);
        proof {
            let before = s@.take(i as int);
            let after = s@.take(i + 1);
            assert(after.drop_last() =~= before);
            assert(after.last() == c);
            reveal(Seq::filter);
            assert(after.filter(keep) == if keep(c) {
                before.filter(keep).push(c)
            } else {
                before.filter(keep)
            });
        }
        if ident_char(c) {
            out.push(c);
        }
        assert(out@ =~= old(out)@ + s@.take(i + 1).filter(keep));
        i += 1;
    }
    assert(s@.take(n as int) =~= s@);
}

} // verus!
