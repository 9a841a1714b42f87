//! Small helpers on characters and strings.
use vstd::prelude::*;

verus! {

/// The ASCII lower-case form of a character: `A`..`Z` move to `a`..`z`,
/// every other character stays.
pub open spec fn lower_char(c: char) -> char {
    if 'A' <= c <= 'Z' {
        ((c as u32) + 0x20) as char
    } else {
        c
    }
}

/// The ASCII lower-case form of a string, character by character.
pub open spec fn lower_chars(s: Seq<char>) -> Seq<char> {
    Seq::new(s.len(), |i: int| lower_char(s[i]))
}

/// Whether a character is white space: the characters that Unicode gives the
/// property `White_Space`.
pub open spec fn is_white_space(c: char) -> bool {
    let code = c as u32;
    ||| 0x09 <= code <= 0x0d
    ||| code == 0x20
    ||| code == 0x85
    ||| code == 0xa0
    ||| code == 0x1680
    ||| 0x2000 <= code <= 0x200a
    ||| code == 0x2028
    ||| code == 0x2029
    ||| code == 0x202f
    ||| code == 0x205f
    ||| code == 0x3000
}

/// The tokens of a line: its longest runs of characters that are not white
/// space, in order.
pub open spec fn spec_tokens(line: Seq<char>) -> Seq<Seq<char>>
    decreases line.len(),
{
    if line.len() == 0 {
        Seq::empty()
    } else {
        let front = spec_tokens(line.drop_last());
        if is_white_space(line.last()) {
            front
        } else if line.len() >= 2 && !is_white_space(line[line.len() - 2]) {
            front.drop_last().push(front.last().push(line.last()))
        } else {
            front.push(seq![line.last()])
        }
    }
}

/// The views of `tokens`, in order.
pub open spec fn token_views(tokens: Seq<Vec<char>>) -> Seq<Seq<char>> {
    Seq::new(tokens.len(), |i: int| tokens[i]@)
}

pub fn to_lower(c: char) -> (r: char)
    ensures
        r == lower_char(c),
{
    if 'A' <= c && c <= 'Z' {
        ((c as u8) + 0x20) as char
    } else {
        c
    }
}

pub fn to_lower_vec(s: &[char]) -> (r: Vec<char>)
    ensures
        r@ == lower_chars(s@),
{
    let mut out: Vec<char> = Vec::new();
    let mut i: usize = 0;
    while i < s.len()
        invariant
            i <= s.len(),
            out@.len() == i,
            forall|j: int| 0 <= j < i ==> out@[j] == lower_char(s@[j]),
        decreases s.len() - i,
    {
        out.push(to_lower(s[i]));
        i += 1;
    }
    assert(out@ =~= lower_chars(s@));
    out
}

pub fn is_space(c: char) -> (r: bool)
    ensures
        r == is_white_space(c),
{
    let code: u32 = c as u32;
    (0x09 <= code && code <= 0x0d) || code == 0x20 || code == 0x85 || code == 0xa0 || code
        == 0x1680 || (0x2000 <= code && code <= 0x200a) || code == 0x2028 || code == 0x2029
        || code == 0x202f || code == 0x205f || code == 0x3000
}

/// The characters of a string.
pub fn chars_of(s: &str) -> (out: Vec<char>)
    ensures
        out@ == s@,
{
    let mut out: Vec<char> = Vec::new();
    for c in iter: s.chars()
        invariant
            iter.seq() == s@,
            out@ == iter.seq().take(iter.index() as int),
    {
        out.push(c);
        assert(iter.seq().take(iter.index() + 1) =~= iter.seq().take(iter.index() as int).push(
            c,
        ));
    }
    assert(out@ =~= s@);
    out
}

/// Whether a string holds exactly the characters `key`.
pub fn str_eq(s: &str, key: &[char]) -> (r: bool)
    ensures
        r == (s@ == key@),
{
    let chars = chars_of(s);
    if chars.len() != key.len() {
        return false;
    }
    let mut i: usize = 0;
    while i < key.len()
        invariant
            i <= key.len(),
            chars@ == s@,
            chars.len() == key.len(),
            forall|j: int| 0 <= j < i ==> chars@[j] == key@[j],
        decreases key.len() - i,
    {
        if chars[i] != key[i] {
            return false;
        }
        i += 1;
    }
    assert(s@ =~= key@);
    true
}

/// Splits a line into its tokens, as `str::split_whitespace` does.
pub fn split_whitespace(line: &str) -> (tokens: Vec<Vec<char>>)
    ensures
        token_views(tokens@) == spec_tokens(line@),
{
    let mut tokens: Vec<Vec<char>> = Vec::new();
    let mut current: Vec<char> = Vec::new();
    let ghost mut seen: Seq<char> = Seq::empty();
    for c in iter: line.chars()
        invariant
            iter.seq() == line@,
            seen == iter.seq().take(iter.index() as int),
            spec_tokens(iter.seq().take(iter.index() as int)) == if current@.len() > 0 {
                token_views(tokens@).push(current@)
            } else {
                token_views(tokens@)
            },
            current@.len() > 0 <==> iter.index() > 0 && !is_white_space(
                iter.seq()[iter.index() - 1],
            ),
    {
        let ghost front = iter.seq().take(iter.index() as int);
        let ghost next = iter.seq().take(iter.index() + 1);
        let ghost views = token_views(tokens@);
        let ghost run = current@;
        proof {
            assert(next.drop_last() =~= front);
            assert(next.last() == c);
            assert(next =~= seen.push(c));
            seen = seen.push(c);
        }
        if is_space(c) {
            if current.len() > 0 {
                tokens.push(current);
                current = Vec::new();
                assert(token_views(tokens@) =~= views.push(run));
            }
            assert(spec_tokens(next) == spec_tokens(front));
        } else {
            current.push(c);
            proof {
                if run.len() > 0 {
                    assert(next[next.len() - 2] == front.last());
                    assert(views.push(run).drop_last() =~= views);
                    assert(views.push(run).last() == run);
                    assert(spec_tokens(next) == views.push(run.push(c)));
                } else {
                    assert(next.len() >= 2 ==> next[next.len() - 2] == front.last());
                    assert(current@ =~= seq![c]);
                    assert(spec_tokens(next) == views.push(seq![c]));
                }
            }
        }
    }
    let ghost views = token_views(tokens@);
    let ghost run = current@;
    assert(seen =~= line@);
    if current.len() > 0 {
        tokens.push(current);
        assert(token_views(tokens@) =~= views.push(run));
    }
    tokens
}

/// An error message: what went wrong, a colon, and the string it went wrong
/// with. It is built by `format!`, and nothing is claimed about its content.
#[verifier::external_body]
pub(crate) fn message(what: &str, subject: &str) -> (text: String) {
    format!("{}: {}", what, subject)
}

} // verus!
