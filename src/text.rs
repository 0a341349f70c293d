//! Small facts about names and the text that the synthesizers emit.
use vstd::prelude::*;

verus! {

/// Whether a path's first segment is `name`.
pub open spec fn first_is(path: Seq<String>, name: Seq<char>) -> bool {
    path.len() > 0 && path[0]@ == name
}

/// Whether a path's last segment is `name`.
pub open spec fn last_is(path: Seq<String>, name: Seq<char>) -> bool {
    path.len() > 0 && path.last()@ == name
}

/// The pieces, one after the other.
pub open spec fn joined(parts: Seq<Seq<char>>) -> Seq<char>
    decreases parts.len(),
{
    if parts.len() == 0 {
        Seq::empty()
    } else {
        joined(parts.drop_last()) + parts.last()
    }
}

pub proof fn lemma_joined_push(parts: Seq<Seq<char>>, p: Seq<char>)
    ensures
        joined(parts.push(p)) == joined(parts) + p,
{
    assert(parts.push(p).drop_last() =~= parts);
}

/// Whether `a` reads as `b`.
pub fn same_text(a: &String, b: &str) -> (r: bool)
    ensures
        r == (a@ == b@),
{
    let t = String::from_str(b);
    *a == t
}

/// Whether the first segment of `path` is `name`.
pub fn path_starts_with(path: &Vec<String>, name: &str) -> (r: bool)
    ensures
        r == first_is(path@, name@),
{
    path.len() > 0 && same_text(&path[0], name)
}

/// Whether the last segment of `path` is `name`.
pub fn path_ends_with(path: &Vec<String>, name: &str) -> (r: bool)
    ensures
        r == last_is(path@, name@),
{
    path.len() > 0 && same_text(&path[path.len() - 1], name)
}

/// Whether `c` is whitespace to the Rust tokenizer: Unicode white space and
/// the two direction marks.
pub open spec fn is_space(c: char) -> bool {
    let u = c as u32;
    u == 0x20 || (0x09 <= u <= 0x0d) || u == 0x85 || u == 0xa0 || u == 0x1680 || (0x2000 <= u
        <= 0x200a) || u == 0x200e || u == 0x200f || u == 0x2028 || u == 0x2029 || u == 0x202f
        || u == 0x205f || u == 0x3000
}

/// Whether the text holds no whitespace and no `/`: nothing can stand
/// around a single token, neither space nor comment.
pub open spec fn bare_word(s: Seq<char>) -> bool {
    forall|i: int| 0 <= i < s.len() ==> s[i] != '/' && !is_space(#[trigger] s[i])
}

/// Whether the text holds no `"` and no `/*`, so that it holds no string
/// literal of any kind and no block comment.
pub open spec fn literal_free(s: Seq<char>) -> bool {
    forall|i: int|
        0 <= i < s.len() ==> #[trigger] s[i] != '"' && (i + 1 < s.len() ==> !(s[i] == '/' && s[i
            + 1] == '*'))
}

fn char_is_space(c: char) -> (r: bool)
    ensures
        r == is_space(c),
{
    let u = c as u32;
    u == 0x20 || (0x09 <= u && u <= 0x0d) || u == 0x85 || u == 0xa0 || u == 0x1680 || (0x2000 <= u
        && u <= 0x200a) || u == 0x200e || u == 0x200f || u == 0x2028 || u == 0x2029 || u == 0x202f
        || u == 0x205f || u == 0x3000
}

/// Whether the text holds no whitespace and no `/`.
pub fn is_bare_word(s: &str) -> (r: bool)
    ensures
        r == bare_word(s@),
{
    let n = s.unicode_len();
    let mut i: usize = 0;
    while i < n
        invariant
            n == s@.len(),
            i <= n,
            forall|k: int| 0 <= k < i ==> s@[k] != '/' && !is_space(#[trigger] s@[k]),
        decreases n - i,
    {
        let c = s.get_char(i);
        if c == '/' || char_is_space(c) {
            return false;
        }
        i = i + 1;
    }
    true
}

/// Whether the text holds no `"` and no `/*`.
pub fn is_literal_free(s: &str) -> (r: bool)
    ensures
        r == literal_free(s@),
{
    let n = s.unicode_len();
    let mut i: usize = 0;
    while i < n
        invariant
            n == s@.len(),
            i <= n,
            forall|k: int|
                0 <= k < i ==> #[trigger] s@[k] != '"' && (k + 1 < s@.len() ==> !(s@[k] == '/'
                    && s@[k + 1] == '*')),
        decreases n - i,
    {
        let c = s.get_char(i);
        if c == '"' {
            return false;
        }
        if c == '/' && i + 1 < n && s.get_char(i + 1) == '*' {
            return false;
        }
        i = i + 1;
    }
    true
}

/// Whether `c` can continue an identifier; every non-ASCII character counts.
pub open spec fn ident_char(c: char) -> bool {
    let u = c as u32;
    (0x30 <= u <= 0x39) || (0x41 <= u <= 0x5a) || (0x61 <= u <= 0x7a) || u == 0x5f || u >= 0x80
}

/// Whether the word `w` stands in `t` at `i`, with no identifier character
/// right before or after it.
pub open spec fn word_at(t: Seq<char>, w: Seq<char>, i: int) -> bool {
    &&& 0 <= i
    &&& i + w.len() <= t.len()
    &&& t.subrange(i, i + w.len()) == w
    &&& (i == 0 || !ident_char(t[i - 1]))
    &&& (i + w.len() == t.len() || !ident_char(t[i + w.len()]))
}

/// Whether the word `w` stands somewhere in `t`.
pub open spec fn mentions_word(t: Seq<char>, w: Seq<char>) -> bool {
    exists|i: int| word_at(t, w, i)
}

fn char_is_ident(c: char) -> (r: bool)
    ensures
        r == ident_char(c),
{
    let u = c as u32;
    (0x30 <= u && u <= 0x39) || (0x41 <= u && u <= 0x5a) || (0x61 <= u && u <= 0x7a) || u == 0x5f
        || u >= 0x80
}

/// The characters of a text.
fn chars_of(s: &str) -> (r: Vec<char>)
    ensures
        r@ == s@,
{
    let n = s.unicode_len();
    let mut r: Vec<char> = Vec::new();
    let mut i: usize = 0;
    while i < n
        invariant
            n == s@.len(),
            i <= n,
            r@ == s@.take(i as int),
        decreases n - i,
    {
        assert(s@.take(i + 1) =~= s@.take(i as int).push(s@[i as int]));
        r.push(s.get_char(i));
        i = i + 1;
    }
    assert(s@.take(n as int) =~= s@);
    r
}

fn word_at_exec(t: &Vec<char>, w: &Vec<char>, i: usize) -> (r: bool)
    requires
        i + w@.len() <= t@.len(),
    ensures
        r == word_at(t@, w@, i as int),
{
    let tl = t.len();
    let mut k: usize = 0;
    while k < w.len()
        invariant
            tl == t@.len(),
            i + w@.len() <= t@.len(),
            k <= w@.len(),
            forall|j: int| 0 <= j < k ==> t@[i + j] == w@[j],
        decreases w.len() - k,
    {
        if t[i + k] != w[k] {
            assert(t@.subrange(i as int, i + w@.len())[k as int] != w@[k as int]);
            return false;
        }
        k = k + 1;
    }
    assert(t@.subrange(i as int, i + w@.len()) =~= w@);
    let before = i == 0 || !char_is_ident(t[i - 1]);
    let after = i + w.len() == tl || !char_is_ident(t[i + w.len()]);
    before && after
}

/// Whether the word `w` stands somewhere in `t`.
pub fn has_word(t: &str, w: &str) -> (r: bool)
    ensures
        r == mentions_word(t@, w@),
{
    let tc = chars_of(t);
    let wc = chars_of(w);
    if wc.len() > tc.len() {
        return false;
    }
    let last = tc.len() - wc.len();
    let mut i: usize = 0;
    while i <= last
        invariant
            tc@ == t@,
            wc@ == w@,
            last == tc@.len() - wc@.len(),
            i <= last + 1,
            forall|j: int| 0 <= j < i ==> !word_at(t@, w@, j),
        decreases last + 1 - i,
    {
        if word_at_exec(&tc, &wc, i) {
            return true;
        }
        if i == last {
            assert forall|j: int| !word_at(t@, w@, j) by {
                if 0 <= j && j + w@.len() <= t@.len() {
                    assert(j <= i);
                }
            }
            return false;
        }
        i = i + 1;
    }
    false
}

} // verus!
