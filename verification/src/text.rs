//! Character-level text handling used by the option parsers: splitting on a
//! set of separators, trimming Unicode white space and ASCII lower-casing.
use vstd::prelude::*;

verus! {

/// The Unicode `White_Space` property, as `char::is_whitespace` tests it.
pub open spec fn is_white(c: char) -> bool {
    ||| ('\t' <= c && c <= '\r')
    ||| c == ' '
    ||| c == '\u{85}'
    ||| c == '\u{a0}'
    ||| c == '\u{1680}'
    ||| ('\u{2000}' <= c && c <= '\u{200a}')
    ||| c == '\u{2028}'
    ||| c == '\u{2029}'
    ||| c == '\u{202f}'
    ||| c == '\u{205f}'
    ||| c == '\u{3000}'
}

/// ASCII lower-casing of one character; every other character is unchanged.
pub open spec fn lower(c: char) -> char {
    if 'A' <= c && c <= 'Z' {
        ((c as u32) + 32) as char
    } else {
        c
    }
}

/// ASCII lower-casing of a whole text.
pub open spec fn lower_all(s: Seq<char>) -> Seq<char> {
    s.map_values(|c: char| lower(c))
}

/// The text without its leading white space.
pub open spec fn trim_start(s: Seq<char>) -> Seq<char>
    decreases s.len(),
{
    if s.len() > 0 && is_white(s[0]) {
        trim_start(s.drop_first())
    } else {
        s
    }
}

/// The text without its trailing white space.
pub open spec fn trim_end(s: Seq<char>) -> Seq<char>
    decreases s.len(),
{
    if s.len() > 0 && is_white(s.last()) {
        trim_end(s.drop_last())
    } else {
        s
    }
}

/// The text without white space at either end (`str::trim`).
pub open spec fn trim(s: Seq<char>) -> Seq<char> {
    trim_end(trim_start(s))
}

/// The separator sets the parsers split on.
#[derive(Clone, Copy, Debug, PartialEq, Eq, Structural)]
pub enum Separators {
    /// Application lists: `;`, carriage return and line feed.
    AppList,
    /// Path components: backslash and slash.
    Path,
    /// Display rectangles in a bounds list: `;`.
    Semicolon,
    /// Numbers inside one rectangle: `,`.
    Comma,
}

/// Whether `c` separates pieces for the given separator set.
pub open spec fn is_sep(k: Separators, c: char) -> bool {
    match k {
        Separators::AppList => c == ';' || c == '\r' || c == '\n',
        Separators::Path => c == '\\' || c == '/',
        Separators::Semicolon => c == ';',
        Separators::Comma => c == ',',
    }
}

/// The pieces of `s` between separators, as `str::split` yields them:
/// always at least one piece, and an empty piece between two adjacent separators.
pub open spec fn split(s: Seq<char>, k: Separators) -> Seq<Seq<char>>
    decreases s.len(),
{
    if s.len() == 0 {
        seq![Seq::<char>::empty()]
    } else {
        let p = split(s.drop_last(), k);
        if is_sep(k, s.last()) {
            p.push(Seq::<char>::empty())
        } else {
            p.update(p.len() - 1, p.last().push(s.last()))
        }
    }
}

/// The last piece of `split(s, k)`: what follows the last separator.
pub open spec fn last_piece(s: Seq<char>, k: Separators) -> Seq<char> {
    split(s, k).last()
}

/// `split` never yields an empty list of pieces.
pub proof fn lemma_split_nonempty(s: Seq<char>, k: Separators)
    ensures
        split(s, k).len() >= 1,
    decreases s.len(),
{
    if s.len() > 0 {
        lemma_split_nonempty(s.drop_last(), k);
    }
}

/// Whether `c` has the Unicode `White_Space` property (`char::is_whitespace`).
pub fn is_whitespace(c: char) -> (r: bool)
    ensures
        r == is_white(c),
{
    ('\t' <= c && c <= '\r') || c == ' ' || c == '\u{85}' || c == '\u{a0}' || c == '\u{1680}'
        || ('\u{2000}' <= c && c <= '\u{200a}') || c == '\u{2028}' || c == '\u{2029}'
        || c == '\u{202f}' || c == '\u{205f}' || c == '\u{3000}'
}

/// Whether `c` separates pieces for the separator set `k`.
pub fn separates(k: Separators, c: char) -> (r: bool)
    ensures
        r == is_sep(k, c),
{
    match k {
        Separators::AppList => c == ';' || c == '\r' || c == '\n',
        Separators::Path => c == '\\' || c == '/',
        Separators::Semicolon => c == ';',
        Separators::Comma => c == ',',
    }
}

/// Lower-case one character as `char::to_ascii_lowercase` does.
pub fn ascii_lower(c: char) -> (r: char)
    ensures
        r == lower(c),
{
    if 'A' <= c && c <= 'Z' {
        let b: u8 = c as u8;
        (b + 32) as char
    } else {
        c
    }
}

/// The characters of a string slice, in order.
pub fn chars_of(s: &str) -> (r: Vec<char>)
    ensures
        r@ == s@,
{
    let n: usize = s.unicode_len();
    let mut r: Vec<char> = Vec::new();
    let mut i: usize = 0;
    while i < n
        invariant
            n == s@.len(),
            i <= n,
            r@ == s@.take(i as int),
        decreases n - i,
    {
        let c = s.get_char(i);
        r.push(c);
        i = i + 1;
        assert(r@ =~= s@.take(i as int));
    }
    assert(r@ =~= s@);
    r
}

/// Appends one character to a string.
#[verifier::external_body]
fn push_char(s: &mut String, c: char)
    ensures
        final(s)@ == old(s)@.push(c),
{
    s.push(c);
}

/// A string holding exactly the given characters.
pub fn string_of(chars: &Vec<char>) -> (r: String)
    ensures
        r@ == chars@,
{
    let mut r = String::new();
    let mut i: usize = 0;
    while i < chars.len()
        invariant
            i <= chars.len(),
            r@ == chars@.take(i as int),
        decreases chars.len() - i,
    {
        push_char(&mut r, chars[i]);
        i = i + 1;
        assert(r@ =~= chars@.take(i as int));
    }
    assert(r@ =~= chars@);
    r
}

/// Whether two character lists are equal.
pub fn same_chars(a: &Vec<char>, b: &[char]) -> (r: bool)
    ensures
        r == (a@ == b@),
{
    if a.len() != b.len() {
        return false;
    }
    let mut i: usize = 0;
    while i < a.len()
        invariant
            a@.len() == b@.len(),
            i <= a.len(),
            forall|j: int| 0 <= j < i ==> a@[j] == b@[j],
        decreases a.len() - i,
    {
        if a[i] != b[i] {
            return false;
        }
        i = i + 1;
    }
    assert(a@ =~= b@);
    true
}

/// `s` trimmed of white space at both ends, then lower-cased.
pub fn trim_lower(s: &Vec<char>) -> (r: Vec<char>)
    ensures
        r@ == lower_all(trim(s@)),
{
    let n = s.len();
    let mut a: usize = 0;
    assert(s@.subrange(0, n as int) =~= s@);
    while a < n && is_whitespace(s[a])
        invariant
            n == s@.len(),
            a <= n,
            trim_start(s@) == trim_start(s@.subrange(a as int, n as int)),
        decreases n - a,
    {
        assert(s@.subrange(a as int, n as int).drop_first() =~= s@.subrange(a + 1, n as int));
        a = a + 1;
    }
    assert(trim_start(s@) == s@.subrange(a as int, n as int));
    let mut b: usize = n;
    while b > a && is_whitespace(s[b - 1])
        invariant
            n == s@.len(),
            a <= b <= n,
            trim_end(s@.subrange(a as int, n as int)) == trim_end(s@.subrange(a as int, b as int)),
        decreases b - a,
    {
        assert(s@.subrange(a as int, b as int).drop_last() =~= s@.subrange(a as int, b - 1));
        b = b - 1;
    }
    assert(trim(s@) == s@.subrange(a as int, b as int));
    let mut r: Vec<char> = Vec::new();
    let mut j: usize = a;
    while j < b
        invariant
            n == s@.len(),
            a <= j <= b <= n,
            r@ == lower_all(s@.subrange(a as int, j as int)),
        decreases b - j,
    {
        r.push(ascii_lower(s[j]));
        j = j + 1;
        assert(r@ =~= lower_all(s@.subrange(a as int, j as int)));
    }
    r
}

/// `s` lower-cased.
pub fn lower_chars(s: &Vec<char>) -> (r: Vec<char>)
    ensures
        r@ == lower_all(s@),
{
    let mut r: Vec<char> = Vec::new();
    let mut j: usize = 0;
    while j < s.len()
        invariant
            j <= s.len(),
            r@ == lower_all(s@.take(j as int)),
        decreases s.len() - j,
    {
        r.push(ascii_lower(s[j]));
        j = j + 1;
        assert(r@ =~= lower_all(s@.take(j as int)));
    }
    assert(s@.take(s@.len() as int) =~= s@);
    r
}

/// What follows the last separator of `k` in `s` (`s.rsplit(..).next()`).
pub fn last_piece_of(s: &Vec<char>, k: Separators) -> (r: Vec<char>)
    ensures
        r@ == last_piece(s@, k),
{
    let mut cur: Vec<char> = Vec::new();
    let mut i: usize = 0;
    proof {
        assert(s@.take(0) =~= Seq::<char>::empty());
    }
    while i < s.len()
        invariant
            i <= s.len(),
            cur@ == last_piece(s@.take(i as int), k),
        decreases s.len() - i,
    {
        let c = s[i];
        proof {
            assert(s@.take(i + 1).drop_last() =~= s@.take(i as int));
            lemma_split_nonempty(s@.take(i as int), k);
        }
        if separates(k, c) {
            cur = Vec::new();
            assert(cur@ =~= Seq::<char>::empty());
        } else {
            cur.push(c);
        }
        i = i + 1;
    }
    assert(s@.take(s@.len() as int) =~= s@);
    cur
}

/// The pieces of `s` between separators of `k` (`str::split`).
pub fn split_chars(s: &Vec<char>, k: Separators) -> (r: Vec<Vec<char>>)
    ensures
        r@.map_values(|v: Vec<char>| v@) == split(s@, k),
{
    let mut pieces: Vec<Vec<char>> = Vec::new();
    let mut cur: Vec<char> = Vec::new();
    let mut i: usize = 0;
    proof {
        assert(s@.take(0) =~= Seq::<char>::empty());
        assert(pieces@.map_values(|v: Vec<char>| v@).push(cur@) =~= split(s@.take(0), k));
    }
    while i < s.len()
        invariant
            i <= s.len(),
            pieces@.map_values(|v: Vec<char>| v@).push(cur@) == split(s@.take(i as int), k),
        decreases s.len() - i,
    {
        let c = s[i];
        let ghost before = pieces@.map_values(|v: Vec<char>| v@);
        let ghost cur_before = cur@;
        proof {
            assert(s@.take(i + 1).drop_last() =~= s@.take(i as int));
            lemma_split_nonempty(s@.take(i as int), k);
        }
        if separates(k, c) {
            let done = cur;
            pieces.push(done);
            cur = Vec::new();
            assert(pieces@.map_values(|v: Vec<char>| v@) =~= before.push(cur_before));
            assert(pieces@.map_values(|v: Vec<char>| v@).push(cur@) =~= split(
                s@.take(i + 1),
                k,
            ));
        } else {
            cur.push(c);
            assert(pieces@.map_values(|v: Vec<char>| v@).push(cur@) =~= split(
                s@.take(i + 1),
                k,
            ));
        }
        i = i + 1;
    }
    let ghost before = pieces@.map_values(|v: Vec<char>| v@);
    let ghost cur_before = cur@;
    pieces.push(cur);
    assert(s@.take(s@.len() as int) =~= s@);
    assert(pieces@.map_values(|v: Vec<char>| v@) =~= before.push(cur_before));
    pieces
}


/// Lower-casing twice is lower-casing once.
pub proof fn lemma_lower_idempotent(c: char)
    ensures
        lower(lower(c)) == lower(c),
        is_white(lower(c)) == is_white(c),
{
}

/// What `trim_start` leaves does not begin with white space.
proof fn lemma_trim_start_clean(s: Seq<char>)
    ensures
        trim_start(s).len() == 0 || !is_white(trim_start(s)[0]),
    decreases s.len(),
{
    if s.len() > 0 && is_white(s[0]) {
        lemma_trim_start_clean(s.drop_first());
    }
}

/// What `trim_end` leaves is a prefix of the text that does not end with
/// white space.
proof fn lemma_trim_end_prefix(s: Seq<char>)
    ensures
        trim_end(s).len() <= s.len(),
        trim_end(s) == s.take(trim_end(s).len() as int),
        trim_end(s).len() == 0 || !is_white(trim_end(s).last()),
    decreases s.len(),
{
    if s.len() > 0 && is_white(s.last()) {
        lemma_trim_end_prefix(s.drop_last());
        assert(s.drop_last().take(trim_end(s).len() as int) =~= s.take(trim_end(s).len() as int));
    } else {
        assert(s.take(s.len() as int) =~= s);
    }
}

/// A trimmed text neither begins nor ends with white space.
pub proof fn lemma_trim_clean(s: Seq<char>)
    ensures
        trim(s).len() > 0 ==> !is_white(trim(s)[0]) && !is_white(trim(s).last()),
{
    lemma_trim_start_clean(s);
    lemma_trim_end_prefix(trim_start(s));
}

/// A lower-cased trimmed text neither begins nor ends with white space and
/// is already lower-case.
pub proof fn lemma_lower_trim_clean(s: Seq<char>)
    ensures
        lower_all(trim(s)).len() == trim(s).len(),
        lower_all(lower_all(trim(s))) == lower_all(trim(s)),
        trim(s).len() > 0 ==> !is_white(lower_all(trim(s))[0]) && !is_white(
            lower_all(trim(s)).last(),
        ),
{
    lemma_trim_clean(s);
    let t = trim(s);
    if t.len() > 0 {
        lemma_lower_idempotent(t[0]);
        lemma_lower_idempotent(t.last());
    }
    assert forall|i: int| 0 <= i < t.len() implies lower_all(lower_all(t))[i] == lower_all(t)[i] by {
        lemma_lower_idempotent(t[i]);
    }
    assert(lower_all(lower_all(t)) =~= lower_all(t));
}

} // verus!
