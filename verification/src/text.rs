//! Character-level text utilities shared by the linter, translators and retrieval.
//!
//! Everything here works on the character view of a string (`Seq<char>`).
//! Unicode case mapping comes from std and is only named; whitespace, trimming,
//! splitting, searching and escaping are written and proved here.

use vstd::prelude::*;
use vstd::string::*;

verus! {

// ---------------------------------------------------------------------------
// Specifications
// ---------------------------------------------------------------------------

/// `s` contains `p` as a contiguous run of characters (an empty `p` is contained everywhere).
pub open spec fn has_sub(s: Seq<char>, p: Seq<char>) -> bool {
    exists|i: int| 0 <= i && i + p.len() <= s.len() && #[trigger] s.subrange(i, i + p.len()) == p
}

/// `s` begins with `p`.
pub open spec fn has_prefix(s: Seq<char>, p: Seq<char>) -> bool {
    p.len() <= s.len() && s.subrange(0, p.len() as int) == p
}

/// Unicode `White_Space`, the property that `char::is_whitespace` tests.
pub open spec fn is_ws(c: char) -> bool {
    ||| ('\u{9}' <= c && c <= '\u{d}')
    ||| c == ' '
    ||| c == '\u{85}'
    ||| c == '\u{a0}'
    ||| c == '\u{1680}'
    ||| ('\u{2000}' <= c && c <= '\u{200a}')
    ||| c == '\u{2028}'
    ||| c == '\u{2029}'
    ||| c == '\u{202f}'
    ||| c == '\u{205f}'
    ||| c == '\u{3000}'
}

/// `s` without its leading whitespace.
pub open spec fn trim_start(s: Seq<char>) -> Seq<char>
    decreases s.len(),
{
    if s.len() > 0 && is_ws(s[0]) {
        trim_start(s.drop_first())
    } else {
        s
    }
}

/// `s` without its trailing whitespace.
pub open spec fn trim_end(s: Seq<char>) -> Seq<char>
    decreases s.len(),
{
    if s.len() > 0 && is_ws(s.last()) {
        trim_end(s.drop_last())
    } else {
        s
    }
}

/// `s` without leading and trailing whitespace.
pub open spec fn trimmed(s: Seq<char>) -> Seq<char> {
    trim_end(trim_start(s))
}

/// Name for what std's `str::to_lowercase` returns (full Unicode lowercase mapping).
pub uninterp spec fn lowercase(s: Seq<char>) -> Seq<char>;

/// Name for what std's `str::to_uppercase` returns (full Unicode uppercase mapping).
pub uninterp spec fn uppercase(s: Seq<char>) -> Seq<char>;

/// The decimal digit character of `d` (for `d < 10`).
pub open spec fn digit_char(d: nat) -> char {
    if d == 0 { '0' } else if d == 1 { '1' } else if d == 2 { '2' } else if d == 3 { '3' }
    else if d == 4 { '4' } else if d == 5 { '5' } else if d == 6 { '6' } else if d == 7 { '7' }
    else if d == 8 { '8' } else { '9' }
}

/// Decimal rendering of a natural number, as `Display` writes it.
pub open spec fn decimal(n: nat) -> Seq<char>
    decreases n,
{
    if n < 10 {
        seq![digit_char(n)]
    } else {
        decimal(n / 10).push(digit_char(n % 10))
    }
}

/// `Display` of a boolean.
pub open spec fn bool_text(b: bool) -> Seq<char> {
    if b { seq!['t', 'r', 'u', 'e'] } else { seq!['f', 'a', 'l', 's', 'e'] }
}

/// XML escaping of one character.
pub open spec fn xml_char(c: char) -> Seq<char> {
    if c == '&' {
        seq!['&', 'a', 'm', 'p', ';']
    } else if c == '<' {
        seq!['&', 'l', 't', ';']
    } else if c == '>' {
        seq!['&', 'g', 't', ';']
    } else if c == '"' {
        seq!['&', 'q', 'u', 'o', 't', ';']
    } else {
        seq![c]
    }
}

/// XML escaping of `&`, `<`, `>` and `"`.
pub open spec fn xml_escaped(s: Seq<char>) -> Seq<char>
    decreases s.len(),
{
    if s.len() == 0 {
        seq![]
    } else {
        xml_escaped(s.drop_last()) + xml_char(s.last())
    }
}

/// JSON string escaping of one character (backslash and double quote only).
pub open spec fn json_char(c: char) -> Seq<char> {
    if c == '\\' {
        seq!['\\', '\\']
    } else if c == '"' {
        seq!['\\', '"']
    } else {
        seq![c]
    }
}

/// JSON escaping of backslashes and double quotes.
pub open spec fn json_escaped(s: Seq<char>) -> Seq<char>
    decreases s.len(),
{
    if s.len() == 0 {
        seq![]
    } else {
        json_escaped(s.drop_last()) + json_char(s.last())
    }
}

/// The word list of `s` as `split_whitespace` yields it, continuing a word already begun (`cur`).
pub open spec fn words_from(s: Seq<char>, cur: Seq<char>) -> Seq<Seq<char>>
    decreases s.len(),
{
    if s.len() == 0 {
        if cur.len() > 0 { seq![cur] } else { seq![] }
    } else if is_ws(s[0]) {
        (if cur.len() > 0 { seq![cur] } else { seq![] }) + words_from(s.drop_first(), seq![])
    } else {
        words_from(s.drop_first(), cur.push(s[0]))
    }
}

/// The maximal runs of non-whitespace characters of `s`, in order.
pub open spec fn words(s: Seq<char>) -> Seq<Seq<char>> {
    words_from(s, seq![])
}

/// Line separators used when chunking documents.
pub open spec fn is_line_sep(c: char) -> bool {
    c == '\n' || c == '\r'
}

/// The pieces of `s` between line separators (`str::split(['\n', '\r'])`), continuing `cur`.
pub open spec fn pieces_from(s: Seq<char>, cur: Seq<char>) -> Seq<Seq<char>>
    decreases s.len(),
{
    if s.len() == 0 {
        seq![cur]
    } else if is_line_sep(s[0]) {
        seq![cur] + pieces_from(s.drop_first(), seq![])
    } else {
        pieces_from(s.drop_first(), cur.push(s[0]))
    }
}

/// `s.split(['\n', '\r'])`: empty pieces included, always at least one piece.
pub open spec fn line_pieces(s: Seq<char>) -> Seq<Seq<char>> {
    pieces_from(s, seq![])
}

/// The first `n` characters of `s` (all of `s` when shorter).
pub open spec fn take_chars(s: Seq<char>, n: nat) -> Seq<char> {
    if n <= s.len() { s.subrange(0, n as int) } else { s }
}

/// The views of a vector of strings.
pub open spec fn views(v: Seq<String>) -> Seq<Seq<char>> {
    v.map_values(|x: String| x@)
}

/// The lines of `s` as `str::lines` yields them, up to the carriage return `str::lines`
/// removes before a `'\n'` (every caller trims its lines, which removes it as well):
/// pieces between `'\n'`, without the empty piece after a final `'\n'`, none for `""`.
pub open spec fn text_lines(s: Seq<char>) -> Seq<Seq<char>> {
    let raw = nl_pieces_from(s, seq![]);
    if s.len() == 0 {
        seq![]
    } else if s.last() == '\n' {
        raw.drop_last()
    } else {
        raw
    }
}

/// Pieces of `s` between `'\n'` characters, continuing `cur`.
pub open spec fn nl_pieces_from(s: Seq<char>, cur: Seq<char>) -> Seq<Seq<char>>
    decreases s.len(),
{
    if s.len() == 0 {
        seq![cur]
    } else if s[0] == '\n' {
        seq![cur] + nl_pieces_from(s.drop_first(), seq![])
    } else {
        nl_pieces_from(s.drop_first(), cur.push(s[0]))
    }
}

/// A line without one trailing carriage return.
pub open spec fn strip_cr(l: Seq<char>) -> Seq<char> {
    if l.len() > 0 && l.last() == '\r' { l.drop_last() } else { l }
}

// ---------------------------------------------------------------------------
// Trusted items: std functions without a vstd specification
// ---------------------------------------------------------------------------

/// Calls std's `String::push`: appends one character.
#[verifier::external_body]
pub(crate) fn push_char(s: &mut String, c: char)
    ensures
        final(s)@ == old(s)@.push(c),
{
    s.push(c)
}

/// Every character of `s` is ASCII.
pub open spec fn ascii_text(s: Seq<char>) -> bool {
    forall|i: int| 0 <= i < s.len() ==> (#[trigger] s[i] as u32) < 128
}

/// ASCII lower-casing of one character: `A`..`Z` to `a`..`z`, every other character kept.
pub open spec fn ascii_fold_char(c: char) -> char {
    if 'A' <= c && c <= 'Z' {
        ((c as u32) + 32) as char
    } else {
        c
    }
}

/// ASCII lower-casing of a string.
pub open spec fn ascii_lowercase(s: Seq<char>) -> Seq<char> {
    s.map_values(|c: char| ascii_fold_char(c))
}

/// Calls std's `str::to_lowercase`; the result is named `lowercase` of the input. Claimed
/// besides: on ASCII text it is the ASCII lower-casing, since std defines the result by the
/// Unicode lowercase mapping, which maps `A`..`Z` to `a`..`z` and leaves every other ASCII
/// character as it is.
#[verifier::external_body]
pub(crate) fn to_lower(s: &str) -> (r: String)
    ensures
        r@ == lowercase(s@),
        ascii_text(s@) ==> r@ == ascii_lowercase(s@),
{
    s.to_lowercase()
}

/// Calls std's `str::to_uppercase`; the result is named `uppercase` of the input.
#[verifier::external_body]
pub(crate) fn to_upper(s: &str) -> (r: String)
    ensures
        r@ == uppercase(s@),
{
    s.to_uppercase()
}

// ---------------------------------------------------------------------------
// Executable helpers
// ---------------------------------------------------------------------------

/// The characters of `s`.
pub fn chars_of(s: &str) -> (v: Vec<char>)
    ensures
        v@ == s@,
{
    let mut v: Vec<char> = Vec::new();
    for c in it: s.chars()
        invariant
            it.seq() == s@,
            v@ == s@.take(it.index() as int),
    {
        proof {
            assert(s@.take(it.index() + 1) == s@.take(it.index() as int).push(c));
        }
        v.push(c);
    }
    assert(v@ == s@);
    v
}

/// A string holding `v[lo..hi]`.
pub fn string_of(v: &Vec<char>, lo: usize, hi: usize) -> (r: String)
    requires
        lo <= hi <= v@.len(),
    ensures
        r@ == v@.subrange(lo as int, hi as int),
{
    let mut r = String::new();
    let mut i = lo;
    while i < hi
        invariant
            lo <= i <= hi <= v@.len(),
            r@ == v@.subrange(lo as int, i as int),
        decreases hi - i,
    {
        push_char(&mut r, v[i]);
        proof {
            assert(v@.subrange(lo as int, i + 1) == v@.subrange(lo as int, i as int).push(v@[i as int]));
        }
        i = i + 1;
    }
    r
}

/// Whether `c` is Unicode whitespace.
pub fn char_is_ws(c: char) -> (b: bool)
    ensures
        b == is_ws(c),
{
    ('\u{9}' <= c && c <= '\u{d}') || c == ' ' || c == '\u{85}' || c == '\u{a0}' || c == '\u{1680}'
        || ('\u{2000}' <= c && c <= '\u{200a}') || c == '\u{2028}' || c == '\u{2029}' || c
        == '\u{202f}' || c == '\u{205f}' || c == '\u{3000}'
}

/// Whether `p` occurs at position `i` of `s`.
fn occurs_at(s: &Vec<char>, p: &Vec<char>, i: usize) -> (b: bool)
    requires
        i + p@.len() <= s@.len(),
    ensures
        b == (s@.subrange(i as int, i + p@.len()) == p@),
{
    let mut j: usize = 0;
    let sl = s.len();
    while j < p.len()
        invariant
            sl == s@.len(),
            i + p@.len() <= s@.len(),
            j <= p@.len(),
            forall|k: int| 0 <= k < j ==> s@[i + k] == p@[k],
        decreases p@.len() - j,
    {
        if s[i + j] != p[j] {
            proof {
                assert(s@.subrange(i as int, i + p@.len())[j as int] != p@[j as int]);
            }
            return false;
        }
        j = j + 1;
    }
    proof {
        assert(s@.subrange(i as int, i + p@.len()) =~= p@);
    }
    true
}

/// Whether the characters `p` occur contiguously in `s`.
pub fn vec_has_sub(s: &Vec<char>, p: &Vec<char>) -> (b: bool)
    ensures
        b == has_sub(s@, p@),
{
    if p.len() > s.len() {
        return false;
    }
    let last = s.len() - p.len();
    let mut i: usize = 0;
    while i < last
        invariant
            last + p@.len() == s@.len(),
            i <= last,
            forall|k: int| 0 <= k < i ==> #[trigger] s@.subrange(k, k + p@.len()) != p@,
        decreases last - i,
    {
        if occurs_at(s, p, i) {
            return true;
        }
        i = i + 1;
    }
    occurs_at(s, p, last)
}

/// `str::contains` on a string pattern.
pub fn contains(s: &str, p: &str) -> (b: bool)
    ensures
        b == has_sub(s@, p@),
{
    let sv = chars_of(s);
    let pv = chars_of(p);
    vec_has_sub(&sv, &pv)
}

/// String equality on the character view.
pub fn same_text(a: &str, b: &str) -> (r: bool)
    ensures
        r == (a@ == b@),
{
    let av = chars_of(a);
    let bv = chars_of(b);
    if av.len() != bv.len() {
        return false;
    }
    let r = occurs_at(&av, &bv, 0);
    proof {
        assert(av@.subrange(0, bv@.len() as int) =~= av@);
    }
    r
}

/// `str::starts_with` on a string pattern.
pub fn starts_with(s: &str, p: &str) -> (b: bool)
    ensures
        b == has_prefix(s@, p@),
{
    let sv = chars_of(s);
    let pv = chars_of(p);
    if pv.len() > sv.len() {
        return false;
    }
    occurs_at(&sv, &pv, 0)
}

proof fn lemma_trim_start_step(s: Seq<char>, i: int)
    requires
        0 <= i < s.len(),
        is_ws(s[i]),
    ensures
        trim_start(s.subrange(i, s.len() as int)) == trim_start(s.subrange(i + 1, s.len() as int)),
{
    let t = s.subrange(i, s.len() as int);
    assert(t.drop_first() =~= s.subrange(i + 1, s.len() as int));
}

proof fn lemma_trim_end_step(s: Seq<char>, i: int, j: int)
    requires
        0 <= i < j <= s.len(),
        is_ws(s[j - 1]),
    ensures
        trim_end(s.subrange(i, j)) == trim_end(s.subrange(i, j - 1)),
{
    let t = s.subrange(i, j);
    assert(t.drop_last() =~= s.subrange(i, j - 1));
}

/// `str::trim`: the string without leading and trailing Unicode whitespace.
pub fn trim(s: &str) -> (r: String)
    ensures
        r@ == trimmed(s@),
{
    let v = chars_of(s);
    let n = v.len();
    let mut i: usize = 0;
    assert(v@.subrange(0, n as int) =~= v@);
    while i < n && char_is_ws(v[i])
        invariant
            i <= n == v@.len(),
            trim_start(v@) == trim_start(v@.subrange(i as int, n as int)),
        decreases n - i,
    {
        proof {
            lemma_trim_start_step(v@, i as int);
        }
        i = i + 1;
    }
    assert(trim_start(v@) == v@.subrange(i as int, n as int));
    let mut j: usize = n;
    while j > i && char_is_ws(v[j - 1])
        invariant
            i <= j <= n == v@.len(),
            trim_end(v@.subrange(i as int, n as int)) == trim_end(v@.subrange(i as int, j as int)),
        decreases j - i,
    {
        proof {
            lemma_trim_end_step(v@, i as int, j as int);
        }
        j = j - 1;
    }
    proof {
        let t = v@.subrange(i as int, j as int);
        if t.len() > 0 {
            assert(t.last() == v@[j - 1]);
        }
    }
    string_of(&v, i, j)
}

/// `str::trim_start`: the string without leading Unicode whitespace.
pub fn trim_start_string(s: &str) -> (r: String)
    ensures
        r@ == trim_start(s@),
{
    let v = chars_of(s);
    let n = v.len();
    let mut i: usize = 0;
    assert(v@.subrange(0, n as int) =~= v@);
    while i < n && char_is_ws(v[i])
        invariant
            i <= n == v@.len(),
            trim_start(v@) == trim_start(v@.subrange(i as int, n as int)),
        decreases n - i,
    {
        proof {
            lemma_trim_start_step(v@, i as int);
        }
        i = i + 1;
    }
    string_of(&v, i, n)
}

proof fn lemma_sub_drop_first(v: Seq<char>, i: int)
    requires
        0 <= i < v.len(),
    ensures
        v.subrange(i, v.len() as int).drop_first() == v.subrange(i + 1, v.len() as int),
        v.subrange(i, v.len() as int)[0] == v[i],
{
    assert(v.subrange(i, v.len() as int).drop_first() =~= v.subrange(i + 1, v.len() as int));
}

/// `str::split_whitespace`: the maximal runs of non-whitespace characters, in order.
pub fn split_words(s: &str) -> (r: Vec<String>)
    ensures
        views(r@) == words(s@),
{
    let v = chars_of(s);
    let n = v.len();
    let mut out: Vec<String> = Vec::new();
    let mut cur = String::new();
    let mut i: usize = 0;
    assert(v@.subrange(0, n as int) =~= v@);
    assert(views(out@) =~= Seq::<Seq<char>>::empty());
    while i < n
        invariant
            i <= n == v@.len(),
            words(v@) == views(out@) + words_from(v@.subrange(i as int, n as int), cur@),
        decreases n - i,
    {
        proof {
            lemma_sub_drop_first(v@, i as int);
        }
        let c = v[i];
        if char_is_ws(c) {
            if !cur.as_str().is_empty() {
                let ghost before = views(out@);
                out.push(cur);
                proof {
                    assert(views(out@) =~= before.push(out@[out@.len() - 1]@));
                    assert(views(out@) + words_from(v@.subrange(i + 1, n as int), seq![]) =~= before + (
                    seq![out@[out@.len() - 1]@] + words_from(v@.subrange(i + 1, n as int), seq![])));
                }
            } else {
                proof {
                    assert(seq![] + words_from(v@.subrange(i + 1, n as int), seq![]) =~= words_from(
                        v@.subrange(i + 1, n as int),
                        seq![],
                    ));
                }
            }
            cur = String::new();
        } else {
            push_char(&mut cur, c);
        }
        i = i + 1;
    }
    if !cur.as_str().is_empty() {
        let ghost before = views(out@);
        out.push(cur);
        proof {
            assert(views(out@) =~= before.push(out@[out@.len() - 1]@));
        }
    }
    proof {
        assert(views(out@) =~= views(out@) + Seq::<Seq<char>>::empty());
    }
    out
}

/// `str::split(['\n', '\r'])`: the pieces between line separators, empty ones included.
pub fn split_line_pieces(s: &str) -> (r: Vec<String>)
    ensures
        views(r@) == line_pieces(s@),
{
    let v = chars_of(s);
    let n = v.len();
    let mut out: Vec<String> = Vec::new();
    let mut cur = String::new();
    let mut i: usize = 0;
    assert(v@.subrange(0, n as int) =~= v@);
    assert(views(out@) =~= Seq::<Seq<char>>::empty());
    while i < n
        invariant
            i <= n == v@.len(),
            line_pieces(v@) == views(out@) + pieces_from(v@.subrange(i as int, n as int), cur@),
        decreases n - i,
    {
        proof {
            lemma_sub_drop_first(v@, i as int);
        }
        let c = v[i];
        if c == '\n' || c == '\r' {
            let ghost before = views(out@);
            out.push(cur);
            proof {
                assert(views(out@) =~= before.push(out@[out@.len() - 1]@));
                assert(views(out@) + pieces_from(v@.subrange(i + 1, n as int), seq![]) =~= before + (
                seq![out@[out@.len() - 1]@] + pieces_from(v@.subrange(i + 1, n as int), seq![])));
            }
            cur = String::new();
        } else {
            push_char(&mut cur, c);
        }
        i = i + 1;
    }
    let ghost before = views(out@);
    out.push(cur);
    proof {
        assert(views(out@) =~= before.push(out@[out@.len() - 1]@));
    }
    out
}

/// The pieces of `s` between `'\n'` characters (empty ones included).
pub fn split_newline_pieces(s: &str) -> (r: Vec<String>)
    ensures
        views(r@) == nl_pieces_from(s@, seq![]),
{
    let v = chars_of(s);
    let n = v.len();
    let mut out: Vec<String> = Vec::new();
    let mut cur = String::new();
    let mut i: usize = 0;
    assert(v@.subrange(0, n as int) =~= v@);
    assert(views(out@) =~= Seq::<Seq<char>>::empty());
    while i < n
        invariant
            i <= n == v@.len(),
            nl_pieces_from(v@, seq![]) == views(out@) + nl_pieces_from(v@.subrange(i as int, n as int), cur@),
        decreases n - i,
    {
        proof {
            lemma_sub_drop_first(v@, i as int);
        }
        let c = v[i];
        if c == '\n' {
            let ghost before = views(out@);
            out.push(cur);
            proof {
                assert(views(out@) =~= before.push(out@[out@.len() - 1]@));
                assert(views(out@) + nl_pieces_from(v@.subrange(i + 1, n as int), seq![]) =~= before + (
                seq![out@[out@.len() - 1]@] + nl_pieces_from(v@.subrange(i + 1, n as int), seq![])));
            }
            cur = String::new();
        } else {
            push_char(&mut cur, c);
        }
        i = i + 1;
    }
    let ghost before = views(out@);
    out.push(cur);
    proof {
        assert(views(out@) =~= before.push(out@[out@.len() - 1]@));
    }
    out
}

/// The lines of `s` (see [`text_lines`]).
pub fn lines_of(s: &str) -> (r: Vec<String>)
    ensures
        views(r@) == text_lines(s@),
{
    let v = chars_of(s);
    let mut pieces = split_newline_pieces(s);
    if v.len() == 0 {
        return Vec::new();
    }
    if v[v.len() - 1] == '\n' {
        let ghost before = pieces@;
        proof {
            lemma_pieces_nonempty(s@, seq![]);
        }
        pieces.pop();
        proof {
            assert(views(pieces@) =~= views(before).drop_last());
        }
    }
    pieces
}

proof fn lemma_pieces_nonempty(s: Seq<char>, cur: Seq<char>)
    ensures
        nl_pieces_from(s, cur).len() > 0,
    decreases s.len(),
{
    if s.len() > 0 && s[0] != '\n' {
        lemma_pieces_nonempty(s.drop_first(), cur.push(s[0]));
    }
}

/// The decimal rendering of `n`.
pub fn decimal_string(n: u64) -> (r: String)
    ensures
        r@ == decimal(n as nat),
    decreases n,
{
    let d = n % 10;
    let mut s = if n < 10 {
        String::new()
    } else {
        decimal_string(n / 10)
    };
    let c = if d == 0 { '0' } else if d == 1 { '1' } else if d == 2 { '2' } else if d == 3 { '3' }
    else if d == 4 { '4' } else if d == 5 { '5' } else if d == 6 { '6' } else if d == 7 { '7' }
    else if d == 8 { '8' } else { '9' };
    push_char(&mut s, c);
    proof {
        if n < 10 {
            assert(s@ =~= seq![digit_char(n as nat)]);
        }
    }
    s
}

/// `Display` of a boolean.
pub fn bool_string(b: bool) -> (r: String)
    ensures
        r@ == bool_text(b),
{
    let mut s = String::new();
    if b {
        push_char(&mut s, 't');
        push_char(&mut s, 'r');
        push_char(&mut s, 'u');
        push_char(&mut s, 'e');
    } else {
        push_char(&mut s, 'f');
        push_char(&mut s, 'a');
        push_char(&mut s, 'l');
        push_char(&mut s, 's');
        push_char(&mut s, 'e');
    }
    assert(s@ =~= bool_text(b));
    s
}

/// XML escaping of `&`, `<`, `>` and `"` (the four `replace` calls chained).
pub fn xml_escape(s: &str) -> (r: String)
    ensures
        r@ == xml_escaped(s@),
{
    let v = chars_of(s);
    let mut out = String::new();
    let mut i: usize = 0;
    while i < v.len()
        invariant
            i <= v@.len(),
            out@ == xml_escaped(v@.subrange(0, i as int)),
        decreases v@.len() - i,
    {
        let c = v[i];
        if c == '&' {
            out.append("&amp;");
        } else if c == '<' {
            out.append("&lt;");
        } else if c == '>' {
            out.append("&gt;");
        } else if c == '"' {
            out.append("&quot;");
        } else {
            push_char(&mut out, c);
        }
        proof {
            reveal_strlit("&amp;");
            reveal_strlit("&lt;");
            reveal_strlit("&gt;");
            reveal_strlit("&quot;");
            let pre = v@.subrange(0, i + 1);
            assert(pre.drop_last() =~= v@.subrange(0, i as int));
            assert(pre.last() == c);
            assert(out@ =~= xml_escaped(pre));
        }
        i = i + 1;
    }
    assert(v@.subrange(0, v@.len() as int) =~= v@);
    out
}

/// JSON escaping of backslashes and double quotes (the two `replace` calls chained).
pub fn json_escape(s: &str) -> (r: String)
    ensures
        r@ == json_escaped(s@),
{
    let v = chars_of(s);
    let mut out = String::new();
    let mut i: usize = 0;
    while i < v.len()
        invariant
            i <= v@.len(),
            out@ == json_escaped(v@.subrange(0, i as int)),
        decreases v@.len() - i,
    {
        let c = v[i];
        if c == '\\' {
            push_char(&mut out, '\\');
            push_char(&mut out, '\\');
        } else if c == '"' {
            push_char(&mut out, '\\');
            push_char(&mut out, '"');
        } else {
            push_char(&mut out, c);
        }
        proof {
            let pre = v@.subrange(0, i + 1);
            assert(pre.drop_last() =~= v@.subrange(0, i as int));
            assert(pre.last() == c);
            assert(out@ =~= json_escaped(pre));
        }
        i = i + 1;
    }
    assert(v@.subrange(0, v@.len() as int) =~= v@);
    out
}

/// The first `n` characters of `s` (`s.chars().take(n).collect()`).
pub fn first_chars(s: &str, n: usize) -> (r: String)
    ensures
        r@ == take_chars(s@, n as nat),
{
    let v = chars_of(s);
    let hi = if n <= v.len() { n } else { v.len() };
    let r = string_of(&v, 0, hi);
    proof {
        if n > v@.len() {
            assert(v@.subrange(0, v@.len() as int) =~= v@);
        }
    }
    r
}


// ---------------------------------------------------------------------------
// XML escaping laws
// ---------------------------------------------------------------------------

/// The entity for `&`.
pub open spec fn amp_entity() -> Seq<char> {
    seq!['&', 'a', 'm', 'p', ';']
}

/// The entity for `<`.
pub open spec fn lt_entity() -> Seq<char> {
    seq!['&', 'l', 't', ';']
}

/// The entity for `>`.
pub open spec fn gt_entity() -> Seq<char> {
    seq!['&', 'g', 't', ';']
}

/// The entity for `"`.
pub open spec fn quot_entity() -> Seq<char> {
    seq!['&', 'q', 'u', 'o', 't', ';']
}

/// One left-to-right decoding pass of the four entities that XML escaping writes.
pub open spec fn xml_unescaped(e: Seq<char>) -> Seq<char>
    decreases e.len(),
{
    if e.len() == 0 {
        seq![]
    } else if has_prefix(e, amp_entity()) {
        seq!['&'] + xml_unescaped(e.skip(5))
    } else if has_prefix(e, lt_entity()) {
        seq!['<'] + xml_unescaped(e.skip(4))
    } else if has_prefix(e, gt_entity()) {
        seq!['>'] + xml_unescaped(e.skip(4))
    } else if has_prefix(e, quot_entity()) {
        seq!['"'] + xml_unescaped(e.skip(6))
    } else {
        seq![e[0]] + xml_unescaped(e.skip(1))
    }
}

/// Position `i` of `e` begins one of the four entities.
pub open spec fn entity_at(e: Seq<char>, i: int) -> bool {
    let t = e.skip(i);
    has_prefix(t, amp_entity()) || has_prefix(t, lt_entity()) || has_prefix(t, gt_entity()) || has_prefix(
        t,
        quot_entity(),
    )
}

/// Position `i` of `e` holds no raw `<`, `>` or `"`, and an `&` there begins an entity.
pub open spec fn clean_at(e: Seq<char>, i: int) -> bool {
    &&& e[i] != '<' && e[i] != '>' && e[i] != '"'
    &&& e[i] == '&' ==> entity_at(e, i)
}

proof fn lemma_xml_escaped_concat(a: Seq<char>, b: Seq<char>)
    ensures
        xml_escaped(a + b) == xml_escaped(a) + xml_escaped(b),
    decreases b.len(),
{
    if b.len() == 0 {
        assert(a + b =~= a);
        assert(xml_escaped(a) + xml_escaped(b) =~= xml_escaped(a));
    } else {
        assert((a + b).drop_last() =~= a + b.drop_last());
        assert((a + b).last() == b.last());
        lemma_xml_escaped_concat(a, b.drop_last());
        assert(xml_escaped(a + b) =~= xml_escaped(a) + xml_escaped(b));
    }
}

proof fn lemma_xml_unescape_step(c: char, rest: Seq<char>)
    ensures
        xml_unescaped(xml_char(c) + rest) == seq![c] + xml_unescaped(rest),
{
    let e = xml_char(c) + rest;
    if c == '&' {
        assert(e.subrange(0, 5) =~= amp_entity());
        assert(e.skip(5) =~= rest);
    } else if c == '<' {
        assert(e[1] == 'l');
        assert(!has_prefix(e, amp_entity())) by {
            if e.len() >= 5 {
                assert(e.subrange(0, 5)[1] != amp_entity()[1]);
            }
        }
        assert(e.subrange(0, 4) =~= lt_entity());
        assert(e.skip(4) =~= rest);
    } else if c == '>' {
        assert(e[1] == 'g');
        assert(!has_prefix(e, amp_entity())) by {
            if e.len() >= 5 {
                assert(e.subrange(0, 5)[1] != amp_entity()[1]);
            }
        }
        assert(!has_prefix(e, lt_entity())) by {
            assert(e.subrange(0, 4)[1] != lt_entity()[1]);
        }
        assert(e.subrange(0, 4) =~= gt_entity());
        assert(e.skip(4) =~= rest);
    } else if c == '"' {
        assert(e[1] == 'q');
        assert(!has_prefix(e, amp_entity())) by {
            assert(e.subrange(0, 5)[1] != amp_entity()[1]);
        }
        assert(!has_prefix(e, lt_entity())) by {
            assert(e.subrange(0, 4)[1] != lt_entity()[1]);
        }
        assert(!has_prefix(e, gt_entity())) by {
            assert(e.subrange(0, 4)[1] != gt_entity()[1]);
        }
        assert(e.subrange(0, 6) =~= quot_entity());
        assert(e.skip(6) =~= rest);
    } else {
        assert(e[0] == c);
        assert(!has_prefix(e, amp_entity())) by {
            if e.len() >= 5 {
                assert(e.subrange(0, 5)[0] != amp_entity()[0]);
            }
        }
        assert(!has_prefix(e, lt_entity())) by {
            if e.len() >= 4 {
                assert(e.subrange(0, 4)[0] != lt_entity()[0]);
            }
        }
        assert(!has_prefix(e, gt_entity())) by {
            if e.len() >= 4 {
                assert(e.subrange(0, 4)[0] != gt_entity()[0]);
            }
        }
        assert(!has_prefix(e, quot_entity())) by {
            if e.len() >= 6 {
                assert(e.subrange(0, 6)[0] != quot_entity()[0]);
            }
        }
        assert(e.skip(1) =~= rest);
    }
}

proof fn lemma_xml_front(s: Seq<char>)
    requires
        s.len() > 0,
    ensures
        xml_escaped(s) == xml_char(s[0]) + xml_escaped(s.drop_first()),
{
    assert(s =~= seq![s[0]] + s.drop_first());
    lemma_xml_escaped_concat(seq![s[0]], s.drop_first());
    let one = seq![s[0]];
    assert(one.drop_last() =~= Seq::<char>::empty());
    assert(one.last() == s[0]);
    assert(xml_escaped(Seq::<char>::empty()) == Seq::<char>::empty());
    assert(xml_escaped(one) == xml_escaped(one.drop_last()) + xml_char(one.last()));
    assert(xml_escaped(one) =~= xml_char(s[0]));
}

proof fn lemma_xml_clean(s: Seq<char>)
    ensures
        forall|i: int| 0 <= i < xml_escaped(s).len() ==> #[trigger] clean_at(xml_escaped(s), i),
    decreases s.len(),
{
    if s.len() > 0 {
        lemma_xml_front(s);
        lemma_xml_clean(s.drop_first());
        let c = s[0];
        let h = xml_char(c);
        let rest = xml_escaped(s.drop_first());
        let e = h + rest;
        assert forall|i: int| 0 <= i < e.len() implies #[trigger] clean_at(e, i) by {
            if i < h.len() {
                if i == 0 && c == '&' {
                    assert(e.skip(0).subrange(0, 5) =~= amp_entity());
                } else if i == 0 && c == '<' {
                    assert(e.skip(0).subrange(0, 4) =~= lt_entity());
                } else if i == 0 && c == '>' {
                    assert(e.skip(0).subrange(0, 4) =~= gt_entity());
                } else if i == 0 && c == '"' {
                    assert(e.skip(0).subrange(0, 6) =~= quot_entity());
                }
            } else {
                let k = i - h.len();
                assert(e[i] == rest[k]);
                assert(clean_at(rest, k));
                if rest[k] == '&' {
                    assert(entity_at(rest, k));
                    assert(e.skip(i) =~= rest.skip(k));
                }
            }
        }
    }
}

/// XML escaping leaves no raw `<`, `>` or `"`, every `&` it leaves begins one of the four
/// entities, and one left-to-right decoding pass gives the input back.
pub proof fn law_xml_escape_round_trip(s: Seq<char>)
    ensures
        xml_unescaped(xml_escaped(s)) == s,
        forall|i: int| 0 <= i < xml_escaped(s).len() ==> #[trigger] clean_at(xml_escaped(s), i),
    decreases s.len(),
{
    lemma_xml_clean(s);
    if s.len() == 0 {
        assert(xml_escaped(s) =~= Seq::<char>::empty());
    } else {
        lemma_xml_front(s);
        law_xml_escape_round_trip(s.drop_first());
        lemma_xml_unescape_step(s[0], xml_escaped(s.drop_first()));
        assert(seq![s[0]] + s.drop_first() =~= s);
    }
}


/// Trimming keeps text ASCII.
pub proof fn lemma_trimmed_ascii(s: Seq<char>)
    requires
        ascii_text(s),
    ensures
        ascii_text(trimmed(s)),
{
    lemma_trim_start_ascii(s);
    lemma_trim_end_ascii(trim_start(s));
}

proof fn lemma_trim_start_ascii(s: Seq<char>)
    requires
        ascii_text(s),
    ensures
        ascii_text(trim_start(s)),
    decreases s.len(),
{
    if s.len() > 0 && is_ws(s[0]) {
        assert forall|j: int| 0 <= j < s.drop_first().len() implies (#[trigger] s.drop_first()[j] as u32) < 128 by {
            assert(s.drop_first()[j] == s[j + 1]);
        }
        lemma_trim_start_ascii(s.drop_first());
    }
}

proof fn lemma_trim_end_ascii(s: Seq<char>)
    requires
        ascii_text(s),
    ensures
        ascii_text(trim_end(s)),
    decreases s.len(),
{
    if s.len() > 0 && is_ws(s.last()) {
        assert forall|j: int| 0 <= j < s.drop_last().len() implies (#[trigger] s.drop_last()[j] as u32) < 128 by {
            assert(s.drop_last()[j] == s[j]);
        }
        lemma_trim_end_ascii(s.drop_last());
    }
}

}
