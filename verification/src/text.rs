//! Character-level text handling shared by the parsers of this crate.
//!
//! Strings are reasoned about through their views as `Seq<char>`. The
//! executable helpers work on `Vec<char>` copies and are proved against
//! the spec functions defined here.
use vstd::prelude::*;

verus! {

// ---------------------------------------------------------------------------
// Specifications
// ---------------------------------------------------------------------------

/// Unicode `White_Space`, the property that `char::is_whitespace` tests.
pub open spec fn is_white(c: char) -> bool {
    let u = c as u32;
    ||| (0x09 <= u && u <= 0x0d)
    ||| u == 0x20
    ||| u == 0x85
    ||| u == 0xa0
    ||| u == 0x1680
    ||| (0x2000 <= u && u <= 0x200a)
    ||| u == 0x2028
    ||| u == 0x2029
    ||| u == 0x202f
    ||| u == 0x205f
    ||| u == 0x3000
}

/// Index of the first non-whitespace character at or after `i`.
pub open spec fn lead_ws(s: Seq<char>, i: int) -> int
    decreases s.len() - i,
{
    if 0 <= i < s.len() && is_white(s[i]) {
        lead_ws(s, i + 1)
    } else {
        i
    }
}

/// End (exclusive) of `s[lo..j]` once trailing whitespace is removed.
pub open spec fn trail_ws(s: Seq<char>, lo: int, j: int) -> int
    decreases j - lo,
{
    if lo < j && j <= s.len() && is_white(s[j - 1]) {
        trail_ws(s, lo, j - 1)
    } else {
        j
    }
}

/// `str::trim_start`.
pub open spec fn trim_start(s: Seq<char>) -> Seq<char> {
    s.subrange(lead_ws(s, 0), s.len() as int)
}

/// `str::trim_end`.
pub open spec fn trim_end(s: Seq<char>) -> Seq<char> {
    s.subrange(0, trail_ws(s, 0, s.len() as int))
}

/// `str::trim`.
pub open spec fn trim(s: Seq<char>) -> Seq<char> {
    s.subrange(lead_ws(s, 0), trail_ws(s, lead_ws(s, 0), s.len() as int))
}

/// Index of the first `c` at or after `i`; `s.len()` when there is none.
pub open spec fn find_from(s: Seq<char>, c: char, i: int) -> int
    decreases s.len() - i,
{
    if 0 <= i < s.len() && s[i] != c {
        find_from(s, c, i + 1)
    } else {
        i
    }
}

/// Does `c` occur in `s`?
pub open spec fn has_char(s: Seq<char>, c: char) -> bool {
    exists|i: int| 0 <= i < s.len() && s[i] == c
}

/// `str::starts_with`.
pub open spec fn starts_with(s: Seq<char>, p: Seq<char>) -> bool {
    p.len() <= s.len() && s.subrange(0, p.len() as int) == p
}

/// `str::ends_with`.
pub open spec fn ends_with(s: Seq<char>, p: Seq<char>) -> bool {
    p.len() <= s.len() && s.subrange(s.len() - p.len(), s.len() as int) == p
}

/// Does `p` occur in `s` starting at position `i`?
pub open spec fn occurs_at(s: Seq<char>, p: Seq<char>, i: int) -> bool {
    0 <= i && i + p.len() <= s.len() && s.subrange(i, i + p.len()) == p
}

/// `str::contains` with a string pattern.
pub open spec fn contains(s: Seq<char>, p: Seq<char>) -> bool {
    exists|i: int| occurs_at(s, p, i)
}

/// Drops a single trailing `'\r'`.
pub open spec fn strip_cr(l: Seq<char>) -> Seq<char> {
    if l.len() > 0 && l.last() == '\r' {
        l.drop_last()
    } else {
        l
    }
}

/// The lines of `s[start..]` as `str::lines` yields them: split after each
/// `'\n'`, drop the `'\n'` and a `'\r'` before it; no final empty line.
pub open spec fn lines_from(s: Seq<char>, start: int) -> Seq<Seq<char>>
    decreases s.len() - start,
{
    if start < 0 || start >= s.len() {
        Seq::empty()
    } else {
        let k = find_from(s, '\n', start);
        if k >= s.len() {
            seq![s.subrange(start, s.len() as int)]
        } else if k < start {
            Seq::empty()
        } else {
            seq![strip_cr(s.subrange(start, k))] + lines_from(s, k + 1)
        }
    }
}

/// `str::lines`.
pub open spec fn lines(s: Seq<char>) -> Seq<Seq<char>> {
    lines_from(s, 0)
}

/// ASCII lower-casing of one character (`char::to_ascii_lowercase`).
pub open spec fn lower_char(c: char) -> char {
    if 'A' <= c && c <= 'Z' {
        ((c as u32) + 32) as char
    } else {
        c
    }
}

/// `str::to_ascii_lowercase`.
pub open spec fn ascii_lower(s: Seq<char>) -> Seq<char> {
    s.map_values(|c: char| lower_char(c))
}

/// `str::eq_ignore_ascii_case`.
pub open spec fn eq_ignore_case(a: Seq<char>, b: Seq<char>) -> bool {
    ascii_lower(a) == ascii_lower(b)
}

/// Is `c` an ASCII digit?
pub open spec fn is_digit(c: char) -> bool {
    '0' <= c && c <= '9'
}

/// Is `c` an ASCII letter or digit?
pub open spec fn is_alnum(c: char) -> bool {
    is_digit(c) || ('a' <= c && c <= 'z') || ('A' <= c && c <= 'Z')
}

/// Are all characters of `s` ASCII digits?
pub open spec fn all_digits(s: Seq<char>) -> bool {
    forall|i: int| 0 <= i < s.len() ==> is_digit(s[i])
}

/// Numeric value of an ASCII digit.
pub open spec fn digit_value(c: char) -> nat {
    ((c as u32) - ('0' as u32)) as nat
}

/// Value of a run of decimal digits.
pub open spec fn digits_value(s: Seq<char>) -> nat
    decreases s.len(),
{
    if s.len() == 0 {
        0
    } else {
        digits_value(s.drop_last()) * 10 + digit_value(s.last())
    }
}

/// The character of a digit value below ten.
pub open spec fn digit_char(d: nat) -> char {
    (('0' as u32) + d) as char
}

/// Decimal rendering of a natural number, as `u64::to_string` writes it.
pub open spec fn decimal(n: nat) -> Seq<char>
    decreases n,
{
    if n < 10 {
        seq![digit_char(n)]
    } else {
        decimal(n / 10).push(digit_char(n % 10))
    }
}

/// Splits `s` at every `sep` (`str::split` with a character pattern).
pub open spec fn split_char_from(s: Seq<char>, sep: char, start: int) -> Seq<Seq<char>>
    decreases s.len() - start,
{
    if start < 0 || start > s.len() {
        Seq::empty()
    } else {
        let k = find_from(s, sep, start);
        if k >= s.len() || k < start {
            seq![s.subrange(start, s.len() as int)]
        } else {
            seq![s.subrange(start, k)] + split_char_from(s, sep, k + 1)
        }
    }
}

/// `str::split` with a character separator.
pub open spec fn split_char(s: Seq<char>, sep: char) -> Seq<Seq<char>> {
    split_char_from(s, sep, 0)
}

/// Number of bytes UTF-8 uses for `c` (`char::len_utf8`).
pub open spec fn utf8_len(c: char) -> nat {
    let u = c as u32;
    if u < 0x80 {
        1
    } else if u < 0x800 {
        2
    } else if u < 0x10000 {
        3
    } else {
        4
    }
}

/// Number of bytes of the UTF-8 encoding of `s` (`str::len`).
pub open spec fn utf8_size(s: Seq<char>) -> nat
    decreases s.len(),
{
    if s.len() == 0 {
        0
    } else {
        utf8_size(s.drop_last()) + utf8_len(s.last())
    }
}

/// Slicing a string with this text at byte `n` (`&text[..n]` after a
/// `len() >= n` test) does not panic: either the text is shorter than `n`
/// bytes, or byte `n` falls between two characters.
pub open spec fn byte_cut_ok(s: Seq<char>, n: nat) -> bool {
    utf8_size(s) < n || exists|k: int| 0 <= k <= s.len() && utf8_size(#[trigger] s.take(k)) == n
}

/// First index at or after `i` where `p` occurs in `s`, if any.
pub open spec fn find_sub_from(s: Seq<char>, p: Seq<char>, i: int) -> Option<int>
    decreases s.len() + 1 - i,
{
    if i < 0 || i + p.len() > s.len() {
        None
    } else if occurs_at(s, p, i) {
        Some(i)
    } else {
        find_sub_from(s, p, i + 1)
    }
}

/// `text.strip_prefix(p)` where `p` is compared ignoring ASCII case, for an
/// ASCII `p`; the text must be cut at `p.len()` characters.
pub open spec fn strip_prefix_ic(s: Seq<char>, p: Seq<char>) -> Option<Seq<char>> {
    if s.len() >= p.len() && eq_ignore_case(s.take(p.len() as int), p) {
        Some(s.skip(p.len() as int))
    } else {
        None
    }
}

/// `str::trim_start_matches(c)`.
pub open spec fn trim_start_char(s: Seq<char>, c: char, i: int) -> int
    decreases s.len() - i,
{
    if 0 <= i < s.len() && s[i] == c {
        trim_start_char(s, c, i + 1)
    } else {
        i
    }
}

// ---------------------------------------------------------------------------
// Lemmas
// ---------------------------------------------------------------------------

/// Bounds of `lead_ws`.
pub proof fn lemma_lead_ws_bounds(s: Seq<char>, i: int)
    requires
        0 <= i <= s.len(),
    ensures
        i <= lead_ws(s, i) <= s.len(),
        forall|j: int| i <= j < lead_ws(s, i) ==> is_white(s[j]),
        lead_ws(s, i) < s.len() ==> !is_white(s[lead_ws(s, i)]),
    decreases s.len() - i,
{
    if i < s.len() && is_white(s[i]) {
        lemma_lead_ws_bounds(s, i + 1);
    }
}

/// Bounds of `trail_ws`.
pub proof fn lemma_trail_ws_bounds(s: Seq<char>, lo: int, j: int)
    requires
        0 <= lo <= j <= s.len(),
    ensures
        lo <= trail_ws(s, lo, j) <= j,
        forall|k: int| trail_ws(s, lo, j) <= k < j ==> is_white(s[k]),
        trail_ws(s, lo, j) > lo ==> !is_white(s[trail_ws(s, lo, j) - 1]),
    decreases j - lo,
{
    if lo < j && is_white(s[j - 1]) {
        lemma_trail_ws_bounds(s, lo, j - 1);
    }
}

/// Facts about `trim`: it is a window of `s` that starts and ends with
/// non-whitespace, and everything outside the window is whitespace.
pub proof fn lemma_trim_facts(s: Seq<char>)
    ensures
        trim(s).len() <= s.len(),
        trim(s).len() > 0 ==> !is_white(trim(s)[0]) && !is_white(trim(s).last()),
        trim(s).len() == 0 ==> forall|k: int| 0 <= k < s.len() ==> is_white(s[k]),
{
    lemma_lead_ws_bounds(s, 0);
    let a = lead_ws(s, 0);
    lemma_trail_ws_bounds(s, a, s.len() as int);
    let b = trail_ws(s, a, s.len() as int);
    if b > a {
        assert(trim(s)[0] == s[a]);
        assert(trim(s).last() == s[b - 1]);
    } else {
        assert forall|k: int| 0 <= k < s.len() implies is_white(s[k]) by {
            if k < a {
            } else {
                assert(b <= k);
            }
        }
    }
}

/// A sequence that neither starts nor ends with whitespace is its own trim.
pub proof fn lemma_trim_identity(s: Seq<char>)
    requires
        s.len() > 0 ==> !is_white(s[0]) && !is_white(s.last()),
    ensures
        trim(s) == s,
{
    if s.len() > 0 {
        assert(lead_ws(s, 0) == 0);
        assert(trail_ws(s, 0, s.len() as int) == s.len());
    }
    assert(trim(s) =~= s);
}

/// Trimming is idempotent.
pub proof fn lemma_trim_idempotent(s: Seq<char>)
    ensures
        trim(trim(s)) == trim(s),
{
    lemma_trim_facts(s);
    lemma_trim_identity(trim(s));
}

/// Bounds and meaning of `find_from`.
pub proof fn lemma_find_from(s: Seq<char>, c: char, i: int)
    requires
        0 <= i <= s.len(),
    ensures
        i <= find_from(s, c, i) <= s.len(),
        forall|j: int| i <= j < find_from(s, c, i) ==> s[j] != c,
        find_from(s, c, i) < s.len() ==> s[find_from(s, c, i)] == c,
    decreases s.len() - i,
{
    if i < s.len() && s[i] != c {
        lemma_find_from(s, c, i + 1);
    }
}

/// `find_from` returns `j` when `s[j] == c` and nothing between `i` and `j` is `c`.
pub proof fn lemma_find_from_at(s: Seq<char>, c: char, i: int, j: int)
    requires
        0 <= i <= j < s.len(),
        s[j] == c,
        forall|k: int| i <= k < j ==> s[k] != c,
    ensures
        find_from(s, c, i) == j,
    decreases j - i,
{
    if i < j {
        lemma_find_from_at(s, c, i + 1, j);
    }
}

/// `find_from` returns `s.len()` when `c` does not occur from `i` on.
pub proof fn lemma_find_from_none(s: Seq<char>, c: char, i: int)
    requires
        0 <= i <= s.len(),
        forall|k: int| i <= k < s.len() ==> s[k] != c,
    ensures
        find_from(s, c, i) == s.len(),
    decreases s.len() - i,
{
    if i < s.len() {
        lemma_find_from_none(s, c, i + 1);
    }
}

/// Splitting `s`, a separator and a piece without separators gives the
/// pieces of `s` followed by that piece.
pub proof fn lemma_split_push(s: Seq<char>, t: Seq<char>, sep: char, start: int)
    requires
        0 <= start <= s.len(),
        !has_char(t, sep),
    ensures
        split_char_from(s + seq![sep] + t, sep, start) == split_char_from(s, sep, start).push(t),
    decreases s.len() - start,
{
    let u = s + seq![sep] + t;
    let n = s.len() as int;
    lemma_find_from(s, sep, start);
    let k = find_from(s, sep, start);
    assert forall|j: int| 0 <= j < n implies u[j] == s[j] by {}
    assert(u[n] == sep);
    if k < n {
        lemma_find_from_at(u, sep, start, k);
        lemma_split_push(s, t, sep, k + 1);
        assert(u.subrange(start, k) =~= s.subrange(start, k));
        assert(split_char_from(u, sep, start) =~= split_char_from(s, sep, start).push(t));
    } else {
        lemma_find_from_at(u, sep, start, n);
        assert forall|j: int| n + 1 <= j < u.len() implies u[j] != sep by {
            assert(u[j] == t[j - n - 1]);
        }
        lemma_find_from_none(u, sep, n + 1);
        assert(u.subrange(start, n) =~= s.subrange(start, n));
        assert(u.subrange(n + 1, u.len() as int) =~= t);
        assert(split_char_from(u, sep, n + 1) =~= seq![t]);
        assert(split_char_from(u, sep, start) =~= split_char_from(s, sep, start).push(t));
    }
}

/// A piece of a sequence without `c` holds no `c` either.
pub proof fn lemma_no_char_subrange(s: Seq<char>, c: char, i: int, j: int)
    requires
        !has_char(s, c),
        0 <= i <= j <= s.len(),
    ensures
        !has_char(s.subrange(i, j), c),
{
    if has_char(s.subrange(i, j), c) {
        let w = choose|m: int| 0 <= m < j - i && s.subrange(i, j)[m] == c;
        assert(s[i + w] == c);
    }
}

/// Trimming a sequence without `c` leaves none.
pub proof fn lemma_no_char_trim(s: Seq<char>, c: char)
    requires
        !has_char(s, c),
    ensures
        !has_char(trim(s), c),
{
    lemma_lead_ws_bounds(s, 0);
    let a = lead_ws(s, 0);
    lemma_trail_ws_bounds(s, a, s.len() as int);
    lemma_no_char_subrange(s, c, a, trail_ws(s, a, s.len() as int));
}

/// No line holds a line break, and a line holds no character that the
/// whole text lacks.
pub proof fn lemma_lines_from_chars(s: Seq<char>, c: char, start: int)
    requires
        0 <= start <= s.len(),
    ensures
        forall|i: int|
            0 <= i < lines_from(s, start).len() ==> !has_char(#[trigger] lines_from(s, start)[i], '\n')
                && (!has_char(s, c) ==> !has_char(lines_from(s, start)[i], c)),
    decreases s.len() - start,
{
    if start < s.len() {
        lemma_find_from(s, '\n', start);
        let k = find_from(s, '\n', start);
        let piece = s.subrange(start, k);
        assert(!has_char(piece, '\n')) by {
            if has_char(piece, '\n') {
                let w = choose|m: int| 0 <= m < piece.len() && piece[m] == '\n';
                assert(s[start + w] == '\n');
            }
        }
        if !has_char(s, c) {
            lemma_no_char_subrange(s, c, start, k);
        }
        let first = if k >= s.len() { piece } else { strip_cr(piece) };
        assert(!has_char(first, '\n') && (!has_char(s, c) ==> !has_char(first, c))) by {
            if k < s.len() && piece.len() > 0 && piece.last() == '\r' {
                lemma_no_char_subrange(piece, '\n', 0, piece.len() - 1);
                if !has_char(s, c) {
                    lemma_no_char_subrange(piece, c, 0, piece.len() - 1);
                }
                assert(strip_cr(piece) =~= piece.subrange(0, piece.len() - 1));
            }
        }
        if k < s.len() {
            lemma_lines_from_chars(s, c, k + 1);
            let rest = lines_from(s, k + 1);
            assert(lines_from(s, start) =~= seq![first] + rest);
            assert forall|i: int| 0 <= i < lines_from(s, start).len() implies !has_char(
                #[trigger] lines_from(s, start)[i],
                '\n',
            ) && (!has_char(s, c) ==> !has_char(lines_from(s, start)[i], c)) by {
                if i > 0 {
                    assert(lines_from(s, start)[i] == rest[i - 1]);
                }
            }
        } else {
            assert(lines_from(s, start) =~= seq![first]);
        }
    }
}

/// `has_char` agrees with `find_from` from the start.
pub proof fn lemma_has_char_find(s: Seq<char>, c: char)
    ensures
        has_char(s, c) <==> find_from(s, c, 0) < s.len(),
{
    lemma_find_from(s, c, 0);
    if has_char(s, c) {
        let w = choose|i: int| 0 <= i < s.len() && s[i] == c;
        assert(find_from(s, c, 0) <= w);
    }
}

/// Searching in `p + t` past `p` is searching in `t`, shifted.
pub proof fn lemma_find_from_shift(p: Seq<char>, t: Seq<char>, c: char, j: int)
    requires
        0 <= j <= t.len(),
    ensures
        find_from(p + t, c, p.len() + j) == p.len() + find_from(t, c, j),
    decreases t.len() - j,
{
    if j < t.len() {
        assert((p + t)[p.len() + j] == t[j]);
        if t[j] != c {
            lemma_find_from_shift(p, t, c, j + 1);
        }
    }
}

/// The lines of `p + t` read from past `p` are the lines of `t`.
pub proof fn lemma_lines_from_shift(p: Seq<char>, t: Seq<char>, j: int)
    requires
        0 <= j <= t.len(),
    ensures
        lines_from(p + t, p.len() + j) == lines_from(t, j),
    decreases t.len() - j,
{
    let s = p + t;
    if j < t.len() {
        lemma_find_from_shift(p, t, '\n', j);
        lemma_find_from(t, '\n', j);
        let k = find_from(t, '\n', j);
        if k >= t.len() {
            assert(s.subrange(p.len() + j, s.len() as int) =~= t.subrange(j, t.len() as int));
        } else {
            assert(s.subrange(p.len() + j, p.len() + k) =~= t.subrange(j, k));
            lemma_lines_from_shift(p, t, k + 1);
        }
    }
}

/// When `a` is empty or ends with `'\n'`, the lines of `a + b` are the
/// lines of `a` followed by the lines of `b`.
pub proof fn lemma_lines_concat(a: Seq<char>, b: Seq<char>, start: int)
    requires
        0 <= start <= a.len(),
        a.len() > 0 ==> a.last() == '\n',
    ensures
        lines_from(a + b, start) == lines_from(a, start) + lines_from(b, 0),
    decreases a.len() - start,
{
    let s = a + b;
    if start == a.len() {
        lemma_lines_from_shift(a, b, 0);
        assert(lines_from(a, start) =~= Seq::<Seq<char>>::empty());
        assert(lines_from(a, start) + lines_from(b, 0) =~= lines_from(b, 0));
    } else {
        lemma_find_from(a, '\n', start);
        let k = find_from(a, '\n', start);
        assert(a[a.len() - 1] == '\n');
        assert(k < a.len());
        assert forall|m: int| start <= m < k implies s[m] != '\n' by {
            assert(s[m] == a[m]);
        }
        assert(s[k] == a[k]);
        lemma_find_from_at(s, '\n', start, k);
        assert(s.subrange(start, k) =~= a.subrange(start, k));
        lemma_lines_concat(a, b, k + 1);
        assert(lines_from(a + b, start) =~= seq![strip_cr(a.subrange(start, k))]
            + lines_from(a + b, k + 1));
        assert(lines_from(a, start) =~= seq![strip_cr(a.subrange(start, k))] + lines_from(a, k + 1));
        assert(lines_from(a + b, start) =~= lines_from(a, start) + lines_from(b, 0));
    }
}

/// A single line followed by `'\n'` reads back as that line when it holds
/// no `'\n'` and does not end with `'\r'`.
pub proof fn lemma_lines_single(l: Seq<char>)
    requires
        !has_char(l, '\n'),
        l.len() > 0 ==> l.last() != '\r',
    ensures
        lines(l.push('\n')) == seq![l],
{
    let s = l.push('\n');
    assert forall|m: int| 0 <= m < l.len() implies s[m] != '\n' by {
        assert(s[m] == l[m]);
    }
    lemma_find_from_at(s, '\n', 0, l.len() as int);
    assert(s.subrange(0, l.len() as int) =~= l);
    assert(lines_from(s, l.len() as int + 1) =~= Seq::<Seq<char>>::empty());
    assert(lines(s) =~= seq![l]);
}

/// `lead_ws` stops at the first non-whitespace position `p`.
pub proof fn lemma_lead_ws_at(s: Seq<char>, i: int, p: int)
    requires
        0 <= i <= p <= s.len(),
        forall|m: int| i <= m < p ==> is_white(s[m]),
        p < s.len() ==> !is_white(s[p]),
    ensures
        lead_ws(s, i) == p,
    decreases p - i,
{
    if i < p {
        lemma_lead_ws_at(s, i + 1, p);
    }
}

/// `trail_ws` stops at the last non-whitespace position.
pub proof fn lemma_trail_ws_at(s: Seq<char>, lo: int, j: int, p: int)
    requires
        0 <= lo <= p <= j <= s.len(),
        forall|m: int| p <= m < j ==> is_white(s[m]),
        p > lo ==> !is_white(s[p - 1]),
    ensures
        trail_ws(s, lo, j) == p,
    decreases j - p,
{
    if p < j {
        lemma_trail_ws_at(s, lo, j - 1, p);
    }
}

/// Appending whitespace to an already trimmed sequence trims back to it.
pub proof fn lemma_trim_append_ws(x: Seq<char>, w: Seq<char>)
    requires
        trim(x) == x,
        forall|m: int| 0 <= m < w.len() ==> is_white(w[m]),
    ensures
        trim(x + w) == x,
{
    let s = x + w;
    lemma_trim_facts(x);
    if x.len() == 0 {
        assert(s =~= w);
        lemma_lead_ws_at(s, 0, s.len() as int);
        lemma_trail_ws_at(s, s.len() as int, s.len() as int, s.len() as int);
        assert(trim(s) =~= x);
    } else {
        assert(s[0] == x[0]);
        lemma_lead_ws_at(s, 0, 0);
        assert(s[x.len() - 1] == x.last());
        assert forall|m: int| x.len() <= m < s.len() implies is_white(s[m]) by {
            assert(s[m] == w[m - x.len()]);
        }
        lemma_trail_ws_at(s, 0, s.len() as int, x.len() as int);
        assert(trim(s) =~= x);
    }
}

/// Prepending whitespace to an already trimmed sequence trims back to it.
pub proof fn lemma_trim_prepend_ws(w: Seq<char>, x: Seq<char>)
    requires
        trim(x) == x,
        forall|m: int| 0 <= m < w.len() ==> is_white(w[m]),
    ensures
        trim(w + x) == x,
{
    let s = w + x;
    lemma_trim_facts(x);
    if x.len() == 0 {
        assert(s =~= w);
        lemma_lead_ws_at(s, 0, s.len() as int);
        lemma_trail_ws_at(s, s.len() as int, s.len() as int, s.len() as int);
        assert(trim(s) =~= x);
    } else {
        assert forall|m: int| 0 <= m < w.len() implies is_white(s[m]) by {
            assert(s[m] == w[m]);
        }
        assert(s[w.len() as int] == x[0]);
        lemma_lead_ws_at(s, 0, w.len() as int);
        assert(s[s.len() - 1] == x.last());
        lemma_trail_ws_at(s, w.len() as int, s.len() as int, s.len() as int);
        assert(trim(s) =~= x);
    }
}

/// What `find_sub_from` finds is an occurrence at or after `i`, and there
/// is none between `i` and it.
pub proof fn lemma_find_sub_from(s: Seq<char>, p: Seq<char>, i: int)
    ensures
        find_sub_from(s, p, i) matches Some(k) ==> occurs_at(s, p, k) && i <= k && forall|m: int|
            i <= m < k ==> !occurs_at(s, p, m),
        find_sub_from(s, p, i) is None && 0 <= i ==> forall|m: int| i <= m ==> !occurs_at(s, p, m),
    decreases s.len() + 1 - i,
{
    if i < 0 || i + p.len() > s.len() {
        if i < 0 {
        }
    } else if !occurs_at(s, p, i) {
        lemma_find_sub_from(s, p, i + 1);
    }
}

// ---------------------------------------------------------------------------
// Executable helpers
// ---------------------------------------------------------------------------

/// Appends one character to a `String`.
///
/// Trusted: wraps `String::push`, which vstd leaves without a contract; the
/// contract states what its documentation says, that `c` is appended.
#[verifier::external_body]
pub fn push_char(s: &mut String, c: char)
    ensures
        final(s)@ == old(s)@.push(c),
{
    s.push(c);
}

/// Copies the characters of a string slice into a vector.
pub fn chars_of(s: &str) -> (v: Vec<char>)
    ensures
        v@ == s@,
{
    let mut v: Vec<char> = Vec::new();
    for c in it: s.chars()
        invariant
            v@ == it.seq().take(it.index() as int),
            it.seq() == s@,
    {
        v.push(c);
    }
    v
}

/// Builds a `String` from the characters `v[lo..hi]`.
pub fn string_of_range(v: &Vec<char>, lo: usize, hi: usize) -> (r: String)
    requires
        lo <= hi <= v.len(),
    ensures
        r@ == v@.subrange(lo as int, hi as int),
{
    let mut r = String::new();
    let mut i = lo;
    while i < hi
        invariant
            lo <= i <= hi <= v.len(),
            r@ == v@.subrange(lo as int, i as int),
        decreases hi - i,
    {
        push_char(&mut r, v[i]);
        i += 1;
        assert(r@ =~= v@.subrange(lo as int, i as int));
    }
    r
}

/// Builds a `String` from a vector of characters.
pub fn string_of(v: &Vec<char>) -> (r: String)
    ensures
        r@ == v@,
{
    let r = string_of_range(v, 0, v.len());
    assert(v@.subrange(0, v@.len() as int) =~= v@);
    r
}

/// Copies the window `v[lo..hi]` into a new vector.
pub fn slice_chars(v: &Vec<char>, lo: usize, hi: usize) -> (r: Vec<char>)
    requires
        lo <= hi <= v.len(),
    ensures
        r@ == v@.subrange(lo as int, hi as int),
{
    let mut r: Vec<char> = Vec::new();
    let mut i = lo;
    while i < hi
        invariant
            lo <= i <= hi <= v.len(),
            r@ == v@.subrange(lo as int, i as int),
        decreases hi - i,
    {
        r.push(v[i]);
        i += 1;
        assert(r@ =~= v@.subrange(lo as int, i as int));
    }
    r
}

/// `char::is_whitespace`.
pub fn is_white_char(c: char) -> (b: bool)
    ensures
        b == is_white(c),
{
    let u = c as u32;
    (0x09 <= u && u <= 0x0d) || u == 0x20 || u == 0x85 || u == 0xa0 || u == 0x1680 || (0x2000
        <= u && u <= 0x200a) || u == 0x2028 || u == 0x2029 || u == 0x202f || u == 0x205f || u
        == 0x3000
}

/// Start of the window that `trim` keeps.
pub fn lead_index(v: &Vec<char>) -> (i: usize)
    ensures
        i == lead_ws(v@, 0),
        i <= v.len(),
{
    let mut i: usize = 0;
    while i < v.len() && is_white_char(v[i])
        invariant
            i <= v.len(),
            lead_ws(v@, 0) == lead_ws(v@, i as int),
        decreases v.len() - i,
    {
        i += 1;
    }
    i
}

/// End of the window that `trim` keeps, searching back to `lo`.
pub fn trail_index(v: &Vec<char>, lo: usize) -> (j: usize)
    requires
        lo <= v.len(),
    ensures
        j == trail_ws(v@, lo as int, v.len() as int),
        lo <= j <= v.len(),
{
    let mut j: usize = v.len();
    while j > lo && is_white_char(v[j - 1])
        invariant
            lo <= j <= v.len(),
            trail_ws(v@, lo as int, v.len() as int) == trail_ws(v@, lo as int, j as int),
        decreases j - lo,
    {
        j -= 1;
    }
    j
}

/// `str::trim` on a character vector.
pub fn trim_chars(v: &Vec<char>) -> (r: Vec<char>)
    ensures
        r@ == trim(v@),
{
    let a = lead_index(v);
    let b = trail_index(v, a);
    slice_chars(v, a, b)
}

/// `str::trim_start` on a character vector.
pub fn trim_start_chars(v: &Vec<char>) -> (r: Vec<char>)
    ensures
        r@ == trim_start(v@),
{
    let a = lead_index(v);
    slice_chars(v, a, v.len())
}

/// `str::trim` returning a `String`.
pub fn trim_str(s: &str) -> (r: String)
    ensures
        r@ == trim(s@),
{
    let v = chars_of(s);
    let t = trim_chars(&v);
    string_of(&t)
}

/// First index of `c` at or after `i`, or `v.len()`.
pub fn find_char_from(v: &Vec<char>, c: char, i: usize) -> (k: usize)
    requires
        i <= v.len(),
    ensures
        k == find_from(v@, c, i as int),
        i <= k <= v.len(),
{
    let mut k = i;
    while k < v.len() && v[k] != c
        invariant
            i <= k <= v.len(),
            find_from(v@, c, i as int) == find_from(v@, c, k as int),
        decreases v.len() - k,
    {
        k += 1;
    }
    k
}

/// `str::contains` with a character pattern.
pub fn has_char_exec(v: &Vec<char>, c: char) -> (b: bool)
    ensures
        b == has_char(v@, c),
{
    let k = find_char_from(v, c, 0);
    proof {
        lemma_has_char_find(v@, c);
    }
    k < v.len()
}

/// Character-wise equality of two vectors.
pub fn chars_eq(a: &Vec<char>, b: &Vec<char>) -> (r: bool)
    ensures
        r == (a@ == b@),
{
    if a.len() != b.len() {
        return false;
    }
    let mut i: usize = 0;
    while i < a.len()
        invariant
            i <= a.len() == b.len(),
            forall|j: int| 0 <= j < i ==> a@[j] == b@[j],
        decreases a.len() - i,
    {
        if a[i] != b[i] {
            return false;
        }
        i += 1;
    }
    assert(a@ =~= b@);
    true
}

/// Does `p` occur in `v` at position `i`?
pub fn occurs_at_exec(v: &Vec<char>, p: &Vec<char>, i: usize) -> (r: bool)
    ensures
        r == occurs_at(v@, p@, i as int),
{
    if i > v.len() || p.len() > v.len() - i {
        return false;
    }
    let mut j: usize = 0;
    while j < p.len()
        invariant
            i + p.len() <= v.len(),
            j <= p.len(),
            forall|m: int| 0 <= m < j ==> v@[i + m] == p@[m],
        decreases p.len() - j,
    {
        if v[i + j] != p[j] {
            assert(v@.subrange(i as int, i + p.len())[j as int] != p@[j as int]);
            return false;
        }
        j += 1;
    }
    assert(v@.subrange(i as int, i + p.len()) =~= p@);
    true
}

/// `str::starts_with` with a string pattern.
pub fn starts_with_exec(v: &Vec<char>, p: &Vec<char>) -> (r: bool)
    ensures
        r == starts_with(v@, p@),
{
    occurs_at_exec(v, p, 0)
}

/// `str::ends_with` with a string pattern.
pub fn ends_with_exec(v: &Vec<char>, p: &Vec<char>) -> (r: bool)
    ensures
        r == ends_with(v@, p@),
{
    if p.len() > v.len() {
        return false;
    }
    occurs_at_exec(v, p, v.len() - p.len())
}

/// `str::contains` with a string pattern.
pub fn contains_exec(v: &Vec<char>, p: &Vec<char>) -> (r: bool)
    ensures
        r == contains(v@, p@),
{
    if p.len() > v.len() {
        proof {
            assert forall|i: int| !occurs_at(v@, p@, i) by {}
        }
        return false;
    }
    let last = v.len() - p.len();
    let mut i: usize = 0;
    loop
        invariant
            p.len() <= v.len(),
            last == v.len() - p.len(),
            i <= last,
            forall|m: int| 0 <= m < i ==> !occurs_at(v@, p@, m),
        ensures
            forall|m: int| 0 <= m <= last ==> !occurs_at(v@, p@, m),
        decreases last - i,
    {
        if occurs_at_exec(v, p, i) {
            return true;
        }
        if i == last {
            break;
        }
        i += 1;
    }
    proof {
        assert forall|m: int| !occurs_at(v@, p@, m) by {
            if 0 <= m <= last {
            }
        }
    }
    false
}

/// `char::to_ascii_lowercase`.
pub fn lower_char_exec(c: char) -> (r: char)
    ensures
        r == lower_char(c),
{
    if 'A' <= c && c <= 'Z' {
        let u = (c as u8) + 32;
        u as char
    } else {
        c
    }
}

/// `str::to_ascii_lowercase` on a character vector.
pub fn ascii_lower_chars(v: &Vec<char>) -> (r: Vec<char>)
    ensures
        r@ == ascii_lower(v@),
{
    let mut r: Vec<char> = Vec::new();
    let mut i: usize = 0;
    while i < v.len()
        invariant
            i <= v.len(),
            r@ == ascii_lower(v@.take(i as int)),
        decreases v.len() - i,
    {
        r.push(lower_char_exec(v[i]));
        i += 1;
        assert(r@ =~= ascii_lower(v@.take(i as int)));
    }
    assert(v@.take(v.len() as int) =~= v@);
    r
}

/// `str::eq_ignore_ascii_case`.
pub fn eq_ignore_case_exec(a: &Vec<char>, b: &Vec<char>) -> (r: bool)
    ensures
        r == eq_ignore_case(a@, b@),
{
    let la = ascii_lower_chars(a);
    let lb = ascii_lower_chars(b);
    chars_eq(&la, &lb)
}

/// Renders a `u64` in decimal (`u64::to_string`).
pub fn decimal_string(n: u64) -> (r: String)
    ensures
        r@ == decimal(n as nat),
    decreases n,
{
    if n < 10 {
        let mut r = String::new();
        push_char(&mut r, digit_char_exec(n));
        r
    } else {
        let mut r = decimal_string(n / 10);
        push_char(&mut r, digit_char_exec(n % 10));
        r
    }
}

/// The character of a digit value below ten.
pub fn digit_char_exec(d: u64) -> (c: char)
    requires
        d < 10,
    ensures
        c == digit_char(d as nat),
{
    let u = (d as u8) + 0x30;
    u as char
}

/// `char::len_utf8`.
pub fn utf8_len_exec(c: char) -> (n: usize)
    ensures
        n == utf8_len(c),
        1 <= n <= 4,
{
    let u = c as u32;
    if u < 0x80 {
        1
    } else if u < 0x800 {
        2
    } else if u < 0x10000 {
        3
    } else {
        4
    }
}

/// The UTF-8 size of a prefix grows by the size of the next character.
pub proof fn lemma_utf8_size_take(s: Seq<char>, k: int)
    requires
        0 <= k < s.len(),
    ensures
        utf8_size(s.take(k + 1)) == utf8_size(s.take(k)) + utf8_len(s[k]),
{
    assert(s.take(k + 1).drop_last() =~= s.take(k));
}

/// UTF-8 sizes of prefixes strictly increase with their length.
pub proof fn lemma_utf8_size_mono(s: Seq<char>, a: int, b: int)
    requires
        0 <= a < b <= s.len(),
    ensures
        utf8_size(s.take(a)) < utf8_size(s.take(b)),
    decreases b - a,
{
    lemma_utf8_size_take(s, b - 1);
    if a < b - 1 {
        lemma_utf8_size_mono(s, a, b - 1);
    }
}

/// Decides [`byte_cut_ok`].
pub fn byte_cut_ok_exec(v: &Vec<char>, n: usize) -> (r: bool)
    requires
        n < 1000,
    ensures
        r == byte_cut_ok(v@, n as nat),
{
    let mut acc: usize = 0;
    let mut k: usize = 0;
    while k < v.len() && acc < n
        invariant
            k <= v.len(),
            acc == utf8_size(v@.take(k as int)),
            acc <= n + 4,
            n < 1000,
            forall|j: int| 0 <= j < k ==> utf8_size(v@.take(j)) < n,
        decreases v.len() - k,
    {
        proof {
            lemma_utf8_size_take(v@, k as int);
        }
        acc = acc + utf8_len_exec(v[k]);
        k += 1;
    }
    proof {
        assert(v@.take(v@.len() as int) =~= v@);
        if acc == n {
            assert(utf8_size(v@.take(k as int)) == n);
        } else if acc > n {
            assert forall|j: int| 0 <= j <= v@.len() implies utf8_size(#[trigger] v@.take(j)) != n by {
                if j > k {
                    lemma_utf8_size_mono(v@, k as int, j);
                } else if j < k {
                }
            }
            if k < v.len() {
                lemma_utf8_size_mono(v@, k as int, v@.len() as int);
            }
        } else {
            assert(k == v.len());
        }
    }
    acc == n || (k == v.len() && acc < n)
}

/// `strip_prefix` ignoring ASCII case.
pub fn strip_prefix_ic_exec(v: &Vec<char>, p: &Vec<char>) -> (r: Option<Vec<char>>)
    ensures
        r matches Some(rest) ==> strip_prefix_ic(v@, p@) == Some(rest@),
        r is None ==> strip_prefix_ic(v@, p@) is None,
{
    if v.len() < p.len() {
        return None;
    }
    let head = slice_chars(v, 0, p.len());
    if eq_ignore_case_exec(&head, p) {
        Some(slice_chars(v, p.len(), v.len()))
    } else {
        None
    }
}

/// First occurrence of `p` in `v` at or after `i`.
pub fn find_sub_exec(v: &Vec<char>, p: &Vec<char>, i: usize) -> (r: Option<usize>)
    ensures
        r matches Some(k) ==> find_sub_from(v@, p@, i as int) == Some(k as int),
        r is None ==> find_sub_from(v@, p@, i as int) is None,
    decreases v.len() + 1 - i,
{
    if i > v.len() || p.len() > v.len() - i {
        return None;
    }
    if occurs_at_exec(v, p, i) {
        return Some(i);
    }
    if i >= v.len() {
        proof {
            assert(v@.subrange(i as int, i as int) =~= p@);
        }
        return None;
    }
    find_sub_exec(v, p, i + 1)
}

/// End of the run of `c` starting at `i` (`trim_start_matches`).
pub fn trim_start_char_exec(v: &Vec<char>, c: char, i: usize) -> (k: usize)
    requires
        i <= v.len(),
    ensures
        k == trim_start_char(v@, c, i as int),
        i <= k <= v.len(),
{
    let mut k = i;
    while k < v.len() && v[k] == c
        invariant
            i <= k <= v.len(),
            trim_start_char(v@, c, i as int) == trim_start_char(v@, c, k as int),
        decreases v.len() - k,
    {
        k += 1;
    }
    k
}

// ---------------------------------------------------------------------------
// Numbers
// ---------------------------------------------------------------------------

/// `u64::from_str`: an optional `+`, then one or more ASCII digits whose
/// value fits in a `u64`.
pub open spec fn parse_u64_spec(s: Seq<char>) -> Option<nat> {
    let d = if s.len() > 0 && s[0] == '+' {
        s.skip(1)
    } else {
        s
    };
    if d.len() == 0 || !all_digits(d) || digits_value(d) > u64::MAX {
        None
    } else {
        Some(digits_value(d))
    }
}

/// `i64::from_str`: an optional `+` or `-`, then one or more ASCII digits
/// whose signed value fits in an `i64`.
pub open spec fn parse_i64_spec(s: Seq<char>) -> Option<int> {
    let negative = s.len() > 0 && s[0] == '-';
    let d = if s.len() > 0 && (s[0] == '+' || s[0] == '-') {
        s.skip(1)
    } else {
        s
    };
    if d.len() == 0 || !all_digits(d) {
        None
    } else if negative {
        if digits_value(d) > 0x8000_0000_0000_0000 {
            None
        } else {
            Some(-(digits_value(d) as int))
        }
    } else if digits_value(d) > 0x7fff_ffff_ffff_ffff {
        None
    } else {
        Some(digits_value(d) as int)
    }
}

/// Decimal rendering of a signed integer (`i64::to_string`).
pub open spec fn decimal_int(n: int) -> Seq<char> {
    if n < 0 {
        seq!['-'] + decimal((-n) as nat)
    } else {
        decimal(n as nat)
    }
}

/// Prefix values of a digit run never decrease.
pub proof fn lemma_digits_prefix_mono(s: Seq<char>, a: int, b: int)
    requires
        0 <= a <= b <= s.len(),
    ensures
        digits_value(s.take(a)) <= digits_value(s.take(b)),
    decreases b - a,
{
    if a < b {
        lemma_digits_prefix_mono(s, a, b - 1);
        assert(s.take(b).drop_last() =~= s.take(b - 1));
    }
}

/// Reads the digits `d[from..]` into a `u64` when they fit; at most `limit`.
fn digits_to_u64(d: &Vec<char>, from: usize, limit: u64) -> (r: Option<u64>)
    requires
        from <= d.len(),
    ensures
        r matches Some(n) ==> {
            &&& all_digits(d@.skip(from as int))
            &&& n == digits_value(d@.skip(from as int))
            &&& n <= limit
        },
        r is None ==> !all_digits(d@.skip(from as int)) || digits_value(d@.skip(from as int)) > limit,
{
    let ghost t = d@.skip(from as int);
    let mut value: u64 = 0;
    let mut i = from;
    while i < d.len()
        invariant
            from <= i <= d.len(),
            t == d@.skip(from as int),
            all_digits(t.take(i - from)),
            value == digits_value(t.take(i - from)),
            value <= limit,
        decreases d.len() - i,
    {
        let c = d[i];
        if !('0' <= c && c <= '9') {
            proof {
                assert(t[i - from] == c);
            }
            return None;
        }
        let digit = (c as u32 - '0' as u32) as u64;
        proof {
            assert(t.take(i - from + 1).drop_last() =~= t.take(i - from));
            assert(t.take(i - from + 1).last() == c);
        }
        if digit > limit || value > (limit - digit) / 10 {
            proof {
                assert(digits_value(t.take(i - from + 1)) == value * 10 + digit);
                if digit <= limit {
                    assert(value * 10 + digit > limit) by (nonlinear_arith)
                        requires
                            value > (limit - digit) / 10,
                            digit <= limit,
                    ;
                }
                lemma_digits_prefix_mono(t, i - from + 1, t.len() as int);
                assert(t.take(t.len() as int) =~= t);
                if all_digits(t) {
                }
            }
            return None;
        }
        proof {
            assert(value * 10 + digit <= limit) by (nonlinear_arith)
                requires
                    value <= (limit - digit) / 10,
                    digit <= limit,
            ;
        }
        value = value * 10 + digit;
        i += 1;
        proof {
            assert forall|m: int| 0 <= m < i - from implies is_digit(#[trigger] t.take(i - from)[m]) by {
                if m < i - from - 1 {
                    assert(t.take(i - from)[m] == t.take(i - from - 1)[m]);
                }
            }
        }
    }
    proof {
        assert(t.take(i - from) =~= t);
    }
    Some(value)
}

/// `u64::from_str`.
pub fn parse_u64(v: &Vec<char>) -> (r: Option<u64>)
    ensures
        r matches Some(n) ==> parse_u64_spec(v@) == Some(n as nat),
        r is None ==> parse_u64_spec(v@) is None,
{
    let from: usize = if v.len() > 0 && v[0] == '+' { 1 } else { 0 };
    proof {
        assert(v@.skip(0) =~= v@);
    }
    if from == v.len() {
        return None;
    }
    digits_to_u64(v, from, u64::MAX)
}

/// `i64::from_str`.
pub fn parse_i64(v: &Vec<char>) -> (r: Option<i64>)
    ensures
        r matches Some(n) ==> parse_i64_spec(v@) == Some(n as int),
        r is None ==> parse_i64_spec(v@) is None,
{
    let negative = v.len() > 0 && v[0] == '-';
    let from: usize = if v.len() > 0 && (v[0] == '+' || v[0] == '-') { 1 } else { 0 };
    proof {
        assert(v@.skip(0) =~= v@);
    }
    if from == v.len() {
        return None;
    }
    if negative {
        match digits_to_u64(v, from, 0x8000_0000_0000_0000) {
            Some(m) => {
                if m == 0x8000_0000_0000_0000 {
                    Some(i64::MIN)
                } else {
                    Some(-(m as i64))
                }
            },
            None => None,
        }
    } else {
        match digits_to_u64(v, from, 0x7fff_ffff_ffff_ffff) {
            Some(m) => Some(m as i64),
            None => None,
        }
    }
}

/// Renders an `i64` in decimal (`i64::to_string`).
pub fn decimal_string_i64(n: i64) -> (r: String)
    ensures
        r@ == decimal_int(n as int),
{
    if n < 0 {
        let magnitude: u64 = if n == i64::MIN {
            0x8000_0000_0000_0000
        } else {
            (-n) as u64
        };
        let digits = decimal_string(magnitude);
        let mut r = String::new();
        push_char(&mut r, '-');
        r.append(digits.as_str());
        r
    } else {
        decimal_string(n as u64)
    }
}

/// Index of the first `e` or `E` at or after `i`, or `s.len()`.
pub open spec fn find_exp(s: Seq<char>, i: int) -> int
    decreases s.len() - i,
{
    if 0 <= i < s.len() && s[i] != 'e' && s[i] != 'E' {
        find_exp(s, i + 1)
    } else {
        i
    }
}

/// The mantissa of a decimal literal: digits with at most one `.`, and at
/// least one digit.
pub open spec fn mantissa_ok(m: Seq<char>) -> bool {
    let dot = find_from(m, '.', 0);
    if dot >= m.len() {
        m.len() > 0 && all_digits(m)
    } else {
        all_digits(m.take(dot)) && all_digits(m.skip(dot + 1)) && (dot > 0 || m.len() > dot + 1)
    }
}

/// The part after `e`: an optional sign and one or more digits.
pub open spec fn exponent_ok(x: Seq<char>) -> bool {
    let xd = if x.len() > 0 && (x[0] == '+' || x[0] == '-') {
        x.skip(1)
    } else {
        x
    };
    xd.len() > 0 && all_digits(xd)
}

/// The text that `f64::from_str` accepts: an optional sign, then `inf`,
/// `infinity` or `nan` in any case, or a decimal number with an optional
/// exponent.
pub open spec fn is_float_text(s: Seq<char>) -> bool {
    let d = if s.len() > 0 && (s[0] == '+' || s[0] == '-') {
        s.skip(1)
    } else {
        s
    };
    let l = ascii_lower(d);
    let e = find_exp(d, 0);
    ||| l == "inf"@
    ||| l == "infinity"@
    ||| l == "nan"@
    ||| (mantissa_ok(d.take(e)) && (e >= d.len() || exponent_ok(d.skip(e + 1))))
}

/// Does `s` name a value that is not finite: an optional sign, then `inf`,
/// `infinity` or `nan` in any case?
pub open spec fn names_non_finite(s: Seq<char>) -> bool {
    let d = if s.len() > 0 && (s[0] == '+' || s[0] == '-') {
        s.skip(1)
    } else {
        s
    };
    let l = ascii_lower(d);
    l == "inf"@ || l == "infinity"@ || l == "nan"@
}

/// Decides [`names_non_finite`].
pub fn names_non_finite_exec(s: &Vec<char>) -> (r: bool)
    ensures
        r == names_non_finite(s@),
{
    let from: usize = if s.len() > 0 && (s[0] == '+' || s[0] == '-') { 1 } else { 0 };
    let d = slice_chars(s, from, s.len());
    proof {
        assert(s@.skip(0) =~= s@);
        assert(d@ == s@.skip(from as int));
    }
    let l = ascii_lower_chars(&d);
    chars_eq(&l, &chars_of("inf")) || chars_eq(&l, &chars_of("infinity")) || chars_eq(&l, &chars_of("nan"))
}

/// Are all of `v[from..]` ASCII digits?
fn all_digits_from(v: &Vec<char>, from: usize) -> (r: bool)
    requires
        from <= v.len(),
    ensures
        r == all_digits(v@.skip(from as int)),
{
    let mut i = from;
    while i < v.len()
        invariant
            from <= i <= v.len(),
            forall|m: int| from <= m < i ==> is_digit(v@[m]),
        decreases v.len() - i,
    {
        if !('0' <= v[i] && v[i] <= '9') {
            proof {
                assert(v@.skip(from as int)[i - from] == v@[i as int]);
            }
            return false;
        }
        i += 1;
    }
    proof {
        assert forall|m: int| 0 <= m < v@.skip(from as int).len() implies is_digit(
            v@.skip(from as int)[m],
        ) by {
            assert(v@.skip(from as int)[m] == v@[from + m]);
        }
    }
    true
}

/// Decides [`mantissa_ok`].
fn mantissa_ok_exec(m: &Vec<char>) -> (r: bool)
    ensures
        r == mantissa_ok(m@),
{
    let dot = find_char_from(m, '.', 0);
    if dot >= m.len() {
        let r = m.len() > 0 && all_digits_from(m, 0);
        proof {
            assert(m@.skip(0) =~= m@);
        }
        r
    } else {
        let left = slice_chars(m, 0, dot);
        let l_ok = all_digits_from(&left, 0);
        let r_ok = all_digits_from(m, dot + 1);
        proof {
            assert(left@.skip(0) =~= m@.take(dot as int));
        }
        l_ok && r_ok && (dot > 0 || m.len() > dot + 1)
    }
}

/// Decides [`exponent_ok`].
fn exponent_ok_exec(x: &Vec<char>) -> (r: bool)
    ensures
        r == exponent_ok(x@),
{
    let from: usize = if x.len() > 0 && (x[0] == '+' || x[0] == '-') { 1 } else { 0 };
    proof {
        assert(x@.skip(0) =~= x@);
    }
    from < x.len() && all_digits_from(x, from)
}

/// Decides [`is_float_text`].
pub fn is_float_text_exec(s: &Vec<char>) -> (r: bool)
    ensures
        r == is_float_text(s@),
{
    let from: usize = if s.len() > 0 && (s[0] == '+' || s[0] == '-') { 1 } else { 0 };
    let d = slice_chars(s, from, s.len());
    proof {
        assert(s@.skip(0) =~= s@);
        assert(d@ == s@.skip(from as int));
    }
    let l = ascii_lower_chars(&d);
    if chars_eq(&l, &chars_of("inf")) || chars_eq(&l, &chars_of("infinity")) || chars_eq(
        &l,
        &chars_of("nan"),
    ) {
        return true;
    }
    let mut e: usize = 0;
    while e < d.len() && d[e] != 'e' && d[e] != 'E'
        invariant
            e <= d.len(),
            find_exp(d@, 0) == find_exp(d@, e as int),
        decreases d.len() - e,
    {
        e += 1;
    }
    let mantissa = slice_chars(&d, 0, e);
    if !mantissa_ok_exec(&mantissa) {
        return false;
    }
    if e >= d.len() {
        return true;
    }
    let exponent = slice_chars(&d, e + 1, d.len());
    exponent_ok_exec(&exponent)
}


// ---------------------------------------------------------------------------
// Building and splitting strings
// ---------------------------------------------------------------------------

/// Appends the characters of `t` to `s` (`String::push_str`).
pub fn append_str(s: &mut String, t: &str)
    ensures
        final(s)@ == old(s)@ + t@,
{
    let v = chars_of(t);
    append_chars(s, &v);
}

/// Appends the characters of `v` to `s`.
pub fn append_chars(s: &mut String, v: &Vec<char>)
    ensures
        final(s)@ == old(s)@ + v@,
{
    let ghost start = s@;
    let mut i: usize = 0;
    while i < v.len()
        invariant
            i <= v.len(),
            s@ == start + v@.take(i as int),
        decreases v.len() - i,
    {
        push_char(s, v[i]);
        i += 1;
        assert(s@ =~= start + v@.take(i as int));
    }
    assert(v@.take(v.len() as int) =~= v@);
}

/// `a` followed by `b`, as a new `String`.
pub fn concat_str(a: &str, b: &str) -> (r: String)
    ensures
        r@ == a@ + b@,
{
    let mut r = String::new();
    append_str(&mut r, a);
    append_str(&mut r, b);
    assert(r@ =~= a@ + b@);
    r
}

/// The lines of a text as `str::lines` yields them.
pub fn lines_of(v: &Vec<char>) -> (r: Vec<Vec<char>>)
    ensures
        r@.len() == lines(v@).len(),
        forall|i: int| 0 <= i < r@.len() ==> (#[trigger] r@[i])@ == lines(v@)[i],
{
    let ghost all = lines(v@);
    let mut out: Vec<Vec<char>> = Vec::new();
    let mut start: usize = 0;
    while start < v.len()
        invariant
            start <= v.len(),
            all == lines_from(v@, 0),
            out.len() <= all.len(),
            lines_from(v@, start as int) =~= all.subrange(out.len() as int, all.len() as int),
            forall|i: int| 0 <= i < out.len() ==> (#[trigger] out@[i])@ == all[i],
        decreases v.len() - start,
    {
        let k = find_char_from(v, '\n', start);
        proof {
            lemma_find_from(v@, '\n', start as int);
        }
        let line = if k < v.len() {
            let raw = slice_chars(v, start, k);
            if raw.len() > 0 && raw[raw.len() - 1] == '\r' {
                slice_chars(v, start, k - 1)
            } else {
                raw
            }
        } else {
            slice_chars(v, start, v.len())
        };
        proof {
            let rest = lines_from(v@, start as int);
            if k < v.len() {
                assert(line@ =~= strip_cr(v@.subrange(start as int, k as int)));
                assert(rest =~= seq![line@] + lines_from(v@, k as int + 1));
                assert(rest.subrange(1, rest.len() as int) =~= lines_from(v@, k as int + 1));
                assert(all.subrange(out.len() + 1, all.len() as int) =~= rest.subrange(
                    1,
                    rest.len() as int,
                ));
            } else {
                assert(rest =~= seq![line@]);
            }
            assert(rest[0] == line@);
            assert(all.subrange(out.len() as int, all.len() as int)[0] == all[out.len() as int]);
        }
        out.push(line);
        start = if k < v.len() {
            k + 1
        } else {
            v.len()
        };
        proof {
            if k < v.len() {
                assert(lines_from(v@, start as int) =~= all.subrange(
                    out.len() as int,
                    all.len() as int,
                ));
            } else {
                assert(lines_from(v@, start as int) =~= Seq::<Seq<char>>::empty());
            }
        }
    }
    out
}

/// The lines `ls` joined with `sep` between them (`[&str]::join`).
pub open spec fn join_with(ls: Seq<Seq<char>>, sep: Seq<char>) -> Seq<char>
    decreases ls.len(),
{
    if ls.len() == 0 {
        Seq::empty()
    } else if ls.len() == 1 {
        ls[0]
    } else {
        join_with(ls.drop_last(), sep) + sep + ls.last()
    }
}

/// Joins the lines with `sep` between them.
pub fn join_strings(ls: &Vec<String>, sep: &str) -> (r: String)
    ensures
        r@ == join_with(ls@.map_values(|l: String| l@), sep@),
{
    let ghost views = ls@.map_values(|l: String| l@);
    let mut r = String::new();
    let mut i: usize = 0;
    while i < ls.len()
        invariant
            i <= ls.len(),
            views == ls@.map_values(|l: String| l@),
            r@ == join_with(views.take(i as int), sep@),
        decreases ls.len() - i,
    {
        if i > 0 {
            append_str(&mut r, sep);
        }
        append_str(&mut r, ls[i].as_str());
        proof {
            let t = views.take(i as int + 1);
            assert(t.drop_last() =~= views.take(i as int));
            assert(t.last() == ls@[i as int]@);
            if i == 0 {
                assert(r@ =~= t[0]);
            }
        }
        i += 1;
    }
    assert(views.take(ls.len() as int) =~= views);
    r
}

/// `s` with every occurrence of the non-empty pattern `p`, found from left
/// to right without overlap, replaced by `q` (`str::replace`), from index
/// `i` on.
pub open spec fn replace_from(s: Seq<char>, p: Seq<char>, q: Seq<char>, i: int) -> Seq<char>
    decreases s.len() - i,
{
    if i < 0 || i >= s.len() || p.len() == 0 {
        if 0 <= i < s.len() {
            s.skip(i)
        } else {
            Seq::empty()
        }
    } else if occurs_at(s, p, i) {
        q + replace_from(s, p, q, i + p.len())
    } else {
        seq![s[i]] + replace_from(s, p, q, i + 1)
    }
}

/// `str::replace(p, q)` for a non-empty pattern `p`.
pub open spec fn replace_all(s: Seq<char>, p: Seq<char>, q: Seq<char>) -> Seq<char> {
    replace_from(s, p, q, 0)
}

/// `str::replace` with a non-empty pattern.
pub fn replace_chars(v: &Vec<char>, p: &Vec<char>, q: &Vec<char>) -> (r: Vec<char>)
    requires
        p.len() > 0,
    ensures
        r@ == replace_all(v@, p@, q@),
{
    let mut out: Vec<char> = Vec::new();
    let mut i: usize = 0;
    while i < v.len()
        invariant
            i <= v.len(),
            p.len() > 0,
            out@ + replace_from(v@, p@, q@, i as int) == replace_all(v@, p@, q@),
        decreases v.len() - i,
    {
        if occurs_at_exec(v, p, i) {
            let ghost before = out@;
            let mut j: usize = 0;
            while j < q.len()
                invariant
                    j <= q.len(),
                    out@ == before + q@.take(j as int),
                decreases q.len() - j,
            {
                out.push(q[j]);
                j += 1;
                assert(out@ =~= before + q@.take(j as int));
            }
            assert(q@.take(q.len() as int) =~= q@);
            assert(out@ + replace_from(v@, p@, q@, i + p.len()) =~= before + replace_from(
                v@,
                p@,
                q@,
                i as int,
            ));
            i = i + p.len();
        } else {
            let ghost before = out@;
            out.push(v[i]);
            assert(out@ + replace_from(v@, p@, q@, i + 1) =~= before + replace_from(
                v@,
                p@,
                q@,
                i as int,
            ));
            i = i + 1;
        }
    }
    assert(replace_from(v@, p@, q@, i as int) =~= Seq::<char>::empty());
    assert(out@ =~= out@ + Seq::<char>::empty());
    out
}

/// End (exclusive) of `s[lo..j]` once trailing `c` characters are removed.
pub open spec fn trim_end_char(s: Seq<char>, c: char, lo: int, j: int) -> int
    decreases j - lo,
{
    if lo < j && j <= s.len() && s[j - 1] == c {
        trim_end_char(s, c, lo, j - 1)
    } else {
        j
    }
}

/// `str::trim_matches(c)`.
pub open spec fn trim_matches(s: Seq<char>, c: char) -> Seq<char> {
    let lo = trim_start_char(s, c, 0);
    s.subrange(lo, trim_end_char(s, c, lo, s.len() as int))
}

/// `str::trim_matches` with a character pattern.
pub fn trim_matches_exec(v: &Vec<char>, c: char) -> (r: Vec<char>)
    ensures
        r@ == trim_matches(v@, c),
{
    let lo = trim_start_char_exec(v, c, 0);
    let mut j: usize = v.len();
    while j > lo && v[j - 1] == c
        invariant
            lo <= j <= v.len(),
            lo == trim_start_char(v@, c, 0),
            trim_end_char(v@, c, lo as int, v.len() as int) == trim_end_char(
                v@,
                c,
                lo as int,
                j as int,
            ),
        decreases j - lo,
    {
        j -= 1;
    }
    slice_chars(v, lo, j)
}


/// Character-wise equality of two string slices.
pub fn str_eq(a: &str, b: &str) -> (r: bool)
    ensures
        r == (a@ == b@),
{
    let av = chars_of(a);
    let bv = chars_of(b);
    chars_eq(&av, &bv)
}


/// What `str::to_lowercase` gives for a text: the Unicode lower-case
/// mapping of each character, some of which map to several characters.
pub uninterp spec fn lowercase(s: Seq<char>) -> Seq<char>;

/// Lower-cases a text with `str::to_lowercase`.
///
/// Trusted: the contract only names the result, as a function of the text
/// alone; the Unicode mapping is not restated.
#[verifier::external_body]
pub(crate) fn to_lower(s: &str) -> (r: String)
    ensures
        r@ == lowercase(s@),
{
    s.to_lowercase()
}

/// Does any of the texts contain `needle`? An empty needle matches.
pub open spec fn any_contains(fields: Seq<Seq<char>>, needle: Seq<char>) -> bool {
    needle.len() == 0 || exists|i: int| 0 <= i < fields.len() && contains(#[trigger] fields[i], needle)
}

/// Decides [`any_contains`]: the search test once both sides were
/// lower-cased.
pub fn any_field_contains(fields: &Vec<String>, needle: &str) -> (r: bool)
    ensures
        r == any_contains(fields.deep_view(), needle@),
{
    let n = chars_of(needle);
    if n.len() == 0 {
        return true;
    }
    let mut i: usize = 0;
    while i < fields.len()
        invariant
            i <= fields.len(),
            n@ == needle@,
            forall|j: int| 0 <= j < i ==> !contains(#[trigger] fields.deep_view()[j], needle@),
        decreases fields.len() - i,
    {
        let f = chars_of(fields[i].as_str());
        if contains_exec(&f, &n) {
            assert(contains(fields.deep_view()[i as int], needle@));
            return true;
        }
        i += 1;
    }
    false
}


/// `str::split` with a character separator.
pub fn split_chars(v: &Vec<char>, sep: char) -> (r: Vec<Vec<char>>)
    ensures
        r@.len() == split_char(v@, sep).len(),
        forall|i: int| 0 <= i < r@.len() ==> (#[trigger] r@[i])@ == split_char(v@, sep)[i],
{
    let ghost all = split_char(v@, sep);
    let mut out: Vec<Vec<char>> = Vec::new();
    let mut start: usize = 0;
    loop
        invariant
            start <= v.len(),
            all == split_char_from(v@, sep, 0),
            out.len() < all.len() + 1,
            split_char_from(v@, sep, start as int) =~= all.subrange(out.len() as int, all.len() as int),
            forall|i: int| 0 <= i < out.len() ==> (#[trigger] out@[i])@ == all[i],
        ensures
            out.len() == all.len(),
            forall|i: int| 0 <= i < out.len() ==> (#[trigger] out@[i])@ == all[i],
        decreases v.len() - start,
    {
        let k = find_char_from(v, sep, start);
        proof {
            lemma_find_from(v@, sep, start as int);
        }
        let ghost rest = split_char_from(v@, sep, start as int);
        if k >= v.len() {
            let piece = slice_chars(v, start, v.len());
            proof {
                assert(rest =~= seq![piece@]);
                assert(all.subrange(out.len() as int, all.len() as int)[0] == all[out.len() as int]);
            }
            out.push(piece);
            return out;
        }
        let piece = slice_chars(v, start, k);
        proof {
            assert(rest =~= seq![piece@] + split_char_from(v@, sep, k as int + 1));
            assert(all.subrange(out.len() as int, all.len() as int)[0] == all[out.len() as int]);
            assert(all.subrange(out.len() + 1, all.len() as int) =~= rest.subrange(1, rest.len() as int));
            assert(rest.subrange(1, rest.len() as int) =~= split_char_from(v@, sep, k as int + 1));
        }
        out.push(piece);
        start = k + 1;
    }
}


// ---------------------------------------------------------------------------
// Lemmas on trimming, lines and replacing
// ---------------------------------------------------------------------------

/// Whitespace at the end does not change what `trim` keeps.
pub proof fn lemma_trim_append_white(x: Seq<char>, w: Seq<char>)
    requires
        forall|m: int| 0 <= m < w.len() ==> is_white(w[m]),
    ensures
        trim(x + w) == trim(x),
{
    let s = x + w;
    lemma_lead_ws_bounds(x, 0);
    let a = lead_ws(x, 0);
    lemma_trail_ws_bounds(x, a, x.len() as int);
    let b = trail_ws(x, a, x.len() as int);
    if b > a {
        assert(s[a] == x[a]);
        lemma_lead_ws_at(s, 0, a);
        assert forall|m: int| b <= m < s.len() implies is_white(s[m]) by {
            if m < x.len() {
                assert(s[m] == x[m]);
            } else {
                assert(s[m] == w[m - x.len()]);
            }
        }
        assert(s[b - 1] == x[b - 1]);
        lemma_trail_ws_at(s, a, s.len() as int, b);
        assert(trim(s) =~= trim(x));
    } else {
        assert(a == x.len()) by {
            if a < x.len() {
                lemma_trail_ws_at(x, a, x.len() as int, x.len() as int);
            }
        }
        assert forall|m: int| 0 <= m < s.len() implies is_white(s[m]) by {
            if m < x.len() {
                assert(s[m] == x[m]);
            } else {
                assert(s[m] == w[m - x.len()]);
            }
        }
        lemma_lead_ws_at(s, 0, s.len() as int);
        assert(trim(s) =~= Seq::<char>::empty());
        assert(trim(x) =~= Seq::<char>::empty());
    }
}

/// Whitespace at the start does not change what `trim` keeps.
pub proof fn lemma_trim_prepend_white(w: Seq<char>, x: Seq<char>)
    requires
        forall|m: int| 0 <= m < w.len() ==> is_white(w[m]),
    ensures
        trim(w + x) == trim(x),
{
    let s = w + x;
    lemma_lead_ws_bounds(x, 0);
    let a = lead_ws(x, 0);
    lemma_trail_ws_bounds(x, a, x.len() as int);
    let b = trail_ws(x, a, x.len() as int);
    let n = w.len() as int;
    assert forall|m: int| 0 <= m < n + a implies is_white(s[m]) by {
        if m < n {
            assert(s[m] == w[m]);
        } else {
            assert(s[m] == x[m - n]);
        }
    }
    if a < x.len() {
        assert(s[n + a] == x[a]);
    }
    lemma_lead_ws_at(s, 0, n + a);
    if b > a {
        assert forall|m: int| n + b <= m < s.len() implies is_white(s[m]) by {
            assert(s[m] == x[m - n]);
        }
        assert(s[n + b - 1] == x[b - 1]);
        lemma_trail_ws_at(s, n + a, s.len() as int, n + b);
        assert(trim(s) =~= trim(x));
    } else {
        assert(trim(s) =~= Seq::<char>::empty()) by {
            lemma_trail_ws_bounds(s, n + a, s.len() as int);
        }
        assert(trim(x) =~= Seq::<char>::empty());
    }
}

/// Dropping a final `'\r'` does not change what `trim` keeps.
pub proof fn lemma_trim_strip_cr(l: Seq<char>)
    ensures
        trim(strip_cr(l)) == trim(l),
{
    if l.len() > 0 && l.last() == '\r' {
        assert(l =~= l.drop_last() + seq!['\r']);
        lemma_trim_append_white(l.drop_last(), seq!['\r']);
    }
}

/// Each line followed by `'\n'`.
pub open spec fn render_lines(ls: Seq<Seq<char>>) -> Seq<char>
    decreases ls.len(),
{
    if ls.len() == 0 {
        Seq::empty()
    } else {
        render_lines(ls.drop_last()) + ls.last().push('\n')
    }
}

/// A rendered list of lines is empty or ends with `'\n'`.
proof fn lemma_render_lines_ends(ls: Seq<Seq<char>>)
    ensures
        render_lines(ls).len() > 0 ==> render_lines(ls).last() == '\n',
{
}

/// One line ended by `'\n'` reads back as that line without a final `'\r'`.
pub proof fn lemma_lines_one(l: Seq<char>)
    requires
        !has_char(l, '\n'),
    ensures
        lines(l.push('\n')) == seq![strip_cr(l)],
{
    let s = l.push('\n');
    assert forall|m: int| 0 <= m < l.len() implies s[m] != '\n' by {
        assert(s[m] == l[m]);
    }
    lemma_find_from_at(s, '\n', 0, l.len() as int);
    assert(s.subrange(0, l.len() as int) =~= l);
    assert(lines_from(s, l.len() as int + 1) =~= Seq::<Seq<char>>::empty());
    assert(lines(s) =~= seq![strip_cr(l)]);
}

/// A text without `'\n'` is one line, or none when empty.
pub proof fn lemma_lines_last(l: Seq<char>)
    requires
        !has_char(l, '\n'),
    ensures
        lines(l) == (if l.len() == 0 { Seq::<Seq<char>>::empty() } else { seq![l] }),
{
    if l.len() > 0 {
        assert forall|m: int| 0 <= m < l.len() implies l[m] != '\n' by {}
        lemma_find_from_none(l, '\n', 0);
        assert(l.subrange(0, l.len() as int) =~= l);
        assert(lines(l) =~= seq![l]);
    }
}

/// Rendered lines read back as the lines without final `'\r'`s.
pub proof fn lemma_lines_render(ls: Seq<Seq<char>>)
    requires
        forall|i: int| 0 <= i < ls.len() ==> !has_char(#[trigger] ls[i], '\n'),
    ensures
        lines(render_lines(ls)) == ls.map_values(|l: Seq<char>| strip_cr(l)),
    decreases ls.len(),
{
    if ls.len() == 0 {
        assert(lines(render_lines(ls)) =~= Seq::<Seq<char>>::empty());
    } else {
        let init = ls.drop_last();
        assert forall|i: int| 0 <= i < init.len() implies !has_char(#[trigger] init[i], '\n') by {
            assert(init[i] == ls[i]);
        }
        lemma_lines_render(init);
        lemma_render_lines_ends(init);
        lemma_lines_concat(render_lines(init), ls.last().push('\n'), 0);
        lemma_lines_one(ls.last());
        assert(lines(render_lines(ls)) =~= ls.map_values(|l: Seq<char>| strip_cr(l)));
    }
}

/// Lines joined with `'\n'` are the rendered lines before the last one,
/// then the last one.
pub proof fn lemma_join_render(ls: Seq<Seq<char>>)
    requires
        ls.len() > 0,
    ensures
        join_with(ls, seq!['\n']) == render_lines(ls.drop_last()) + ls.last(),
    decreases ls.len(),
{
    if ls.len() == 1 {
        assert(render_lines(ls.drop_last()) =~= Seq::<char>::empty());
        assert(join_with(ls, seq!['\n']) =~= render_lines(ls.drop_last()) + ls.last());
    } else {
        let init = ls.drop_last();
        lemma_join_render(init);
        assert(init.drop_last() == ls.drop_last().drop_last());
        assert(join_with(ls, seq!['\n']) =~= render_lines(ls.drop_last()) + ls.last());
    }
}

/// Lines joined with `'\n'` read back as the same lines without final
/// `'\r'`s, except that a final empty line is lost.
pub proof fn lemma_lines_join(ls: Seq<Seq<char>>)
    requires
        ls.len() > 0,
        forall|i: int| 0 <= i < ls.len() ==> !has_char(#[trigger] ls[i], '\n'),
    ensures
        lines(join_with(ls, seq!['\n'])) == ls.drop_last().map_values(|l: Seq<char>| strip_cr(l))
            + (if ls.last().len() == 0 { Seq::<Seq<char>>::empty() } else { seq![ls.last()] }),
{
    let init = ls.drop_last();
    assert forall|i: int| 0 <= i < init.len() implies !has_char(#[trigger] init[i], '\n') by {
        assert(init[i] == ls[i]);
    }
    lemma_join_render(ls);
    lemma_lines_render(init);
    lemma_render_lines_ends(init);
    lemma_lines_concat(render_lines(init), ls.last(), 0);
    lemma_lines_last(ls.last());
}

/// Replacing past a prefix goes on as replacing in the rest.
pub proof fn lemma_replace_shift(a: Seq<char>, b: Seq<char>, p: Seq<char>, q: Seq<char>, j: int)
    requires
        0 <= j <= b.len(),
        p.len() > 0,
    ensures
        replace_from(a + b, p, q, a.len() + j) == replace_from(b, p, q, j),
    decreases b.len() - j,
{
    let s = a + b;
    let i = a.len() + j;
    if j < b.len() {
        assert(s[i] == b[j]);
        assert(occurs_at(s, p, i) == occurs_at(b, p, j)) by {
            if i + p.len() <= s.len() {
                assert(s.subrange(i, i + p.len()) =~= b.subrange(j, j + p.len()));
            }
        }
        if occurs_at(b, p, j) {
            lemma_replace_shift(a, b, p, q, j + p.len());
        } else {
            lemma_replace_shift(a, b, p, q, j + 1);
        }
    } else {
        assert(replace_from(s, p, q, i) =~= Seq::<char>::empty());
        assert(replace_from(b, p, q, j) =~= Seq::<char>::empty());
    }
}

} // verus!
