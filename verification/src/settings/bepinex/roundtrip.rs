//! Launch options written into `localconfig.vdf` read back as written.
use vstd::prelude::*;

use super::launch::{block_starts_at, close_depth, escape_char, escape_vdf, extract_from, extract_spec, first_block, indent_of, launch_line, launch_options_key, launch_value_of, next_nonempty, scan_end, scan_value, unescape_vdf, upsert_lines, upsert_spec, app_key};
use crate::text::{has_char, is_white, lemma_lines_join, lemma_replace_shift, lemma_trim_identity, lemma_trim_prepend_white, lemma_trim_strip_cr, lines, occurs_at, replace_all, replace_from, starts_with, strip_cr, trim, trim_end_char, trim_matches, trim_start_char, join_with, lead_ws, trim_start, lines_from, lemma_lead_ws_bounds, find_from, lemma_find_from};

verus! {

/// Backslashes doubled, everything else kept: what the first pass of
/// unescaping leaves of an escaped value.
pub open spec fn double_backslashes(v: Seq<char>) -> Seq<char>
    decreases v.len(),
{
    if v.len() == 0 {
        Seq::empty()
    } else {
        (if v[0] == '\\' { seq!['\\', '\\'] } else { seq![v[0]] }) + double_backslashes(v.skip(1))
    }
}

/// An escaped value never starts with a quote.
proof fn lemma_escape_first(v: Seq<char>)
    ensures
        escape_vdf(v).len() > 0 ==> escape_vdf(v)[0] != '"',
        v.len() > 0 ==> escape_vdf(v).len() > 0,
{
}

/// The first unescaping pass turns an escaped value into the value with
/// its backslashes doubled.
proof fn lemma_unescape_first_pass(v: Seq<char>)
    ensures
        replace_all(escape_vdf(v), seq!['\\', '"'], seq!['"']) == double_backslashes(v),
    decreases v.len(),
{
    let p = seq!['\\', '"'];
    let q = seq!['"'];
    if v.len() == 0 {
        assert(replace_all(escape_vdf(v), p, q) =~= Seq::<char>::empty());
    } else {
        let rest = v.skip(1);
        let er = escape_vdf(rest);
        let head = escape_char(v[0]);
        let s = head + er;
        assert(escape_vdf(v) == s);
        lemma_unescape_first_pass(rest);
        lemma_escape_first(rest);
        lemma_replace_shift(head, er, p, q, 0);
        if v[0] == '\\' {
            assert(!occurs_at(s, p, 0));
            assert(!occurs_at(s, p, 1)) by {
                if s.len() >= 3 {
                    assert(s[2] == er[0]);
                }
            }
            assert(replace_from(s, p, q, 0) =~= seq!['\\'] + replace_from(s, p, q, 1));
            assert(replace_from(s, p, q, 1) =~= seq!['\\'] + replace_from(s, p, q, 2));
            assert(replace_all(s, p, q) =~= double_backslashes(v));
        } else if v[0] == '"' {
            assert(s.subrange(0, 2) =~= p);
            assert(occurs_at(s, p, 0));
            assert(replace_all(s, p, q) =~= double_backslashes(v));
        } else {
            assert(!occurs_at(s, p, 0));
            assert(replace_all(s, p, q) =~= double_backslashes(v));
        }
    }
}

/// The second unescaping pass halves the doubled backslashes back.
proof fn lemma_unescape_second_pass(v: Seq<char>)
    ensures
        replace_all(double_backslashes(v), seq!['\\', '\\'], seq!['\\']) == v,
    decreases v.len(),
{
    let p = seq!['\\', '\\'];
    let q = seq!['\\'];
    if v.len() == 0 {
        assert(replace_all(double_backslashes(v), p, q) =~= v);
    } else {
        let rest = v.skip(1);
        let dr = double_backslashes(rest);
        let head = if v[0] == '\\' { seq!['\\', '\\'] } else { seq![v[0]] };
        let s = head + dr;
        assert(double_backslashes(v) == s);
        lemma_unescape_second_pass(rest);
        lemma_replace_shift(head, dr, p, q, 0);
        if v[0] == '\\' {
            assert(s.subrange(0, 2) =~= p);
            assert(occurs_at(s, p, 0));
            assert(replace_all(s, p, q) =~= v);
        } else {
            assert(!occurs_at(s, p, 0));
            assert(replace_all(s, p, q) =~= v);
        }
    }
}

/// Unescaping an escaped value gives the value back.
pub proof fn lemma_unescape_escape(v: Seq<char>)
    ensures
        unescape_vdf(escape_vdf(v)) == v,
{
    lemma_unescape_first_pass(v);
    lemma_unescape_second_pass(v);
}


// ---------------------------------------------------------------------------
// Scans depend only on the trimmed lines
// ---------------------------------------------------------------------------

/// Two lists of lines have the same length and the same trimmed lines from
/// `lo` on.
pub open spec fn trims_agree(a: Seq<Seq<char>>, b: Seq<Seq<char>>, lo: int) -> bool {
    a.len() == b.len() && forall|j: int| lo <= j < a.len() ==> #[trigger] trim(a[j]) == trim(b[j])
}

/// `next_nonempty` finds the first non-blank line at or after `x`.
pub proof fn lemma_next_nonempty_bounds(a: Seq<Seq<char>>, x: int)
    requires
        0 <= x,
    ensures
        x <= next_nonempty(a, x),
        next_nonempty(a, x) < a.len() ==> trim(a[next_nonempty(a, x)]).len() > 0,
        x <= a.len() ==> next_nonempty(a, x) <= a.len(),
        forall|j: int| x <= j < next_nonempty(a, x) ==> #[trigger] trim(a[j]).len() == 0,
    decreases a.len() - x,
{
    if x < a.len() && trim(a[x]).len() == 0 {
        lemma_next_nonempty_bounds(a, x + 1);
    }
}

proof fn lemma_next_nonempty_agree(a: Seq<Seq<char>>, b: Seq<Seq<char>>, x: int)
    requires
        0 <= x,
        trims_agree(a, b, x),
    ensures
        next_nonempty(a, x) == next_nonempty(b, x),
    decreases a.len() - x,
{
    if x < a.len() {
        assert(trim(a[x]) == trim(b[x]));
        lemma_next_nonempty_agree(a, b, x + 1);
    }
}

proof fn lemma_scan_value_agree(a: Seq<Seq<char>>, b: Seq<Seq<char>>, p: int, d: nat, s: bool)
    requires
        0 <= p,
        trims_agree(a, b, p),
    ensures
        scan_value(a, p, d, s) == scan_value(b, p, d, s),
    decreases a.len() - p,
{
    if p < a.len() {
        assert(trim(a[p]) == trim(b[p]));
        assert(launch_value_of(a[p]) == launch_value_of(b[p]));
        lemma_scan_value_agree(a, b, p + 1, d + 1, true);
        lemma_scan_value_agree(a, b, p + 1, close_depth(d), s);
        lemma_scan_value_agree(a, b, p + 1, d, s);
    }
}

proof fn lemma_extract_agree(a: Seq<Seq<char>>, b: Seq<Seq<char>>, app_id: u32, p: int)
    requires
        0 <= p,
        trims_agree(a, b, 0),
    ensures
        extract_from(a, app_id, p) == extract_from(b, app_id, p),
    decreases a.len() - p,
{
    if p < a.len() {
        assert(trim(a[p]) == trim(b[p]));
        lemma_next_nonempty_agree(a, b, p + 1);
        lemma_next_nonempty_bounds(a, p + 1);
        let n = next_nonempty(a, p + 1);
        if n < a.len() {
            assert(trim(a[n]) == trim(b[n]));
        }
        assert(block_starts_at(a, p, app_id) == block_starts_at(b, p, app_id));
        lemma_scan_value_agree(a, b, p + 1, 0, false);
        lemma_extract_agree(a, b, app_id, p + 1);
    }
}

proof fn lemma_next_nonempty_blank_tail(a: Seq<Seq<char>>, w: Seq<char>, x: int)
    requires
        0 <= x <= a.len(),
        trim(w).len() == 0,
    ensures
        next_nonempty(a, x) < a.len() ==> next_nonempty(a.push(w), x) == next_nonempty(a, x),
        next_nonempty(a, x) >= a.len() ==> next_nonempty(a.push(w), x) >= a.len() + 1,
    decreases a.len() - x,
{
    let a2 = a.push(w);
    if x < a.len() {
        assert(a2[x] == a[x]);
        lemma_next_nonempty_blank_tail(a, w, x + 1);
    } else {
        assert(a2[x] == w);
        assert(next_nonempty(a2, x) == next_nonempty(a2, x + 1));
    }
}

proof fn lemma_scan_value_blank_tail(a: Seq<Seq<char>>, w: Seq<char>, p: int, d: nat, s: bool)
    requires
        0 <= p <= a.len(),
        trim(w).len() == 0,
    ensures
        scan_value(a.push(w), p, d, s) == scan_value(a, p, d, s),
    decreases a.len() - p,
{
    let a2 = a.push(w);
    if p < a.len() {
        assert(a2[p] == a[p]);
        lemma_scan_value_blank_tail(a, w, p + 1, d + 1, true);
        lemma_scan_value_blank_tail(a, w, p + 1, close_depth(d), s);
        lemma_scan_value_blank_tail(a, w, p + 1, d, s);
    } else {
        assert(a2[p] == w);
        assert(trim(w) != seq!['{']);
        assert(trim(w) != seq!['}']);
        assert(launch_value_of(w) is None);
        assert(scan_value(a2, p + 1, d, s) is None);
        assert(scan_value(a, p, d, s) is None);
    }
}

proof fn lemma_extract_blank_tail(a: Seq<Seq<char>>, w: Seq<char>, app_id: u32, p: int)
    requires
        0 <= p <= a.len(),
        trim(w).len() == 0,
    ensures
        extract_from(a.push(w), app_id, p) == extract_from(a, app_id, p),
    decreases a.len() - p,
{
    let a2 = a.push(w);
    if p < a.len() {
        assert(a2[p] == a[p]);
        lemma_next_nonempty_blank_tail(a, w, p + 1);
        lemma_next_nonempty_bounds(a, p + 1);
        let n = next_nonempty(a, p + 1);
        if n < a.len() {
            assert(a2[n] == a[n]);
        }
        assert(block_starts_at(a2, p, app_id) == block_starts_at(a, p, app_id));
        lemma_scan_value_blank_tail(a, w, p + 1, 0, false);
        lemma_extract_blank_tail(a, w, app_id, p + 1);
    } else {
        assert(a2[p] == w);
        assert(app_key(app_id).len() > 0);
        assert(!block_starts_at(a2, p, app_id));
        assert(extract_from(a2, app_id, p + 1) is None);
    }
}

/// Extraction reads the text joined back from lines as it reads the lines.
proof fn lemma_extract_joined(ls: Seq<Seq<char>>, app_id: u32)
    requires
        ls.len() > 0,
        forall|i: int| 0 <= i < ls.len() ==> !has_char(#[trigger] ls[i], '\n'),
    ensures
        extract_from(lines(join_with(ls, seq!['\n'])), app_id, 0) == extract_from(ls, app_id, 0),
{
    lemma_lines_join(ls);
    let init = ls.drop_last();
    let mapped = init.map_values(|l: Seq<char>| strip_cr(l));
    assert forall|j: int| 0 <= j < init.len() implies #[trigger] trim(mapped[j]) == trim(init[j]) by {
        lemma_trim_strip_cr(init[j]);
    }
    let lj = lines(join_with(ls, seq!['\n']));
    if ls.last().len() == 0 {
        assert(lj =~= mapped);
        assert(trims_agree(lj, init, 0));
        lemma_extract_agree(lj, init, app_id, 0);
        assert(ls =~= init.push(ls.last()));
        assert(trim(ls.last()) =~= Seq::<char>::empty());
        lemma_extract_blank_tail(init, ls.last(), app_id, 0);
    } else {
        assert(lj =~= mapped + seq![ls.last()]);
        assert forall|j: int| 0 <= j < ls.len() implies #[trigger] trim(lj[j]) == trim(ls[j]) by {
            if j < init.len() {
                assert(lj[j] == mapped[j]);
                assert(ls[j] == init[j]);
            } else {
                assert(lj[j] == ls.last());
            }
        }
        assert(trims_agree(lj, ls, 0));
        lemma_extract_agree(lj, ls, app_id, 0);
    }
}


// ---------------------------------------------------------------------------
// The written line
// ---------------------------------------------------------------------------

/// No line of a text holds a line break.
proof fn lemma_lines_from_no_newline(s: Seq<char>, start: int)
    requires
        0 <= start,
    ensures
        forall|i: int|
            0 <= i < lines_from(s, start).len() ==> !has_char(
                #[trigger] lines_from(s, start)[i],
                '\n',
            ),
    decreases s.len() - start,
{
    if start < s.len() {
        lemma_find_from(s, '\n', start);
        let k = find_from(s, '\n', start);
        if k >= s.len() {
            let l = s.subrange(start, s.len() as int);
            assert forall|w: int| 0 <= w < l.len() implies l[w] != '\n' by {
                assert(l[w] == s[start + w]);
            }
            assert(lines_from(s, start) == seq![l]);
        } else {
            let l = strip_cr(s.subrange(start, k));
            assert forall|w: int| 0 <= w < l.len() implies l[w] != '\n' by {
                assert(l[w] == s[start + w]);
            }
            lemma_lines_from_no_newline(s, k + 1);
            let rest = lines_from(s, k + 1);
            assert(lines_from(s, start) == seq![l] + rest);
            assert forall|i: int| 0 <= i < lines_from(s, start).len() implies !has_char(
                #[trigger] lines_from(s, start)[i],
                '\n',
            ) by {
                if i > 0 {
                    assert(lines_from(s, start)[i] == rest[i - 1]);
                }
            }
        }
    }
}

/// Two texts without line breaks joined hold none.
proof fn lemma_no_newline_concat(a: Seq<char>, b: Seq<char>)
    requires
        !has_char(a, '\n'),
        !has_char(b, '\n'),
    ensures
        !has_char(a + b, '\n'),
{
    let s = a + b;
    assert forall|w: int| 0 <= w < s.len() implies s[w] != '\n' by {
        if w < a.len() {
            assert(s[w] == a[w]);
        } else {
            assert(s[w] == b[w - a.len()]);
        }
    }
}

/// Escaping adds no line break.
proof fn lemma_escape_no_newline(v: Seq<char>)
    requires
        !has_char(v, '\n'),
    ensures
        !has_char(escape_vdf(v), '\n'),
    decreases v.len(),
{
    if v.len() > 0 {
        let rest = v.skip(1);
        assert forall|w: int| 0 <= w < rest.len() implies rest[w] != '\n' by {
            assert(rest[w] == v[w + 1]);
        }
        lemma_escape_no_newline(rest);
        let h = escape_char(v[0]);
        assert(v[0] != '\n');
        assert(!has_char(h, '\n'));
        assert(escape_vdf(v) == h + escape_vdf(rest));
        lemma_no_newline_concat(h, escape_vdf(rest));
    }
}

/// An escaped value ends as its last character is written.
proof fn lemma_escape_last(v: Seq<char>)
    requires
        v.len() > 0,
    ensures
        escape_vdf(v).len() > 0,
        escape_vdf(v).last() == escape_char(v.last()).last(),
    decreases v.len(),
{
    let rest = v.skip(1);
    let h = escape_char(v[0]);
    assert(escape_vdf(v) == h + escape_vdf(rest));
    if v.len() == 1 {
        assert(escape_vdf(rest) =~= Seq::<char>::empty());
        assert(escape_vdf(v) =~= h);
    } else {
        lemma_escape_last(rest);
        assert(rest.last() == v.last());
    }
}

/// The indentation of the written line is whitespace without line breaks.
proof fn lemma_indent_white(ls: Seq<Seq<char>>, i: int, e: int)
    requires
        forall|j: int| 0 <= j < ls.len() ==> !has_char(#[trigger] ls[j], '\n'),
    ensures
        forall|m: int|
            0 <= m < indent_of(ls, i, e).len() ==> is_white(#[trigger] indent_of(ls, i, e)[m]),
        !has_char(indent_of(ls, i, e), '\n'),
    decreases e - i,
{
    if i < 0 || i >= e || e > ls.len() {
        reveal_strlit("\t\t\t\t");
        let ind = indent_of(ls, i, e);
        assert forall|m: int| 0 <= m < ind.len() implies ind[m] == '\t' by {}
    } else {
        let ts = trim_start(ls[i]);
        if ts.len() > 0 && ts[0] == '"' {
            let l = ls[i];
            lemma_lead_ws_bounds(l, 0);
            let ind = l.take(lead_ws(l, 0));
            assert(indent_of(ls, i, e) == ind);
            assert(!has_char(l, '\n'));
            assert forall|m: int| 0 <= m < ind.len() implies is_white(ind[m]) && ind[m] != '\n' by {
                assert(ind[m] == l[m]);
            }
        } else {
            lemma_indent_white(ls, i + 1, e);
        }
    }
}

/// The written line reads back as the value, and it is neither brace.
proof fn lemma_launch_line_value(indent: Seq<char>, v: Seq<char>)
    requires
        forall|m: int| 0 <= m < indent.len() ==> is_white(#[trigger] indent[m]),
        v.len() > 0,
        v.last() != '"',
    ensures
        launch_value_of(launch_line(indent, v)) == Some(v),
        trim(launch_line(indent, v)) != seq!['{'],
        trim(launch_line(indent, v)) != seq!['}'],
{
    reveal_strlit("\"LaunchOptions\"");
    reveal_strlit("\t\t\"");
    let key = launch_options_key();
    let esc = escape_vdf(v);
    lemma_escape_first(v);
    lemma_escape_last(v);
    lemma_unescape_escape(v);
    let z = seq!['"'] + esc + seq!['"'];
    let tabs = seq!['\t', '\t'];
    let y = tabs + z;
    let x = key + y;
    let line = launch_line(indent, v);
    assert(line =~= indent + x);
    assert(x[0] == '"');
    assert(x.last() == '"');
    lemma_trim_identity(x);
    lemma_trim_prepend_white(indent, x);
    assert(trim(line) == x);
    assert(x.subrange(0, key.len() as int) =~= key);
    assert(x.skip(key.len() as int) =~= y);
    lemma_trim_identity(z);
    lemma_trim_prepend_white(tabs, z);
    assert(trim(y) == z);
    let n = z.len() as int;
    assert(z[1] == esc[0]);
    assert(trim_start_char(z, '"', 1) == 1);
    assert(trim_start_char(z, '"', 0) == 1);
    assert(z[n - 2] == esc.last());
    assert(trim_end_char(z, '"', 1, n - 1) == n - 1);
    assert(trim_end_char(z, '"', 1, n) == n - 1);
    assert(trim_matches(z, '"') =~= esc);
}

/// The written line holds no line break when the value holds none.
proof fn lemma_launch_line_no_newline(indent: Seq<char>, v: Seq<char>)
    requires
        !has_char(indent, '\n'),
        !has_char(v, '\n'),
    ensures
        !has_char(launch_line(indent, v), '\n'),
{
    reveal_strlit("\"LaunchOptions\"");
    reveal_strlit("\t\t\"");
    let key = launch_options_key();
    let esc = escape_vdf(v);
    lemma_escape_no_newline(v);
    assert(!has_char(key, '\n'));
    assert(!has_char("\t\t\""@, '\n'));
    assert(!has_char(seq!['"'], '\n'));
    lemma_no_newline_concat(indent, key);
    lemma_no_newline_concat(indent + key, "\t\t\""@);
    lemma_no_newline_concat(indent + key + "\t\t\""@, esc);
    lemma_no_newline_concat(indent + key + "\t\t\""@ + esc, seq!['"']);
}


// ---------------------------------------------------------------------------
// Scanning the block after the line is written
// ---------------------------------------------------------------------------

/// Where a block scan ends, and which launch options line it reports: the
/// one it started with, or one it met on the way.
proof fn lemma_scan_end_bounds(ls: Seq<Seq<char>>, p: int, d: nat, s: bool, l0: Option<int>)
    requires
        0 <= p,
        scan_end(ls, p, d, s, l0) is Some,
    ensures
        p <= scan_end(ls, p, d, s, l0).unwrap().0 < ls.len(),
        scan_end(ls, p, d, s, l0).unwrap().1 == l0 || ({
            let l = scan_end(ls, p, d, s, l0).unwrap().1;
            l is Some && p <= l->0 < scan_end(ls, p, d, s, l0).unwrap().0
        }),
    decreases ls.len() - p,
{
    let t = trim(ls[p]);
    if t == seq!['{'] {
        lemma_scan_end_bounds(ls, p + 1, d + 1, true, l0);
    } else if t == seq!['}'] {
        if !(s && close_depth(d) == 0) {
            lemma_scan_end_bounds(ls, p + 1, close_depth(d), s, l0);
        }
    } else if d == 1 && starts_with(t, launch_options_key()) {
        lemma_scan_end_bounds(ls, p + 1, d, s, Some(p));
    } else {
        lemma_scan_end_bounds(ls, p + 1, d, s, l0);
    }
}

/// Blank lines before the block opens change nothing in its scan.
proof fn lemma_scan_end_blank(ls: Seq<Seq<char>>, x: int, o: int)
    requires
        0 <= x <= o <= ls.len(),
        forall|j: int| x <= j < o ==> #[trigger] trim(ls[j]).len() == 0,
    ensures
        scan_end(ls, x, 0, false, None) == scan_end(ls, o, 0, false, None),
    decreases o - x,
{
    if x < o {
        assert(trim(ls[x]).len() == 0);
        lemma_scan_end_blank(ls, x + 1, o);
    }
}

/// With no launch options line in the block, a line inserted where the
/// block closes is the first launch options value the scan meets.
proof fn lemma_walk_insert(ls: Seq<Seq<char>>, p: int, d: nat, s: bool, nl: Seq<char>, v: Seq<char>)
    requires
        0 <= p,
        s ==> d >= 1,
        scan_end(ls, p, d, s, None) is Some,
        scan_end(ls, p, d, s, None).unwrap().1 is None,
        launch_value_of(nl) == Some(v),
        trim(nl) != seq!['{'],
        trim(nl) != seq!['}'],
    ensures
        scan_value(ls.insert(scan_end(ls, p, d, s, None).unwrap().0, nl), p, d, s) == Some(v),
    decreases ls.len() - p,
{
    let e = scan_end(ls, p, d, s, None).unwrap().0;
    let b = ls.insert(e, nl);
    lemma_scan_end_bounds(ls, p, d, s, None);
    let t = trim(ls[p]);
    if p == e {
        if t == seq!['{'] {
            lemma_scan_end_bounds(ls, p + 1, d + 1, true, None);
            assert(false);
        } else if t == seq!['}'] {
            if !(s && close_depth(d) == 0) {
                lemma_scan_end_bounds(ls, p + 1, close_depth(d), s, None);
                assert(false);
            }
        } else if d == 1 && starts_with(t, launch_options_key()) {
            lemma_scan_end_bounds(ls, p + 1, d, s, Some(p));
            assert(false);
        } else {
            lemma_scan_end_bounds(ls, p + 1, d, s, None);
            assert(false);
        }
        assert(d == 1);
        assert(b[p] == nl);
    } else {
        assert(b[p] == ls[p]);
        if t == seq!['{'] {
            lemma_walk_insert(ls, p + 1, d + 1, true, nl, v);
        } else if t == seq!['}'] {
            lemma_walk_insert(ls, p + 1, close_depth(d), s, nl, v);
        } else if d == 1 && starts_with(t, launch_options_key()) {
            lemma_scan_end_bounds(ls, p + 1, d, s, Some(p));
            assert(false);
        } else {
            lemma_walk_insert(ls, p + 1, d, s, nl, v);
        }
    }
}

/// With no launch options value before it, the replaced line is the first
/// launch options value the scan meets.
proof fn lemma_walk_replace(
    ls: Seq<Seq<char>>,
    p: int,
    d: nat,
    s: bool,
    l0: Option<int>,
    k: int,
    nl: Seq<char>,
    v: Seq<char>,
)
    requires
        0 <= p <= k,
        l0 is Some ==> l0->0 < p,
        scan_end(ls, p, d, s, l0) is Some,
        scan_end(ls, p, d, s, l0).unwrap().1 == Some(k),
        scan_value(ls.take(k), p, d, s) is None,
        launch_value_of(nl) == Some(v),
        trim(nl) != seq!['{'],
        trim(nl) != seq!['}'],
    ensures
        scan_value(ls.update(k, nl), p, d, s) == Some(v),
    decreases ls.len() - p,
{
    let b = ls.update(k, nl);
    let c = ls.take(k);
    lemma_scan_end_bounds(ls, p, d, s, l0);
    let t = trim(ls[p]);
    if p == k {
        if t == seq!['{'] {
            lemma_scan_end_bounds(ls, p + 1, d + 1, true, l0);
            assert(false);
        } else if t == seq!['}'] {
            if !(s && close_depth(d) == 0) {
                lemma_scan_end_bounds(ls, p + 1, close_depth(d), s, l0);
            }
            assert(false);
        } else if d == 1 && starts_with(t, launch_options_key()) {
        } else {
            lemma_scan_end_bounds(ls, p + 1, d, s, l0);
            assert(false);
        }
        assert(b[p] == nl);
    } else {
        assert(b[p] == ls[p]);
        assert(c[p] == ls[p]);
        if t == seq!['{'] {
            lemma_walk_replace(ls, p + 1, d + 1, true, l0, k, nl, v);
        } else if t == seq!['}'] {
            lemma_walk_replace(ls, p + 1, close_depth(d), s, l0, k, nl, v);
        } else if d == 1 && starts_with(t, launch_options_key()) {
            lemma_walk_replace(ls, p + 1, d, s, Some(p), k, nl, v);
        } else {
            lemma_walk_replace(ls, p + 1, d, s, l0, k, nl, v);
        }
    }
}


// ---------------------------------------------------------------------------
// Lines before the block
// ---------------------------------------------------------------------------

/// `first_block` is the first line at or after `x` that opens the app's block.
proof fn lemma_first_block(ls: Seq<Seq<char>>, app_id: u32, x: int)
    requires
        0 <= x <= ls.len(),
    ensures
        x <= first_block(ls, app_id, x) <= ls.len(),
        first_block(ls, app_id, x) < ls.len() ==> block_starts_at(
            ls,
            first_block(ls, app_id, x),
            app_id,
        ),
        forall|p: int| x <= p < first_block(ls, app_id, x) ==> !#[trigger] block_starts_at(ls, p, app_id),
    decreases ls.len() - x,
{
    if x < ls.len() && !block_starts_at(ls, x, app_id) {
        lemma_first_block(ls, app_id, x + 1);
    }
}

/// Lists that agree below `m` find the same next non-blank line when it lies
/// below `m`.
proof fn lemma_next_nonempty_prefix(a: Seq<Seq<char>>, b: Seq<Seq<char>>, m: int, x: int)
    requires
        0 <= x,
        m <= a.len(),
        m <= b.len(),
        forall|j: int| 0 <= j < m ==> #[trigger] a[j] == b[j],
        next_nonempty(a, x) < m,
    ensures
        next_nonempty(b, x) == next_nonempty(a, x),
    decreases a.len() - x,
{
    lemma_next_nonempty_bounds(a, x);
    assert(a[x] == b[x]);
    if x < a.len() && trim(a[x]).len() == 0 {
        lemma_next_nonempty_bounds(a, x + 1);
        lemma_next_nonempty_prefix(a, b, m, x + 1);
    }
}

/// Lists that agree below `m` open the same blocks at `p` when the line
/// after `p` that decides it lies below `m`.
proof fn lemma_block_prefix(a: Seq<Seq<char>>, b: Seq<Seq<char>>, m: int, p: int, app_id: u32)
    requires
        0 <= p < m,
        m <= a.len(),
        m <= b.len(),
        forall|j: int| 0 <= j < m ==> #[trigger] a[j] == b[j],
        next_nonempty(a, p + 1) < m,
    ensures
        block_starts_at(a, p, app_id) == block_starts_at(b, p, app_id),
{
    lemma_next_nonempty_prefix(a, b, m, p + 1);
    lemma_next_nonempty_bounds(a, p + 1);
    assert(a[p] == b[p]);
    let n = next_nonempty(a, p + 1);
    assert(a[n] == b[n]);
}

/// Extraction passes over lines that open no block of the app.
proof fn lemma_extract_skip(b: Seq<Seq<char>>, app_id: u32, x: int, i: int)
    requires
        0 <= x <= i <= b.len(),
        forall|p: int| x <= p < i ==> !#[trigger] block_starts_at(b, p, app_id),
    ensures
        extract_from(b, app_id, x) == extract_from(b, app_id, i),
    decreases i - x,
{
    if x < i {
        assert(!block_starts_at(b, x, app_id));
        lemma_extract_skip(b, app_id, x + 1, i);
    }
}

// ---------------------------------------------------------------------------
// The law
// ---------------------------------------------------------------------------

/// The app's first block holds no launch options value before the line that
/// setting the launch options replaces.
pub open spec fn single_launch_entry(ls: Seq<Seq<char>>, app_id: u32) -> bool {
    let i = first_block(ls, app_id, 0);
    match scan_end(ls, i + 1, 0, false, None) {
        Some((_, Some(k))) => scan_value(ls.take(k), i + 1, 0, false) is None,
        _ => true,
    }
}

/// Launch options set for an app read back as the value set, when the value
/// is a single non-empty line that does not end with a quote and the app's
/// block holds no other launch options value before the one replaced.
pub proof fn lemma_upsert_then_extract(contents: Seq<char>, app_id: u32, v: Seq<char>)
    requires
        upsert_spec(contents, app_id, v) is Some,
        v.len() > 0,
        !has_char(v, '\n'),
        v.last() != '"',
        single_launch_entry(lines(contents), app_id),
    ensures
        extract_spec(upsert_spec(contents, app_id, v).unwrap(), app_id) == Some(v),
{
    let ls = lines(contents);
    lemma_lines_from_no_newline(contents, 0);
    lemma_first_block(ls, app_id, 0);
    let i = first_block(ls, app_id, 0);
    assert(i < ls.len());
    let o = next_nonempty(ls, i + 1);
    lemma_next_nonempty_bounds(ls, i + 1);
    assert(trim(ls[o]) == seq!['{']);
    lemma_scan_end_blank(ls, i + 1, o);
    assert(scan_end(ls, o, 0, false, None) == scan_end(ls, o + 1, 1, true, None));
    let (e, l) = scan_end(ls, i + 1, 0, false, None).unwrap();
    lemma_scan_end_bounds(ls, o + 1, 1, true, None);
    let ind = indent_of(ls, i + 1, e);
    lemma_indent_white(ls, i + 1, e);
    let nl = launch_line(ind, v);
    lemma_launch_line_value(ind, v);
    lemma_launch_line_no_newline(ind, v);
    let b = upsert_lines(ls, app_id, v).unwrap();
    let m: int = match l {
        Some(k) => k,
        None => e,
    };
    assert(o < m);
    match l {
        Some(k) => {
            assert(b == ls.update(k, nl));
            lemma_walk_replace(ls, i + 1, 0, false, None, k, nl, v);
            assert forall|j: int| 0 <= j < b.len() implies !has_char(#[trigger] b[j], '\n') by {
                if j != k {
                    assert(b[j] == ls[j]);
                }
            }
        },
        None => {
            assert(b == ls.insert(e, nl));
            lemma_walk_insert(ls, i + 1, 0, false, nl, v);
            assert forall|j: int| 0 <= j < b.len() implies !has_char(#[trigger] b[j], '\n') by {
                if j < e {
                    assert(b[j] == ls[j]);
                } else if j > e {
                    assert(b[j] == ls[j - 1]);
                }
            }
        },
    }
    assert(scan_value(b, i + 1, 0, false) == Some(v));
    assert forall|j: int| 0 <= j < m implies #[trigger] ls[j] == b[j] by {}
    assert(trim(ls[i]) == app_key(app_id));
    assert forall|p: int| 0 <= p < i implies !#[trigger] block_starts_at(b, p, app_id) by {
        lemma_next_nonempty_bounds(ls, p + 1);
        if next_nonempty(ls, p + 1) > i {
            assert(trim(ls[i]).len() == 0);
        }
        assert(!block_starts_at(ls, p, app_id));
        lemma_block_prefix(ls, b, m, p, app_id);
    }
    lemma_block_prefix(ls, b, m, i, app_id);
    lemma_extract_skip(b, app_id, 0, i);
    assert(extract_from(b, app_id, i) == Some(v));
    lemma_extract_joined(b, app_id);
}

} // verus!
