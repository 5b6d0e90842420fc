//! Parsing and serializing BepInEx configuration text.
use vstd::prelude::*;

use crate::config::model::{ConfigDocument, ConfigLine, LineView};
use crate::text::{lemma_lines_from_chars, lemma_no_char_subrange, lemma_no_char_trim, lemma_trim_idempotent, lead_ws, chars_of, find_char_from, has_char, has_char_exec, lemma_find_from, lemma_find_from_at, lemma_lines_concat, lemma_lines_single, lemma_trim_facts, lemma_trim_identity, lines, lines_from, push_char, slice_chars, string_of, trim, trim_chars, find_from, strip_cr, lemma_trim_append_ws};

verus! {

/// Why a line of configuration text was rejected, and where.
#[derive(Debug, Clone, PartialEq, Eq)]
pub struct ParseError {
    pub line_number: usize,
    pub line_text: String,
    pub reason: String,
}

/// Reason given for a line that is none of the four kinds.
pub open spec fn reason_unrecognized() -> Seq<char> {
    "expected a [section], key = value, comment, or blank line"@
}

/// Reason given for a malformed `[section]` header.
pub open spec fn reason_section() -> Seq<char> {
    "malformed section header; expected [sectionname]"@
}

/// Reason given for a setting whose key is empty.
pub open spec fn reason_key_empty() -> Seq<char> {
    "malformed setting; key is empty"@
}

/// Reason given for a setting whose key holds a bracket.
pub open spec fn reason_key_brackets() -> Seq<char> {
    "malformed setting; key must not contain brackets"@
}

/// How a trimmed line that starts with `[` is read.
pub open spec fn parse_section_spec(t: Seq<char>) -> Result<LineView, Seq<char>> {
    if !(t.len() >= 2 && t.last() == ']') {
        Err(reason_section())
    } else {
        let name = t.subrange(1, t.len() - 1);
        if name.len() == 0 || has_char(name, '[') || has_char(name, ']') {
            Err(reason_section())
        } else {
            Ok(LineView::Section(name))
        }
    }
}

/// How a trimmed line holding `=` is read: split at the first `=`.
pub open spec fn parse_setting_spec(t: Seq<char>) -> Result<LineView, Seq<char>> {
    let k = find_from(t, '=', 0);
    let key = trim(t.subrange(0, k));
    let value = trim(t.subrange(k + 1, t.len() as int));
    if key.len() == 0 {
        Err(reason_key_empty())
    } else if has_char(key, '[') || has_char(key, ']') {
        Err(reason_key_brackets())
    } else {
        Ok(LineView::Setting { key, value })
    }
}

/// How one line of text is read.
pub open spec fn parse_line_spec(line: Seq<char>) -> Result<LineView, Seq<char>> {
    let t = trim(line);
    if t.len() == 0 {
        Ok(LineView::Blank)
    } else if t[0] == '#' {
        Ok(LineView::Comment(line))
    } else if t[0] == '[' {
        parse_section_spec(t)
    } else if has_char(t, '=') {
        parse_setting_spec(t)
    } else {
        Err(reason_unrecognized())
    }
}

/// `text` is read line by line into exactly `doc`.
pub open spec fn parses_to(text: Seq<char>, doc: Seq<LineView>) -> bool {
    &&& lines(text).len() == doc.len()
    &&& forall|i: int|
        0 <= i < doc.len() ==> parse_line_spec(#[trigger] lines(text)[i]) == Ok::<
            LineView,
            Seq<char>,
        >(doc[i])
}

/// Every line of `text` can be read.
pub open spec fn all_lines_parse(text: Seq<char>) -> bool {
    forall|i: int| 0 <= i < lines(text).len() ==> (#[trigger] parse_line_spec(lines(text)[i])) is Ok
}

/// The text one line is written as.
pub open spec fn render_line(l: LineView) -> Seq<char> {
    match l {
        LineView::Blank => Seq::empty(),
        LineView::Comment(text) => text,
        LineView::Section(name) => seq!['['] + name + seq![']'],
        LineView::Setting { key, value } => key + seq![' ', '=', ' '] + value,
    }
}

/// The text a document is written as: every line followed by `'\n'`.
pub open spec fn render_doc(ls: Seq<LineView>) -> Seq<char>
    decreases ls.len(),
{
    if ls.len() == 0 {
        Seq::empty()
    } else {
        render_doc(ls.drop_last()) + render_line(ls.last()).push('\n')
    }
}

/// A line that is written the way the parser reads it back: no line
/// breaks inside, and no stray whitespace or markers that reading would
/// drop or reinterpret.
pub open spec fn line_is_canonical(l: LineView) -> bool {
    match l {
        LineView::Blank => true,
        LineView::Comment(text) => {
            &&& !has_char(text, '\n')
            &&& !(text.len() > 0 && text.last() == '\r')
            &&& trim(text).len() > 0
            &&& trim(text)[0] == '#'
        },
        LineView::Section(name) => {
            &&& name.len() > 0
            &&& !has_char(name, '[')
            &&& !has_char(name, ']')
            &&& !has_char(name, '\n')
        },
        LineView::Setting { key, value } => {
            &&& key.len() > 0
            &&& trim(key) == key
            &&& trim(value) == value
            &&& key[0] != '#'
            &&& key[0] != '['
            &&& !has_char(key, '=')
            &&& !has_char(key, '[')
            &&& !has_char(key, ']')
            &&& !has_char(key, '\n')
            &&& !has_char(value, '\n')
        },
    }
}

// ---------------------------------------------------------------------------
// Executable parsing
// ---------------------------------------------------------------------------

/// Reads a trimmed line that starts with `[`.
fn parse_section_line(trimmed: &Vec<char>, raw_line: &Vec<char>, line_number: usize) -> (r: Result<
    ConfigLine,
    ParseError,
>)
    requires
        trimmed.len() > 0,
    ensures
        match r {
            Ok(l) => parse_section_spec(trimmed@) == Ok::<LineView, Seq<char>>(l@),
            Err(e) => {
                &&& parse_section_spec(trimmed@) == Err::<LineView, Seq<char>>(e.reason@)
                &&& e.line_number == line_number
                &&& e.line_text@ == raw_line@
            },
        },
{
    let n = trimmed.len();
    if !(n >= 2 && trimmed[n - 1] == ']') {
        return Err(
            ParseError {
                line_number,
                line_text: string_of(raw_line),
                reason: "malformed section header; expected [sectionname]".to_owned(),
            },
        );
    }
    let name = slice_chars(trimmed, 1, n - 1);
    if name.len() == 0 || has_char_exec(&name, '[') || has_char_exec(&name, ']') {
        return Err(
            ParseError {
                line_number,
                line_text: string_of(raw_line),
                reason: "malformed section header; expected [sectionname]".to_owned(),
            },
        );
    }
    Ok(ConfigLine::Section(string_of(&name)))
}

/// Reads a trimmed line that holds `=`.
fn parse_setting_line(trimmed: &Vec<char>, raw_line: &Vec<char>, line_number: usize) -> (r: Result<
    ConfigLine,
    ParseError,
>)
    requires
        has_char(trimmed@, '='),
    ensures
        match r {
            Ok(l) => parse_setting_spec(trimmed@) == Ok::<LineView, Seq<char>>(l@),
            Err(e) => {
                &&& parse_setting_spec(trimmed@) == Err::<LineView, Seq<char>>(e.reason@)
                &&& e.line_number == line_number
                &&& e.line_text@ == raw_line@
            },
        },
{
    let k = find_char_from(trimmed, '=', 0);
    proof {
        crate::text::lemma_has_char_find(trimmed@, '=');
    }
    let key_text = slice_chars(trimmed, 0, k);
    let value_text = slice_chars(trimmed, k + 1, trimmed.len());
    let key = trim_chars(&key_text);
    if key.len() == 0 {
        return Err(
            ParseError {
                line_number,
                line_text: string_of(raw_line),
                reason: "malformed setting; key is empty".to_owned(),
            },
        );
    }
    if has_char_exec(&key, '[') || has_char_exec(&key, ']') {
        return Err(
            ParseError {
                line_number,
                line_text: string_of(raw_line),
                reason: "malformed setting; key must not contain brackets".to_owned(),
            },
        );
    }
    let value = trim_chars(&value_text);
    Ok(ConfigLine::Setting { key: string_of(&key), value: string_of(&value) })
}

/// Reads one line of configuration text.
fn parse_line(line: &Vec<char>, line_number: usize) -> (r: Result<ConfigLine, ParseError>)
    ensures
        match r {
            Ok(l) => parse_line_spec(line@) == Ok::<LineView, Seq<char>>(l@),
            Err(e) => {
                &&& parse_line_spec(line@) == Err::<LineView, Seq<char>>(e.reason@)
                &&& e.line_number == line_number
                &&& e.line_text@ == line@
            },
        },
{
    let trimmed = trim_chars(line);
    if trimmed.len() == 0 {
        return Ok(ConfigLine::Blank);
    }
    if trimmed[0] == '#' {
        return Ok(ConfigLine::Comment(string_of(line)));
    }
    if trimmed[0] == '[' {
        return parse_section_line(&trimmed, line, line_number);
    }
    if has_char_exec(&trimmed, '=') {
        return parse_setting_line(&trimmed, line, line_number);
    }
    Err(
        ParseError {
            line_number,
            line_text: string_of(line),
            reason: "expected a [section], key = value, comment, or blank line".to_owned(),
        },
    )
}

/// Parses configuration text into its lines.
///
/// Succeeds exactly when every line of `text` (as `str::lines` splits it)
/// reads as a blank line, a comment, a `[section]` header or a
/// `key = value` setting. Otherwise the error names the first bad line.
pub fn parse_config_text(text: &str) -> (r: Result<ConfigDocument, ParseError>)
    ensures
        r is Ok <==> all_lines_parse(text@),
        r matches Ok(doc) ==> parses_to(text@, doc@),
        r matches Err(e) ==> {
            &&& 1 <= e.line_number <= lines(text@).len()
            &&& e.line_text@ == lines(text@)[e.line_number - 1]
            &&& parse_line_spec(lines(text@)[e.line_number - 1]) == Err::<LineView, Seq<char>>(
                e.reason@,
            )
            &&& forall|j: int|
                0 <= j < e.line_number - 1 ==> (#[trigger] parse_line_spec(lines(text@)[j])) is Ok
        },
{
    let v = chars_of(text);
    let ghost all = lines(v@);
    let mut out: Vec<ConfigLine> = Vec::new();
    let mut start: usize = 0;
    while start < v.len()
        invariant
            start <= v.len(),
            all == lines(v@),
            v@ == text@,
            all == lines_from(v@, 0),
            out.len() <= start,
            out.len() <= all.len(),
            lines_from(v@, start as int) =~= all.subrange(out.len() as int, all.len() as int),
            forall|i: int|
                0 <= i < out.len() ==> parse_line_spec(#[trigger] all[i]) == Ok::<
                    LineView,
                    Seq<char>,
                >(out@[i]@),
        decreases v.len() - start,
    {
        let k = find_char_from(&v, '\n', start);
        proof {
            lemma_find_from(v@, '\n', start as int);
        }
        let line = if k < v.len() {
            let raw = slice_chars(&v, start, k);
            if raw.len() > 0 && raw[raw.len() - 1] == '\r' {
                slice_chars(&v, start, k - 1)
            } else {
                raw
            }
        } else {
            slice_chars(&v, start, v.len())
        };
        proof {
            let rest = lines_from(v@, start as int);
            if k < v.len() {
                assert(line@ =~= strip_cr(v@.subrange(start as int, k as int)));
                assert(rest =~= seq![line@] + lines_from(v@, k as int + 1));
                assert(rest.subrange(1, rest.len() as int) =~= lines_from(v@, k as int + 1));
                assert(all.subrange(out.len() + 1, all.len() as int) =~= rest.subrange(1, rest.len() as int));
            } else {
                assert(rest =~= seq![line@]);
            }
            assert(rest[0] == line@);
            assert(rest.len() == all.len() - out.len());
            assert(all.subrange(out.len() as int, all.len() as int)[0] == all[out.len() as int]);
            assert(all[out.len() as int] == line@);
        }
        let parsed = parse_line(&line, out.len() + 1);
        match parsed {
            Ok(l) => {
                out.push(l);
            },
            Err(e) => {
                proof {
                    assert(lines(text@)[out.len() as int] == line@);
                    assert(!(parse_line_spec(lines(text@)[out.len() as int]) is Ok));
                    assert forall|j: int| 0 <= j < e.line_number - 1 implies (#[trigger] parse_line_spec(lines(text@)[j])) is Ok by {
                        assert(parse_line_spec(all[j]) == Ok::<LineView, Seq<char>>(out@[j]@));
                    }
                }
                return Err(e);
            },
        }
        start = if k < v.len() { k + 1 } else { v.len() };
        proof {
            if k < v.len() {
                assert(lines_from(v@, start as int) =~= all.subrange(out.len() as int, all.len() as int));
            } else {
                assert(lines_from(v@, start as int) =~= Seq::<Seq<char>>::empty());
            }
        }
    }
    let doc = ConfigDocument { lines: out };
    Ok(doc)
}

// ---------------------------------------------------------------------------
// Serialization
// ---------------------------------------------------------------------------

/// Writes one line.
fn serialize_line(line: &ConfigLine) -> (r: String)
    ensures
        r@ == render_line(line@),
{
    match line {
        ConfigLine::Blank => String::new(),
        ConfigLine::Comment(text) => text.clone(),
        ConfigLine::Section(name) => {
            let mut r = String::new();
            push_char(&mut r, '[');
            r.append(name.as_str());
            push_char(&mut r, ']');
            r
        },
        ConfigLine::Setting { key, value } => {
            let mut r = key.clone();
            push_char(&mut r, ' ');
            push_char(&mut r, '=');
            push_char(&mut r, ' ');
            r.append(value.as_str());
            proof {
                assert(r@ =~= render_line(line@));
            }
            r
        },
    }
}

/// Writes a document back to text: every line followed by `'\n'`; an
/// empty document is the empty text.
pub fn serialize_config(document: &ConfigDocument) -> (r: String)
    ensures
        r@ == render_doc(document@),
{
    let mut out = String::new();
    let mut i: usize = 0;
    while i < document.lines.len()
        invariant
            i <= document.lines.len(),
            out@ == render_doc(document@.take(i as int)),
        decreases document.lines.len() - i,
    {
        let piece = serialize_line(&document.lines[i]);
        out.append(piece.as_str());
        push_char(&mut out, '\n');
        proof {
            let ls = document@.take(i as int + 1);
            assert(ls.drop_last() =~= document@.take(i as int));
            assert(ls.last() == document.lines@[i as int]@);
        }
        i += 1;
    }
    proof {
        assert(document@.take(document.lines.len() as int) =~= document@);
    }
    out
}

// ---------------------------------------------------------------------------
// Round trip
// ---------------------------------------------------------------------------

/// A rendered document is empty or ends with a line break.
proof fn lemma_render_doc_ends(ls: Seq<LineView>)
    ensures
        render_doc(ls).len() > 0 ==> render_doc(ls).last() == '\n',
{
}

/// A canonical line renders to a single line that reads back as itself.
pub proof fn lemma_canonical_line_reads_back(l: LineView)
    requires
        line_is_canonical(l),
    ensures
        !has_char(render_line(l), '\n'),
        render_line(l).len() > 0 ==> render_line(l).last() != '\r',
        parse_line_spec(render_line(l)) == Ok::<LineView, Seq<char>>(l),
{
    let r = render_line(l);
    match l {
        LineView::Blank => {
            assert(r =~= Seq::<char>::empty());
            assert(trim(r) =~= Seq::<char>::empty());
            assert(parse_line_spec(r) == Ok::<LineView, Seq<char>>(l));
        },
        LineView::Comment(text) => {
            assert(parse_line_spec(r) == Ok::<LineView, Seq<char>>(l));
        },
        LineView::Section(name) => {
            assert(r[0] == '[');
            assert(r.last() == ']');
            lemma_trim_identity(r);
            assert(r.subrange(1, r.len() - 1) =~= name);
            assert forall|m: int| 0 <= m < r.len() implies r[m] != '\n' by {
                if 1 <= m < r.len() - 1 {
                    assert(r[m] == name[m - 1]);
                }
            }
            assert(parse_line_spec(r) == Ok::<LineView, Seq<char>>(l));
        },
        LineView::Setting { key, value } => {
            let kl = key.len() as int;
            lemma_trim_facts(key);
            lemma_trim_facts(value);
            assert(r[0] == key[0]);
            assert forall|m: int| 0 <= m < r.len() implies r[m] != '\n' by {
                if m < kl {
                    assert(r[m] == key[m]);
                } else if m >= kl + 3 {
                    assert(r[m] == value[m - kl - 3]);
                }
            }
            let t = trim(r);
            if value.len() > 0 {
                assert(r.last() == value.last());
                lemma_trim_identity(r);
            } else {
                let head = key + seq![' ', '='];
                assert(head[0] == key[0]);
                assert(head.last() == '=');
                lemma_trim_identity(head);
                assert(r =~= head + seq![' ']);
                lemma_trim_append_ws(head, seq![' ']);
            }
            assert(t.len() >= kl + 2);
            assert(t[kl + 1] == '=');
            assert forall|m: int| 0 <= m < kl + 1 implies t[m] != '=' by {
                if m < kl {
                    assert(t[m] == key[m]);
                }
            }
            lemma_find_from_at(t, '=', 0, kl + 1);
            assert(t[0] == key[0]);
            assert(crate::text::has_char(t, '='));
            let key_part = t.subrange(0, kl + 1);
            assert(key_part =~= key + seq![' ']);
            lemma_trim_append_ws(key, seq![' ']);
            let value_part = t.subrange(kl + 2, t.len() as int);
            if value.len() > 0 {
                assert(value_part =~= seq![' '] + value);
                crate::text::lemma_trim_prepend_ws(seq![' '], value);
            } else {
                assert(value_part =~= Seq::<char>::empty());
                assert(trim(value_part) =~= Seq::<char>::empty());
            }
            assert(trim(key_part) == key);
            assert(trim(value_part) == value);
            assert(parse_setting_spec(t) == Ok::<LineView, Seq<char>>(l));
            assert(t.len() > 0 && t[0] != '#' && t[0] != '[');
            assert(parse_line_spec(r) == Ok::<LineView, Seq<char>>(l));
        },
    }
}

/// Round trip: a document made of canonical lines, written out by
/// [`serialize_config`], is read back by [`parse_config_text`] as exactly
/// the same document.
pub proof fn lemma_serialize_then_parse(doc: Seq<LineView>)
    requires
        forall|i: int| 0 <= i < doc.len() ==> line_is_canonical(#[trigger] doc[i]),
    ensures
        parses_to(render_doc(doc), doc),
        all_lines_parse(render_doc(doc)),
    decreases doc.len(),
{
    if doc.len() > 0 {
        let init = doc.drop_last();
        assert forall|i: int| 0 <= i < init.len() implies line_is_canonical(#[trigger] init[i]) by {
            assert(init[i] == doc[i]);
        }
        lemma_serialize_then_parse(init);
        let a = render_doc(init);
        let l = doc.last();
        let b = render_line(l).push('\n');
        lemma_render_doc_ends(init);
        lemma_lines_concat(a, b, 0);
        lemma_canonical_line_reads_back(l);
        lemma_lines_single(render_line(l));
        assert(lines(render_doc(doc)) =~= lines(a) + seq![render_line(l)]);
        assert forall|i: int| 0 <= i < doc.len() implies parse_line_spec(
            #[trigger] lines(render_doc(doc))[i],
        ) == Ok::<LineView, Seq<char>>(doc[i]) by {
            if i < init.len() {
                assert(lines(render_doc(doc))[i] == lines(a)[i]);
            }
        }
    } else {
        assert(lines(render_doc(doc)) =~= Seq::<Seq<char>>::empty());
    }
}

/// A line without line breaks or carriage returns is read as a canonical
/// line.
pub proof fn lemma_parsed_line_canonical(line: Seq<char>, l: LineView)
    requires
        parse_line_spec(line) == Ok::<LineView, Seq<char>>(l),
        !has_char(line, '\n'),
        !has_char(line, '\r'),
    ensures
        line_is_canonical(l),
{
    let t = trim(line);
    lemma_trim_facts(line);
    lemma_no_char_trim(line, '\n');
    if t.len() == 0 {
    } else if t[0] == '#' {
        if line.len() > 0 && line.last() == '\r' {
            assert(line[line.len() - 1] == '\r');
        }
    } else if t[0] == '[' {
        lemma_no_char_subrange(t, '\n', 1, t.len() - 1);
    } else {
        lemma_find_from(t, '=', 0);
        let k = find_from(t, '=', 0);
        let kp = t.subrange(0, k);
        let vp = t.subrange(k + 1, t.len() as int);
        let key = trim(kp);
        let value = trim(vp);
        assert(l == LineView::Setting { key, value });
        lemma_trim_idempotent(kp);
        lemma_trim_idempotent(vp);
        assert(!has_char(kp, '=')) by {
            if has_char(kp, '=') {
                let w = choose|m: int| 0 <= m < kp.len() && kp[m] == '=';
                assert(t[w] == '=');
            }
        }
        lemma_no_char_trim(kp, '=');
        lemma_no_char_subrange(t, '\n', 0, k);
        lemma_no_char_trim(kp, '\n');
        if k + 1 <= t.len() {
            lemma_no_char_subrange(t, '\n', k + 1, t.len() as int);
            lemma_no_char_trim(vp, '\n');
        } else {
            assert(vp =~= Seq::<char>::empty());
            assert(value =~= Seq::<char>::empty()) by {
                lemma_trim_facts(vp);
            }
        }
        lemma_trim_facts(kp);
        assert(kp.len() > 0);
        assert(kp[0] == t[0]);
        assert(lead_ws(kp, 0) == 0);
        assert(key == kp.subrange(0, crate::text::trail_ws(kp, 0, kp.len() as int)));
        crate::text::lemma_trail_ws_bounds(kp, 0, kp.len() as int);
        assert(key[0] == kp[0]);
    }
}

/// Round trip: a document read from text without carriage returns is made
/// of canonical lines, so writing it out with [`serialize_config`] and
/// reading that with [`parse_config_text`] gives the same document.
pub proof fn lemma_parse_serialize_parse(text: Seq<char>, doc: Seq<LineView>)
    requires
        parses_to(text, doc),
        !has_char(text, '\r'),
    ensures
        forall|i: int| 0 <= i < doc.len() ==> line_is_canonical(#[trigger] doc[i]),
        parses_to(render_doc(doc), doc),
        all_lines_parse(render_doc(doc)),
{
    lemma_lines_from_chars(text, '\r', 0);
    assert forall|i: int| 0 <= i < doc.len() implies line_is_canonical(#[trigger] doc[i]) by {
        let line = lines(text)[i];
        assert(parse_line_spec(line) == Ok::<LineView, Seq<char>>(doc[i]));
        lemma_parsed_line_canonical(line, doc[i]);
    }
    lemma_serialize_then_parse(doc);
}

/// Lines written one after another, each followed by `'\n'`.
pub open spec fn join_lines(ls: Seq<Seq<char>>) -> Seq<char>
    decreases ls.len(),
{
    if ls.len() == 0 {
        Seq::empty()
    } else {
        join_lines(ls.drop_last()) + ls.last().push('\n')
    }
}

/// Writing a first line, then the rest.
proof fn lemma_join_lines_cons(a: Seq<char>, rest: Seq<Seq<char>>)
    ensures
        join_lines(seq![a] + rest) == a.push('\n') + join_lines(rest),
    decreases rest.len(),
{
    let all = seq![a] + rest;
    if rest.len() == 0 {
        assert(all =~= seq![a]);
        assert(all.drop_last() =~= Seq::<Seq<char>>::empty());
        assert(join_lines(all.drop_last()) =~= Seq::<char>::empty());
        assert(join_lines(rest) =~= Seq::<char>::empty());
        assert(all.last() == a);
        assert(join_lines(all) =~= a.push('\n') + join_lines(rest));
    } else {
        lemma_join_lines_cons(a, rest.drop_last());
        assert(all.drop_last() =~= seq![a] + rest.drop_last());
        assert(all.last() == rest.last());
        assert(join_lines(all) =~= a.push('\n') + join_lines(rest));
    }
}

/// Text without carriage returns that is empty or ends with a line break
/// is its lines written back one after another.
proof fn lemma_join_lines_of_text(s: Seq<char>, start: int)
    requires
        0 <= start <= s.len(),
        !has_char(s, '\r'),
        s.len() == 0 || s.last() == '\n',
    ensures
        join_lines(lines_from(s, start)) == s.subrange(start, s.len() as int),
    decreases s.len() - start,
{
    if start == s.len() {
        assert(lines_from(s, start) =~= Seq::<Seq<char>>::empty());
        assert(s.subrange(start, s.len() as int) =~= Seq::<char>::empty());
    } else {
        lemma_find_from(s, '\n', start);
        let k = find_from(s, '\n', start);
        if k >= s.len() {
            assert(s[s.len() - 1] == '\n');
        }
        assert(k < s.len());
        let piece = s.subrange(start, k);
        assert(strip_cr(piece) == piece) by {
            if piece.len() > 0 && piece.last() == '\r' {
                assert(s[k - 1] == '\r');
            }
        }
        lemma_join_lines_of_text(s, k + 1);
        let rest = lines_from(s, k + 1);
        assert(lines_from(s, start) =~= seq![piece] + rest);
        lemma_join_lines_cons(piece, rest);
        assert(piece.push('\n') + s.subrange(k + 1, s.len() as int) =~= s.subrange(start, s.len() as int));
    }
}

/// A document is written as the lines it renders to.
proof fn lemma_render_doc_join(doc: Seq<LineView>, ls: Seq<Seq<char>>)
    requires
        ls.len() == doc.len(),
        forall|i: int| 0 <= i < doc.len() ==> #[trigger] ls[i] == render_line(doc[i]),
    ensures
        render_doc(doc) == join_lines(ls),
    decreases doc.len(),
{
    if doc.len() > 0 {
        let n = doc.len() - 1;
        assert forall|i: int| 0 <= i < n implies #[trigger] ls.drop_last()[i] == render_line(doc.drop_last()[i]) by {
            assert(ls.drop_last()[i] == ls[i]);
            assert(doc.drop_last()[i] == doc[i]);
        }
        lemma_render_doc_join(doc.drop_last(), ls.drop_last());
        assert(ls.last() == ls[n]);
    }
}

/// Round trip from canonical text: text without carriage returns that ends
/// with a line break (or is empty), and whose every line is written the way
/// [`serialize_config`] writes the line it is read as (sections `[name]`,
/// settings `key = value`, blank lines empty, comments as they are), is
/// written back by [`serialize_config`] exactly as it was.
pub proof fn lemma_canonical_text_round_trip(text: Seq<char>, doc: Seq<LineView>)
    requires
        parses_to(text, doc),
        !has_char(text, '\r'),
        text.len() == 0 || text.last() == '\n',
        forall|i: int| 0 <= i < doc.len() ==> #[trigger] lines(text)[i] == render_line(doc[i]),
    ensures
        render_doc(doc) == text,
{
    lemma_render_doc_join(doc, lines(text));
    lemma_join_lines_of_text(text, 0);
    assert(text.subrange(0, text.len() as int) =~= text);
}

/// The text shown for a line that could not be parsed.
pub open spec fn parse_error_text(e: ParseError) -> Seq<char> {
    "config parse error on line "@ + crate::text::decimal(e.line_number as nat) + ": "@ + e.reason@ + " ("@
        + e.line_text@ + ")"@
}

impl ParseError {
    /// The error as shown to the user.
    pub fn message(&self) -> (r: String)
        ensures
            r@ == parse_error_text(*self),
    {
        let mut r = String::new();
        crate::text::append_str(&mut r, "config parse error on line ");
        crate::text::append_str(&mut r, crate::text::decimal_string(self.line_number as u64).as_str());
        crate::text::append_str(&mut r, ": ");
        crate::text::append_str(&mut r, self.reason.as_str());
        crate::text::append_str(&mut r, " (");
        crate::text::append_str(&mut r, self.line_text.as_str());
        crate::text::append_str(&mut r, ")");
        r
    }
}

} // verus!
