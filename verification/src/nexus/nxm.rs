//! `nxm://` links, which Nexus Mods opens to hand a download to the
//! manager.
use vstd::prelude::*;

use crate::text::{
    append_chars, append_str, chars_eq, chars_of, concat_str, contains, contains_exec, find_char_from, find_from,
    has_char, has_char_exec, lines, lines_of, parse_u64, parse_u64_spec, push_char, render_lines, slice_chars,
    split_char, split_chars, starts_with, starts_with_exec, string_of, trim, trim_chars, trim_start,
    trim_start_chars, trim_str,
};

verus! {

/// A parsed `nxm://` link.
#[derive(Debug, Clone, PartialEq, Eq)]
pub struct NxmLink {
    pub game_domain: String,
    pub mod_id: u64,
    pub file_id: u64,
    pub key: Option<String>,
    pub expires: Option<String>,
    pub user_id: Option<String>,
}

/// Why a link could not be used.
#[derive(Debug, Clone, PartialEq, Eq)]
pub enum NxmError {
    InvalidUrl(String),
    HomeUnavailable,
    Io(String),
    Handler(String),
}

/// The abstract value of a parsed link.
pub struct NxmView {
    pub game_domain: Seq<char>,
    pub mod_id: nat,
    pub file_id: nat,
    pub key: Option<Seq<char>>,
    pub expires: Option<Seq<char>>,
    pub user_id: Option<Seq<char>>,
}

/// The view of an optional text.
pub open spec fn opt_view(o: Option<String>) -> Option<Seq<char>> {
    match o {
        Some(s) => Some(s@),
        None => None,
    }
}

impl NxmLink {
    /// The link's abstract value.
    pub open spec fn view_of(&self) -> NxmView {
        NxmView {
            game_domain: self.game_domain@,
            mod_id: self.mod_id as nat,
            file_id: self.file_id as nat,
            key: opt_view(self.key),
            expires: opt_view(self.expires),
            user_id: opt_view(self.user_id),
        }
    }
}

/// The non-empty segments, in order.
pub open spec fn nonempty(segs: Seq<Seq<char>>) -> Seq<Seq<char>>
    decreases segs.len(),
{
    if segs.len() == 0 {
        Seq::empty()
    } else if segs.last().len() > 0 {
        nonempty(segs.drop_last()).push(segs.last())
    } else {
        nonempty(segs.drop_last())
    }
}

/// The value the last `name=value` pair with this name gives, if any.
pub open spec fn query_value(pairs: Seq<Seq<char>>, name: Seq<char>) -> Option<Seq<char>>
    decreases pairs.len(),
{
    if pairs.len() == 0 {
        None
    } else {
        let p = pairs.last();
        let e = find_from(p, '=', 0);
        if e < p.len() && p.take(e) == name {
            Some(p.skip(e + 1))
        } else {
            query_value(pairs.drop_last(), name)
        }
    }
}

/// The link text after its scheme, which is `nxm://` or `NXM://`.
pub open spec fn after_scheme(t: Seq<char>) -> Option<Seq<char>> {
    if starts_with(t, "nxm://"@) {
        Some(t.skip(6))
    } else if starts_with(t, "NXM://"@) {
        Some(t.skip(6))
    } else {
        None
    }
}

/// What [`parse_nxm_url`] gives for a link text: the link, or the message
/// of the `InvalidUrl` error.
pub open spec fn parse_nxm_spec(raw: Seq<char>) -> Result<NxmView, Seq<char>> {
    let t = trim(raw);
    match after_scheme(t) {
        None => Err("missing nxm:// scheme"@),
        Some(ws) => {
            let q = find_from(ws, '?', 0);
            let path = ws.take(q);
            let segs = nonempty(split_char(path, '/'));
            if segs.len() < 5 || segs[1] != "mods"@ || segs[3] != "files"@ {
                Err("expected nxm://{game}/mods/{id}/files/{fileId}, got "@ + t)
            } else {
                match parse_u64_spec(segs[2]) {
                    None => Err("bad mod id '"@ + segs[2] + "'"@),
                    Some(mod_id) => match parse_u64_spec(segs[4]) {
                        None => Err("bad file id '"@ + segs[4] + "'"@),
                        Some(file_id) => {
                            let pairs = if q < ws.len() {
                                split_char(ws.skip(q + 1), '&')
                            } else {
                                Seq::empty()
                            };
                            Ok(
                                NxmView {
                                    game_domain: segs[0],
                                    mod_id,
                                    file_id,
                                    key: query_value(pairs, "key"@),
                                    expires: query_value(pairs, "expires"@),
                                    user_id: query_value(pairs, "user_id"@),
                                },
                            )
                        },
                    },
                }
            }
        },
    }
}

/// The non-empty pieces of a split, in order.
fn nonempty_exec(segs: &Vec<Vec<char>>) -> (r: Vec<Vec<char>>)
    ensures
        r@.len() == nonempty(segs@.map_values(|v: Vec<char>| v@)).len(),
        forall|i: int| 0 <= i < r@.len() ==> (#[trigger] r@[i])@ == nonempty(segs@.map_values(|v: Vec<char>| v@))[i],
{
    let ghost sv = segs@.map_values(|v: Vec<char>| v@);
    let mut out: Vec<Vec<char>> = Vec::new();
    let mut i: usize = 0;
    while i < segs.len()
        invariant
            i <= segs.len(),
            sv == segs@.map_values(|v: Vec<char>| v@),
            out@.len() == nonempty(sv.take(i as int)).len(),
            forall|k: int| 0 <= k < out@.len() ==> (#[trigger] out@[k])@ == nonempty(sv.take(i as int))[k],
        decreases segs.len() - i,
    {
        proof {
            assert(sv.take(i as int + 1).drop_last() =~= sv.take(i as int));
            assert(sv.take(i as int + 1).last() == segs@[i as int]@);
        }
        if segs[i].len() > 0 {
            out.push(slice_chars(&segs[i], 0, segs[i].len()));
            proof {
                assert(segs@[i as int]@.subrange(0, segs@[i as int]@.len() as int) =~= segs@[i as int]@);
            }
        }
        i += 1;
    }
    assert(sv.take(i as int) =~= sv);
    out
}

/// The value of the last pair named `name`.
fn query_value_exec(pairs: &Vec<Vec<char>>, name: &str) -> (r: Option<String>)
    ensures
        opt_view(r) == query_value(pairs@.map_values(|v: Vec<char>| v@), name@),
{
    let ghost pv = pairs@.map_values(|v: Vec<char>| v@);
    let n = chars_of(name);
    let mut i = pairs.len();
    assert(pv.take(i as int) =~= pv);
    while i > 0
        invariant
            i <= pairs.len(),
            n@ == name@,
            pv == pairs@.map_values(|v: Vec<char>| v@),
            query_value(pv, name@) == query_value(pv.take(i as int), name@),
        decreases i,
    {
        let p = &pairs[i - 1];
        let e = find_char_from(p, '=', 0);
        proof {
            assert(pv.take(i as int).last() == p@);
            assert(pv.take(i as int).drop_last() =~= pv.take(i - 1));
        }
        if e < p.len() {
            let head = slice_chars(p, 0, e);
            if chars_eq(&head, &n) {
                let v = slice_chars(p, e + 1, p.len());
                assert(v@ == p@.skip(e + 1));
                return Some(string_of(&v));
            }
        }
        i -= 1;
    }
    None
}

/// Parses an `nxm://{game}/mods/{id}/files/{fileId}` link, with the
/// optional `key`, `expires` and `user_id` of a free account's download.
pub fn parse_nxm_url(raw: &str) -> (r: Result<NxmLink, NxmError>)
    ensures
        match parse_nxm_spec(raw@) {
            Ok(v) => r matches Ok(link) && link.view_of() == v,
            Err(m) => r matches Err(NxmError::InvalidUrl(msg)) && msg@ == m,
        },
{
    let trimmed = trim_str(raw);
    let t = chars_of(trimmed.as_str());
    let ws = if starts_with_exec(&t, &chars_of("nxm://")) || starts_with_exec(&t, &chars_of("NXM://")) {
        proof {
            reveal_strlit("nxm://");
            reveal_strlit("NXM://");
        }
        slice_chars(&t, 6, t.len())
    } else {
        return Err(NxmError::InvalidUrl("missing nxm:// scheme".to_owned()));
    };
    assert(after_scheme(t@) == Some(ws@));
    let q = find_char_from(&ws, '?', 0);
    let path = slice_chars(&ws, 0, q);
    assert(path@ == ws@.take(q as int));
    let all = split_chars(&path, '/');
    proof {
        assert(all@.map_values(|v: Vec<char>| v@) =~= split_char(path@, '/'));
    }
    let segs = nonempty_exec(&all);
    let ghost sv = nonempty(split_char(path@, '/'));
    if segs.len() < 5 || !chars_eq(&segs[1], &chars_of("mods")) || !chars_eq(&segs[3], &chars_of("files")) {
        let mut m = "expected nxm://{game}/mods/{id}/files/{fileId}, got ".to_owned();
        append_str(&mut m, trimmed.as_str());
        return Err(NxmError::InvalidUrl(m));
    }
    assert(segs@[2]@ == sv[2] && segs@[4]@ == sv[4] && segs@[0]@ == sv[0]);
    let mod_id = match parse_u64(&segs[2]) {
        Some(n) => n,
        None => {
            let mut m = "bad mod id '".to_owned();
            append_str(&mut m, string_of(&segs[2]).as_str());
            append_str(&mut m, "'");
            return Err(NxmError::InvalidUrl(m));
        },
    };
    let file_id = match parse_u64(&segs[4]) {
        Some(n) => n,
        None => {
            let mut m = "bad file id '".to_owned();
            append_str(&mut m, string_of(&segs[4]).as_str());
            append_str(&mut m, "'");
            return Err(NxmError::InvalidUrl(m));
        },
    };
    let pairs: Vec<Vec<char>> = if q < ws.len() {
        let query = slice_chars(&ws, q + 1, ws.len());
        assert(query@ == ws@.skip(q + 1));
        split_chars(&query, '&')
    } else {
        Vec::new()
    };
    proof {
        if q < ws.len() {
            assert(pairs@.map_values(|v: Vec<char>| v@) =~= split_char(ws@.skip(q + 1), '&'));
        } else {
            assert(pairs@.map_values(|v: Vec<char>| v@) =~= Seq::<Seq<char>>::empty());
        }
    }
    let key = query_value_exec(&pairs, "key");
    let expires = query_value_exec(&pairs, "expires");
    let user_id = query_value_exec(&pairs, "user_id");
    Ok(NxmLink { game_domain: string_of(&segs[0]), mod_id, file_id, key, expires, user_id })
}

/// The pending links a queue file holds: its lines, trimmed, blank ones
/// dropped.
pub open spec fn pending_lines(ls: Seq<Seq<char>>) -> Seq<Seq<char>>
    decreases ls.len(),
{
    if ls.len() == 0 {
        Seq::empty()
    } else if trim(ls.last()).len() > 0 {
        pending_lines(ls.drop_last()).push(trim(ls.last()))
    } else {
        pending_lines(ls.drop_last())
    }
}

/// Reads the queued links out of the queue file's text.
pub fn pending_urls_from_text(text: &str) -> (r: Vec<String>)
    ensures
        r.deep_view() == pending_lines(lines(text@)),
{
    let v = chars_of(text);
    let ls = crate::text::lines_of(&v);
    let ghost lv = lines(v@);
    let mut out: Vec<String> = Vec::new();
    let mut i: usize = 0;
    while i < ls.len()
        invariant
            i <= ls.len(),
            v@ == text@,
            lv == lines(v@),
            ls@.len() == lv.len(),
            forall|k: int| 0 <= k < ls@.len() ==> (#[trigger] ls@[k])@ == lv[k],
            out.deep_view() == pending_lines(lv.take(i as int)),
        decreases ls.len() - i,
    {
        let t = crate::text::trim_chars(&ls[i]);
        proof {
            assert(lv.take(i as int + 1).drop_last() =~= lv.take(i as int));
            assert(lv.take(i as int + 1).last() == ls@[i as int]@);
        }
        if t.len() > 0 {
            let ghost prev = out.deep_view();
            out.push(string_of(&t));
            assert(out.deep_view() =~= prev.push(t@));
        }
        i += 1;
    }
    assert(lv.take(i as int) =~= lv);
    out
}

/// The line appended to the queue file for a link.
pub fn queue_line(url: &str) -> (r: String)
    ensures
        r@ == url@ + seq!['\n'],
{
    let mut r = url.to_owned();
    push_char(&mut r, '\n');
    r
}

/// The text shown for an `nxm://` link error.
pub open spec fn nxm_error_text(e: NxmError) -> Seq<char> {
    match e {
        NxmError::InvalidUrl(d) => "invalid nxm url: "@ + d@,
        NxmError::HomeUnavailable => "HOME is unset; cannot register nxm handler"@,
        NxmError::Io(d) => "nxm io error: "@ + d@,
        NxmError::Handler(d) => "nxm handler error: "@ + d@,
    }
}

impl NxmError {
    /// The error as shown to the user.
    pub fn message(&self) -> (r: String)
        ensures
            r@ == nxm_error_text(*self),
    {
        match self {
            NxmError::InvalidUrl(d) => {
                let mut r = String::new();
                crate::text::append_str(&mut r, "invalid nxm url: ");
                crate::text::append_str(&mut r, d.as_str());
                r
            },
            NxmError::HomeUnavailable => {
                let mut r = String::new();
                crate::text::append_str(&mut r, "HOME is unset; cannot register nxm handler");
                r
            },
            NxmError::Io(d) => {
                let mut r = String::new();
                crate::text::append_str(&mut r, "nxm io error: ");
                crate::text::append_str(&mut r, d.as_str());
                r
            },
            NxmError::Handler(d) => {
                let mut r = String::new();
                crate::text::append_str(&mut r, "nxm handler error: ");
                crate::text::append_str(&mut r, d.as_str());
                r
            },
        }
    }
}

// ---------------------------------------------------------------------------
// The desktop's handler for `nxm://` links
// ---------------------------------------------------------------------------

/// The desktop entry that opens `nxm://` links with the manager at `exe`.
pub open spec fn desktop_entry_spec(exe: Seq<char>) -> Seq<char> {
    "[Desktop Entry]\nType=Application\nName=pollip (Nexus Downloads)\nExec=\""@ + exe
        + "\" %u\nMimeType=x-scheme-handler/nxm;\nNoDisplay=true\nTerminal=false\nStartupNotify=false\nCategories=Game;\n"@
}

/// Writes the desktop entry for the manager at `exe`.
pub fn desktop_entry_text(exe: &str) -> (r: String)
    ensures
        r@ == desktop_entry_spec(exe@),
{
    let mut r = concat_str("[Desktop Entry]\nType=Application\nName=pollip (Nexus Downloads)\nExec=\"", exe);
    append_str(
        &mut r,
        "\" %u\nMimeType=x-scheme-handler/nxm;\nNoDisplay=true\nTerminal=false\nStartupNotify=false\nCategories=Game;\n",
    );
    r
}

/// Some line of `mimeapps.list` names the manager's entry as the handler:
/// trimmed, it starts with the `nxm` scheme's type, holds `=` and holds
/// the entry's file name.
pub open spec fn registers_handler(ls: Seq<Seq<char>>) -> bool {
    exists|i: int|
        0 <= i < ls.len() && starts_with(#[trigger] trim(ls[i]), "x-scheme-handler/nxm"@) && has_char(trim(ls[i]), '=')
            && contains(trim(ls[i]), "silksong-mod-manager-nxm.desktop"@)
}

/// Does `mimeapps.list` name the manager as the handler of `nxm://` links?
pub fn mimeapps_registers_handler(text: &str) -> (r: bool)
    ensures
        r == registers_handler(lines(text@)),
{
    let ls = lines_of(&chars_of(text));
    let mime = chars_of("x-scheme-handler/nxm");
    let desktop = chars_of("silksong-mod-manager-nxm.desktop");
    let mut i: usize = 0;
    while i < ls.len()
        invariant
            i <= ls.len(),
            ls@.len() == lines(text@).len(),
            forall|k: int| 0 <= k < ls@.len() ==> (#[trigger] ls@[k])@ == lines(text@)[k],
            mime@ == "x-scheme-handler/nxm"@,
            desktop@ == "silksong-mod-manager-nxm.desktop"@,
            forall|k: int|
                0 <= k < i ==> !(starts_with(#[trigger] trim(lines(text@)[k]), "x-scheme-handler/nxm"@) && has_char(
                    trim(lines(text@)[k]),
                    '=',
                ) && contains(trim(lines(text@)[k]), "silksong-mod-manager-nxm.desktop"@)),
        decreases ls.len() - i,
    {
        let t = trim_chars(&ls[i]);
        if starts_with_exec(&t, &mime) && has_char_exec(&t, '=') && contains_exec(&t, &desktop) {
            assert(ls@[i as int]@ == lines(text@)[i as int]);
            return true;
        }
        i += 1;
    }
    false
}

/// A line of `mimeapps.list` after setting the default: one that, without
/// leading whitespace, starts with `prefix` becomes `replacement`.
pub open spec fn mime_line(l: Seq<char>, prefix: Seq<char>, replacement: Seq<char>) -> Seq<char> {
    if starts_with(trim_start(l), prefix) {
        replacement
    } else {
        l
    }
}

/// Some line, without leading whitespace, starts with `prefix`.
pub open spec fn has_mime_line(ls: Seq<Seq<char>>, prefix: Seq<char>) -> bool {
    exists|i: int| 0 <= i < ls.len() && starts_with(#[trigger] trim_start(ls[i]), prefix)
}

/// Some line, trimmed, is the default applications section's header.
pub open spec fn has_defaults_section(ls: Seq<Seq<char>>) -> bool {
    exists|i: int| 0 <= i < ls.len() && #[trigger] trim(ls[i]) == "[Default Applications]"@
}

/// The lines of `mimeapps.list` after making `desktop` the default for
/// `mime`: every line for the type is replaced; when there was none, the
/// line is added at the end, after the section's header when the file has
/// none (separated by an empty line from a last line that is not empty).
pub open spec fn mime_default_lines(existing: Seq<char>, mime: Seq<char>, desktop: Seq<char>) -> Seq<Seq<char>> {
    let ls = lines(existing);
    let prefix = mime.push('=');
    let replacement = mime.push('=') + desktop;
    if has_mime_line(ls, prefix) {
        ls.map_values(|l: Seq<char>| mime_line(l, prefix, replacement))
    } else {
        let with_header = if has_defaults_section(ls) {
            ls
        } else {
            (if ls.len() > 0 && ls.last().len() > 0 {
                ls.push(Seq::empty())
            } else {
                ls
            }).push("[Default Applications]"@)
        };
        with_header.push(replacement)
    }
}

/// Appends each line followed by a line break.
fn render_into(out: &mut String, ls: &Vec<Vec<char>>)
    ensures
        final(out)@ == old(out)@ + render_lines(ls@.map_values(|l: Vec<char>| l@)),
{
    let ghost start = out@;
    let ghost views = ls@.map_values(|l: Vec<char>| l@);
    let mut i: usize = 0;
    while i < ls.len()
        invariant
            i <= ls.len(),
            views == ls@.map_values(|l: Vec<char>| l@),
            out@ == start + render_lines(views.take(i as int)),
        decreases ls.len() - i,
    {
        append_chars(out, &ls[i]);
        push_char(out, '\n');
        proof {
            let t = views.take(i as int + 1);
            assert(t.drop_last() =~= views.take(i as int));
            assert(t.last() == ls@[i as int]@);
            assert(out@ =~= start + render_lines(t));
        }
        i += 1;
    }
    assert(views.take(i as int) =~= views);
}

/// `mimeapps.list` after making `desktop` the default for `mime`, each line
/// ended by a line break.
pub fn upsert_mime_default_text(existing: &str, mime: &str, desktop: &str) -> (r: String)
    ensures
        r@ == render_lines(mime_default_lines(existing@, mime@, desktop@)),
{
    let ls = lines_of(&chars_of(existing));
    let ghost lv = lines(existing@);
    let mut prefix = chars_of(mime);
    prefix.push('=');
    let mut replacement = prefix.clone();
    let dv = chars_of(desktop);
    let mut d: usize = 0;
    while d < dv.len()
        invariant
            d <= dv.len(),
            prefix@ == mime@.push('='),
            replacement@ == mime@.push('=') + dv@.take(d as int),
        decreases dv.len() - d,
    {
        replacement.push(dv[d]);
        d += 1;
        assert(replacement@ =~= mime@.push('=') + dv@.take(d as int));
    }
    assert(dv@.take(d as int) =~= desktop@);
    let mut out_lines: Vec<Vec<char>> = Vec::new();
    let mut replaced = false;
    let mut i: usize = 0;
    while i < ls.len()
        invariant
            i <= ls.len(),
            ls@.len() == lv.len(),
            lv == lines(existing@),
            forall|k: int| 0 <= k < ls@.len() ==> (#[trigger] ls@[k])@ == lv[k],
            prefix@ == mime@.push('='),
            replacement@ == mime@.push('=') + desktop@,
            out_lines@.len() == i,
            forall|k: int|
                0 <= k < i ==> (#[trigger] out_lines@[k])@ == mime_line(lv[k], mime@.push('='), mime@.push('=') + desktop@),
            replaced == exists|k: int| 0 <= k < i && starts_with(#[trigger] trim_start(lv[k]), mime@.push('=')),
        decreases ls.len() - i,
    {
        let t = trim_start_chars(&ls[i]);
        assert(ls@[i as int]@ == lv[i as int]);
        if starts_with_exec(&t, &prefix) {
            out_lines.push(replacement.clone());
            replaced = true;
        } else {
            out_lines.push(ls[i].clone());
        }
        i += 1;
    }
    let mut r = String::new();
    if replaced {
        proof {
            assert(out_lines@.map_values(|l: Vec<char>| l@) =~= lv.map_values(
                |l: Seq<char>| mime_line(l, mime@.push('='), mime@.push('=') + desktop@),
            ));
        }
        render_into(&mut r, &out_lines);
        return r;
    }
    let mut has_section = false;
    let header = chars_of("[Default Applications]");
    let mut j: usize = 0;
    while j < ls.len()
        invariant
            j <= ls.len(),
            ls@.len() == lv.len(),
            forall|k: int| 0 <= k < ls@.len() ==> (#[trigger] ls@[k])@ == lv[k],
            header@ == "[Default Applications]"@,
            has_section == exists|k: int| 0 <= k < j && #[trigger] trim(lv[k]) == "[Default Applications]"@,
        decreases ls.len() - j,
    {
        assert(ls@[j as int]@ == lv[j as int]);
        if chars_eq(&trim_chars(&ls[j]), &header) {
            has_section = true;
        }
        j += 1;
    }
    let mut all: Vec<Vec<char>> = Vec::new();
    let mut k: usize = 0;
    while k < ls.len()
        invariant
            k <= ls.len(),
            forall|t: int| 0 <= t < ls@.len() ==> (#[trigger] ls@[t])@ == lv[t],
            ls@.len() == lv.len(),
            all@.map_values(|l: Vec<char>| l@) == lv.take(k as int),
        decreases ls.len() - k,
    {
        let ghost prev = all@;
        let line = ls[k].clone();
        assert(line@ == lv[k as int]);
        all.push(line);
        assert(all@.map_values(|l: Vec<char>| l@) =~= prev.map_values(|l: Vec<char>| l@).push(lv[k as int]));
        assert(lv.take(k as int + 1) =~= lv.take(k as int).push(lv[k as int]));
        k += 1;
    }
    assert(lv.take(k as int) =~= lv);
    if !has_section {
        if ls.len() > 0 && ls[ls.len() - 1].len() > 0 {
            all.push(Vec::new());
        }
        all.push(header);
    }
    all.push(replacement);
    proof {
        assert(all@.map_values(|l: Vec<char>| l@) =~= mime_default_lines(existing@, mime@, desktop@));
    }
    render_into(&mut r, &all);
    r
}

/// A queue file that is empty or ends with a line break, with a link
/// appended by [`queue_line`], yields the links it yielded before and then
/// the link, trimmed, when the link is one line and not blank.
pub proof fn lemma_queue_then_take(existing: Seq<char>, url: Seq<char>)
    requires
        existing.len() > 0 ==> existing.last() == '\n',
        !has_char(url, '\n'),
        trim(url).len() > 0,
    ensures
        pending_lines(lines(existing + url.push('\n'))) == pending_lines(lines(existing)).push(trim(url)),
{
    crate::text::lemma_lines_concat(existing, url.push('\n'), 0);
    crate::text::lemma_lines_one(url);
    crate::text::lemma_trim_strip_cr(url);
    let ls = lines(existing);
    let all = ls + seq![crate::text::strip_cr(url)];
    assert(lines(existing + url.push('\n')) == all);
    assert(all.drop_last() =~= ls);
    assert(all.last() == crate::text::strip_cr(url));
}
} // verus!
