//! Nexus Mods records: what the API returns, and the mods the manager shows.
use vstd::prelude::*;

use crate::text::{any_contains, any_field_contains, append_str, chars_of, concat_str, decimal, decimal_string, find_char_from, find_from, is_white, is_white_char, join_strings, join_with, lead_ws, lowercase, slice_chars, string_of, to_lower, trim, trim_str};

verus! {

/// A mod as the API returns it.
#[derive(Debug, Clone)]
pub struct ApiMod {
    pub mod_id: u64,
    pub name: String,
    pub summary: String,
    pub description: String,
    pub picture_url: String,
    pub version: String,
    pub author: String,
    pub uploaded_by: String,
    pub endorsement_count: u64,
    pub domain_name: String,
    pub available: bool,
    pub status: String,
}

/// The account an API key belongs to, as the API returns it.
#[derive(Debug, Clone)]
pub struct ApiValidate {
    pub user_id: u64,
    pub name: String,
    pub is_premium: bool,
    pub is_supporter: bool,
}

/// The files of a mod, as the API returns them.
#[derive(Debug, Clone)]
pub struct ApiFileList {
    pub files: Vec<ApiFile>,
}

/// One file of a mod.
#[derive(Debug, Clone)]
pub struct ApiFile {
    pub file_id: u64,
    pub name: String,
    pub version: String,
    pub category_name: String,
    pub is_primary: bool,
    pub file_name: String,
}

/// A download address for a file.
#[derive(Debug, Clone)]
pub struct ApiDownloadLink {
    pub name: String,
    pub short_name: String,
    pub uri: String,
}

/// A mod as the manager shows it.
#[derive(Debug, Clone, PartialEq, Eq)]
pub struct RemoteMod {
    pub mod_id: u64,
    pub name: String,
    pub author: String,
    pub version: String,
    pub endorsement_count: u64,
    pub description: String,
    pub summary: String,
    pub picture_url: String,
    pub domain_name: String,
}

/// The text with each `[...]` tag removed; an unclosed tag runs to the end.
pub open spec fn drop_tags(s: Seq<char>, i: int) -> Seq<char>
    decreases s.len() - i,
{
    if i < 0 || i >= s.len() {
        Seq::empty()
    } else if s[i] == '[' {
        let k = find_from(s, ']', i + 1);
        if k >= s.len() || k <= i {
            Seq::empty()
        } else {
            drop_tags(s, k + 1)
        }
    } else {
        seq![s[i]] + drop_tags(s, i + 1)
    }
}

/// Index of the first whitespace character at or after `i`.
pub open spec fn white_from(s: Seq<char>, i: int) -> int
    decreases s.len() - i,
{
    if 0 <= i < s.len() && !is_white(s[i]) {
        white_from(s, i + 1)
    } else {
        i
    }
}

/// The words of `s[i..]`: maximal runs without whitespace
/// (`str::split_whitespace`).
pub open spec fn words_from(s: Seq<char>, i: int) -> Seq<Seq<char>>
    decreases s.len() - i,
{
    let a = lead_ws(s, i);
    if i < 0 || a >= s.len() || a < i {
        Seq::empty()
    } else {
        let b = white_from(s, a);
        if b <= a || b > s.len() {
            Seq::empty()
        } else {
            seq![s.subrange(a, b)] + words_from(s, b)
        }
    }
}

/// Forum markup reduced to plain text: tags dropped, whitespace collapsed
/// to single spaces.
pub open spec fn strip_bbcode_spec(s: Seq<char>) -> Seq<char> {
    join_with(words_from(drop_tags(s, 0), 0), seq![' '])
}

/// [`drop_tags`].
fn drop_tags_exec(s: &Vec<char>) -> (r: Vec<char>)
    ensures
        r@ == drop_tags(s@, 0),
{
    let mut out: Vec<char> = Vec::new();
    let mut i: usize = 0;
    while i < s.len()
        invariant
            i <= s.len(),
            out@ + drop_tags(s@, i as int) == drop_tags(s@, 0),
        decreases s.len() - i,
    {
        if s[i] == '[' {
            let k = find_char_from(s, ']', i + 1);
            if k >= s.len() {
                assert(out@ + Seq::<char>::empty() =~= out@);
                assert(drop_tags(s@, i as int) =~= Seq::<char>::empty());
                return out;
            }
            i = k + 1;
        } else {
            let ghost before = out@;
            out.push(s[i]);
            assert(before + drop_tags(s@, i as int) =~= out@ + drop_tags(s@, i + 1));
            i += 1;
        }
    }
    assert(out@ + Seq::<char>::empty() =~= out@);
    out
}

/// [`words_from`] joined with single spaces.
fn collapse_whitespace(s: &Vec<char>) -> (r: String)
    ensures
        r@ == join_with(words_from(s@, 0), seq![' ']),
{
    let mut words: Vec<String> = Vec::new();
    let mut i: usize = 0;
    let ghost all = words_from(s@, 0);
    while i < s.len()
        invariant
            i <= s.len(),
            all == words_from(s@, 0),
            words.deep_view() + words_from(s@, i as int) == all,
        decreases s.len() - i,
    {
        let mut a = i;
        while a < s.len() && is_white_char(s[a])
            invariant
                i <= a <= s.len(),
                lead_ws(s@, i as int) == lead_ws(s@, a as int),
            decreases s.len() - a,
        {
            a += 1;
        }
        if a >= s.len() {
            assert(words_from(s@, i as int) =~= Seq::<Seq<char>>::empty());
            assert(words.deep_view() + Seq::<Seq<char>>::empty() =~= words.deep_view());
            i = s.len();
            assert(words_from(s@, i as int) =~= Seq::<Seq<char>>::empty());
        } else {
            let mut b = a;
            while b < s.len() && !is_white_char(s[b])
                invariant
                    a <= b <= s.len(),
                    white_from(s@, a as int) == white_from(s@, b as int),
                decreases s.len() - b,
            {
                b += 1;
            }
            let ghost prev = words.deep_view();
            let w = slice_chars(s, a, b);
            words.push(string_of(&w));
            assert(words.deep_view() =~= prev.push(s@.subrange(a as int, b as int)));
            assert(words_from(s@, i as int) =~= seq![s@.subrange(a as int, b as int)] + words_from(s@, b as int));
            assert(words.deep_view() + words_from(s@, b as int) =~= prev + words_from(s@, i as int));
            i = b;
        }
    }
    assert(words_from(s@, i as int) =~= Seq::<Seq<char>>::empty());
    assert(words.deep_view() + Seq::<Seq<char>>::empty() =~= words.deep_view());
    let r = join_strings(&words, " ");
    proof {
        reveal_strlit(" ");
        assert(" "@ =~= seq![' ']);
        assert(words@.map_values(|l: String| l@) =~= words.deep_view());
    }
    r
}

/// Reduces forum markup to plain text: drops `[...]` tags and collapses
/// whitespace to single spaces.
pub fn strip_bbcode(input: &str) -> (r: String)
    ensures
        r@ == strip_bbcode_spec(input@),
{
    let v = chars_of(input);
    let d = drop_tags_exec(&v);
    collapse_whitespace(&d)
}

/// Is the text blank once trimmed?
fn blank(s: &str) -> (r: bool)
    ensures
        r == (trim(s@).len() == 0),
{
    chars_of(trim_str(s).as_str()).len() == 0
}

/// `m` is the mod as shown from the API's record: a missing name becomes
/// `mod {id}`, a blank author falls back to the uploader then `unknown`, a
/// blank summary to the description without markup, and a missing domain
/// to the game's.
pub open spec fn shown_mod(mod_info: ApiMod, m: RemoteMod) -> bool {
    &&& m.mod_id == mod_info.mod_id
    &&& m.name@ == (if mod_info.name@.len() == 0 {
        "mod "@ + decimal(mod_info.mod_id as nat)
    } else {
        mod_info.name@
    })
    &&& m.author@ == (if trim(mod_info.author@).len() > 0 {
        mod_info.author@
    } else if trim(mod_info.uploaded_by@).len() > 0 {
        mod_info.uploaded_by@
    } else {
        "unknown"@
    })
    &&& m.version@ == mod_info.version@
    &&& m.endorsement_count == mod_info.endorsement_count
    &&& m.description@ == (if trim(mod_info.summary@).len() > 0 {
        mod_info.summary@
    } else {
        strip_bbcode_spec(mod_info.description@)
    })
    &&& m.summary@ == mod_info.summary@
    &&& m.picture_url@ == mod_info.picture_url@
    &&& m.domain_name@ == (if mod_info.domain_name@.len() == 0 {
        crate::nexus::domain::game_domain()
    } else {
        mod_info.domain_name@
    })
}

/// The mod matches a search: the trimmed query, lower-cased, occurs in the
/// lower-cased name, author, description or summary, or in the mod id.
pub open spec fn mod_matches(m: RemoteMod, query: Seq<char>) -> bool {
    any_contains(
        seq![
            lowercase(m.name@),
            lowercase(m.author@),
            lowercase(m.description@),
            lowercase(m.summary@),
            decimal(m.mod_id as nat),
        ],
        lowercase(trim(query)),
    )
}

impl RemoteMod {
    /// The mod as shown from the API's record; `None` for a record that is
    /// unavailable and has no name. A missing name becomes `mod {id}`, a
    /// blank author falls back to the uploader then `unknown`, a blank
    /// summary to the description without markup, and a missing domain to
    /// the game's.
    pub fn from_api(mod_info: ApiMod) -> (r: Option<Self>)
        ensures
            !mod_info.available && mod_info.name@.len() == 0 ==> r is None,
            mod_info.available || mod_info.name@.len() > 0 ==> (r matches Some(m) && shown_mod(mod_info, m)),
    {
        let name_empty = chars_of(mod_info.name.as_str()).len() == 0;
        if !mod_info.available && name_empty {
            return None;
        }
        let name = if name_empty {
            concat_str("mod ", decimal_string(mod_info.mod_id).as_str())
        } else {
            mod_info.name
        };
        let author = if !blank(mod_info.author.as_str()) {
            mod_info.author
        } else if !blank(mod_info.uploaded_by.as_str()) {
            mod_info.uploaded_by
        } else {
            "unknown".to_owned()
        };
        let description = if !blank(mod_info.summary.as_str()) {
            mod_info.summary.clone()
        } else {
            strip_bbcode(mod_info.description.as_str())
        };
        let domain_name = if chars_of(mod_info.domain_name.as_str()).len() == 0 {
            "hollowknightsilksong".to_owned()
        } else {
            mod_info.domain_name
        };
        Some(RemoteMod {
            mod_id: mod_info.mod_id,
            name,
            author,
            version: mod_info.version,
            endorsement_count: mod_info.endorsement_count,
            description,
            summary: mod_info.summary,
            picture_url: mod_info.picture_url,
            domain_name,
        })
    }

    /// Does the mod match a search? The trimmed query, lower-cased, must
    /// occur in the lower-cased name, author, description or summary, or in
    /// the mod id; an empty query matches everything.
    pub fn matches_search(&self, query: &str) -> (r: bool)
        ensures
            r == mod_matches(*self, query@),
    {
        let needle = to_lower(trim_str(query).as_str());
        let mut fields: Vec<String> = Vec::new();
        fields.push(to_lower(self.name.as_str()));
        fields.push(to_lower(self.author.as_str()));
        fields.push(to_lower(self.description.as_str()));
        fields.push(to_lower(self.summary.as_str()));
        fields.push(decimal_string(self.mod_id));
        let r = any_field_contains(&fields, needle.as_str());
        assert(fields.deep_view() =~= seq![
            lowercase(self.name@),
            lowercase(self.author@),
            lowercase(self.description@),
            lowercase(self.summary@),
            decimal(self.mod_id as nat),
        ]);
        r
    }

    /// The mod's page on Nexus Mods.
    pub fn page_url(&self) -> (r: String)
        ensures
            r@ == "https://www.nexusmods.com/"@ + self.domain_name@ + "/mods/"@ + decimal(
                self.mod_id as nat,
            ),
    {
        let mut r = concat_str("https://www.nexusmods.com/", self.domain_name.as_str());
        append_str(&mut r, "/mods/");
        append_str(&mut r, decimal_string(self.mod_id).as_str());
        r
    }
}

} // verus!
