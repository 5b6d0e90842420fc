//! The Nexus Mods API client's results and errors, and the paging of the
//! mod list.
use vstd::prelude::*;

use super::package::ApiMod;
use crate::text::{
    decimal, decimal_string, append_str, chars_of, concat_str, eq_ignore_case, eq_ignore_case_exec, parse_u64, parse_u64_spec, slice_chars, string_of, string_of_range, trail_index,
    trim, trim_chars, trim_end,
};

verus! {

/// The account an API key belongs to.
#[derive(Debug, Clone)]
pub struct ValidateResult {
    pub username: String,
    pub is_premium: bool,
    pub is_supporter: bool,
}

/// Why a request failed.
#[derive(Debug, Clone, PartialEq, Eq)]
pub enum ClientError {
    Network(String),
    Unauthorized,
    RateLimited,
    Forbidden(String),
    Decode(String),
    Http { status: u32, detail: String },
}

/// Paging stops once this many mods were skipped past.
pub const MAX_OFFSET: u32 = 50000;

/// The ids known after taking in `nodes` in order: each id not yet known is
/// added at the end.
pub open spec fn absorb_ids(seen: Seq<u64>, nodes: Seq<ApiMod>) -> Seq<u64>
    decreases nodes.len(),
{
    if nodes.len() == 0 {
        seen
    } else {
        let prev = absorb_ids(seen, nodes.drop_last());
        if prev.contains(nodes.last().mod_id) {
            prev
        } else {
            prev.push(nodes.last().mod_id)
        }
    }
}

/// The mods collected after taking in `nodes`: each whose id was not yet
/// known is added at the end.
pub open spec fn absorb_mods(seen: Seq<u64>, combined: Seq<ApiMod>, nodes: Seq<ApiMod>) -> Seq<ApiMod>
    decreases nodes.len(),
{
    if nodes.len() == 0 {
        combined
    } else {
        let prev = absorb_mods(seen, combined, nodes.drop_last());
        if absorb_ids(seen, nodes.drop_last()).contains(nodes.last().mod_id) {
            prev
        } else {
            prev.push(nodes.last())
        }
    }
}

/// The state of fetching the mod list page by page.
pub struct ModListPaging {
    pub combined: Vec<ApiMod>,
    pub seen: Vec<u64>,
    pub offset: u32,
    pub expected_total: Option<u64>,
}

impl ModListPaging {
    /// Nothing fetched yet.
    pub fn new() -> (r: Self)
        ensures
            r.combined@.len() == 0,
            r.seen@.len() == 0,
            r.offset == 0,
            r.expected_total is None,
    {
        ModListPaging { combined: Vec::new(), seen: Vec::new(), offset: 0, expected_total: None }
    }

    /// Takes in one page and says whether to fetch the next. The first page
    /// fixes the expected total. An empty page ends the list; otherwise mods
    /// not seen before are kept, the offset moves past the page, and paging
    /// stops once the offset reaches the total or passes the safety limit.
    pub fn absorb_page(&mut self, total_count: u64, nodes: Vec<ApiMod>) -> (more: bool)
        requires
            nodes.len() <= u32::MAX,
        ensures
            final(self).expected_total == (match old(self).expected_total {
                Some(t) => Some(t),
                None => Some(total_count),
            }),
            nodes.len() == 0 ==> {
                &&& !more
                &&& final(self).combined@ == old(self).combined@
                &&& final(self).seen@ == old(self).seen@
                &&& final(self).offset == old(self).offset
            },
            nodes.len() > 0 ==> {
                let offset = if old(self).offset + nodes.len() > u32::MAX {
                    u32::MAX as int
                } else {
                    old(self).offset + nodes.len()
                };
                let total = match final(self).expected_total {
                    Some(t) => t as int,
                    None => 0,
                };
                &&& final(self).seen@ == absorb_ids(old(self).seen@, nodes@)
                &&& final(self).combined@ == absorb_mods(old(self).seen@, old(self).combined@, nodes@)
                &&& final(self).offset == offset
                &&& more == !(offset >= total || offset > 50000)
            },
    {
        if self.expected_total.is_none() {
            self.expected_total = Some(total_count);
        }
        if nodes.len() == 0 {
            return false;
        }
        let page_len = nodes.len() as u32;
        let ghost seen0 = self.seen@;
        let ghost combined0 = self.combined@;
        let ghost all = nodes@;
        let n = nodes.len();
        let mut rest = nodes;
        let mut i: usize = 0;
        while rest.len() > 0
            invariant
                i + rest.len() == all.len(),
                all.len() == n,
                rest@ == all.skip(i as int),
                self.seen@ == absorb_ids(seen0, all.take(i as int)),
                self.combined@ == absorb_mods(seen0, combined0, all.take(i as int)),
                self.expected_total == (match old(self).expected_total {
                    Some(t) => Some(t),
                    None => Some(total_count),
                }),
                self.offset == old(self).offset,
            decreases rest.len(),
        {
            let node = rest.remove(0);
            proof {
                assert(all.take(i as int + 1).drop_last() =~= all.take(i as int));
                assert(all.take(i as int + 1).last() == all[i as int]);
                assert(all[i as int] == node);
            }
            let mut known = false;
            let mut j: usize = 0;
            while j < self.seen.len()
                invariant
                    j <= self.seen.len(),
                    known == exists|k: int| 0 <= k < j && self.seen@[k] == node.mod_id,
                decreases self.seen.len() - j,
            {
                if self.seen[j] == node.mod_id {
                    known = true;
                }
                j += 1;
            }
            assert(known == self.seen@.contains(node.mod_id));
            if !known {
                self.seen.push(node.mod_id);
                self.combined.push(node);
            }
            i += 1;
            proof {
                assert(rest@ =~= all.skip(i as int));
            }
        }
        proof {
            assert(all.take(i as int) =~= all);
        }
        self.offset = self.offset.saturating_add(page_len);
        let total: u64 = match self.expected_total {
            Some(t) => t,
            None => 0,
        };
        if (self.offset as u64) >= total || page_len == 0 {
            return false;
        }
        if self.offset > 50000 {
            return false;
        }
        true
    }
}

/// The Nexus Mods API address.
pub open spec fn api_base() -> Seq<char> {
    "https://api.nexusmods.com/v1"@
}

/// The address that lists a file's download links: the one for premium
/// accounts, with the key and expiry of an `nxm://` link added when the
/// link carries both.
pub open spec fn download_links_url_spec(
    game_domain: Seq<char>,
    mod_id: u64,
    file_id: u64,
    key: Option<String>,
    expires: Option<String>,
) -> Seq<char> {
    let base = api_base() + "/games/"@ + game_domain + "/mods/"@ + decimal(mod_id as nat) + "/files/"@
        + decimal(file_id as nat) + "/download_link.json"@;
    match (key, expires) {
        (Some(k), Some(e)) => base + "?key="@ + k@ + "&expires="@ + e@,
        _ => base,
    }
}

/// The address that lists a file's download links (see
/// [`download_links_url_spec`]).
pub fn download_links_url(
    game_domain: &str,
    mod_id: u64,
    file_id: u64,
    key: Option<String>,
    expires: Option<String>,
) -> (r: String)
    ensures
        r@ == download_links_url_spec(game_domain@, mod_id, file_id, key, expires),
{
    let mut r = concat_str("https://api.nexusmods.com/v1", "/games/");
    append_str(&mut r, game_domain);
    append_str(&mut r, "/mods/");
    append_str(&mut r, decimal_string(mod_id).as_str());
    append_str(&mut r, "/files/");
    append_str(&mut r, decimal_string(file_id).as_str());
    append_str(&mut r, "/download_link.json");
    proof {
        reveal_strlit("https://api.nexusmods.com/v1");
        reveal_strlit("/games/");
        reveal_strlit("/mods/");
        reveal_strlit("/files/");
        reveal_strlit("/download_link.json");
        reveal_strlit("?key=");
        reveal_strlit("&expires=");
    }
    match (key, expires) {
        (Some(k), Some(e)) => {
            append_str(&mut r, "?key=");
            append_str(&mut r, k.as_str());
            append_str(&mut r, "&expires=");
            append_str(&mut r, e.as_str());
            r
        },
        _ => r,
    }
}

/// The text shown for a failed Nexus request.
pub open spec fn client_error_text(e: ClientError) -> Seq<char> {
    match e {
        ClientError::Network(d) => "could not reach nexus mods (check your network): "@ + d@,
        ClientError::Unauthorized => "nexus api key is invalid or revoked"@,
        ClientError::RateLimited => "rate limited by nexus mods — try again later (daily/hourly quota)"@,
        ClientError::Forbidden(d) => "nexus request forbidden: "@ + d@,
        ClientError::Decode(d) => "could not parse nexus response: "@ + d@,
        ClientError::Http { status, detail } => "nexus http "@ + crate::text::decimal(status as nat) + ": "@ + detail@,
    }
}

impl ClientError {
    /// The error as shown to the user.
    pub fn message(&self) -> (r: String)
        ensures
            r@ == client_error_text(*self),
    {
        match self {
            ClientError::Network(d) => {
                let mut r = String::new();
                crate::text::append_str(&mut r, "could not reach nexus mods (check your network): ");
                crate::text::append_str(&mut r, d.as_str());
                r
            },
            ClientError::Unauthorized => {
                let mut r = String::new();
                crate::text::append_str(&mut r, "nexus api key is invalid or revoked");
                r
            },
            ClientError::RateLimited => {
                let mut r = String::new();
                crate::text::append_str(&mut r, "rate limited by nexus mods — try again later (daily/hourly quota)");
                r
            },
            ClientError::Forbidden(d) => {
                let mut r = String::new();
                crate::text::append_str(&mut r, "nexus request forbidden: ");
                crate::text::append_str(&mut r, d.as_str());
                r
            },
            ClientError::Decode(d) => {
                let mut r = String::new();
                crate::text::append_str(&mut r, "could not parse nexus response: ");
                crate::text::append_str(&mut r, d.as_str());
                r
            },
            ClientError::Http { status, detail } => {
                let mut r = String::new();
                crate::text::append_str(&mut r, "nexus http ");
                crate::text::append_str(&mut r, crate::text::decimal_string(*status as u64).as_str());
                crate::text::append_str(&mut r, ": ");
                crate::text::append_str(&mut r, detail.as_str());
                r
            },
        }
    }
}

/// Index of the last `c` in `s[..i]`.
pub open spec fn last_index_of(s: Seq<char>, c: char, i: int) -> Option<int>
    decreases i,
{
    if i <= 0 || i > s.len() {
        None
    } else if s[i - 1] == c {
        Some(i - 1)
    } else {
        last_index_of(s, c, i - 1)
    }
}

/// Splits curl's output into the response body and the HTTP status that
/// curl wrote on the last line: trailing whitespace is dropped, the body
/// is what precedes the last line break, and the status, trimmed, must be
/// a `u32`.
pub fn split_status(raw: &str) -> (r: Result<(String, u32), ClientError>)
    ensures
        match last_index_of(trim_end(raw@), '\n', trim_end(raw@).len() as int) {
            None => r matches Err(ClientError::Decode(d)) && d@ == "curl response missing http status trailer"@,
            Some(k) => {
                let t = trim_end(raw@);
                let st = t.skip(k + 1);
                match parse_u64_spec(trim(st)) {
                    Some(n) => if n <= u32::MAX {
                        r matches Ok((b, s)) && b@ == t.take(k) && s == n
                    } else {
                        r matches Err(ClientError::Decode(d)) && d@ == "could not parse http status '"@ + st + "'"@
                    },
                    None => r matches Err(ClientError::Decode(d)) && d@ == "could not parse http status '"@ + st
                        + "'"@,
                }
            },
        },
{
    let v = chars_of(raw);
    let j = trail_index(&v, 0);
    let ghost t = trim_end(raw@);
    assert(t =~= v@.subrange(0, j as int));
    let mut k: usize = j;
    while k > 0 && v[k - 1] != '\n'
        invariant
            k <= j <= v.len(),
            t == v@.subrange(0, j as int),
            last_index_of(t, '\n', j as int) == last_index_of(t, '\n', k as int),
        decreases k,
    {
        assert(t[k - 1] == v@[k - 1]);
        k -= 1;
    }
    if k == 0 {
        return Err(ClientError::Decode("curl response missing http status trailer".to_owned()));
    }
    assert(t[k - 1] == v@[k - 1]);
    let body = string_of_range(&v, 0, k - 1);
    let status_text = slice_chars(&v, k, j);
    assert(body@ =~= t.take(k - 1));
    assert(status_text@ =~= t.skip(k as int));
    let trimmed = trim_chars(&status_text);
    match parse_u64(&trimmed) {
        Some(n) => {
            if n <= 0xffff_ffff {
                Ok((body, n as u32))
            } else {
                let mut d = concat_str("could not parse http status '", string_of(&status_text).as_str());
                append_str(&mut d, "'");
                Err(ClientError::Decode(d))
            }
        },
        None => {
            let mut d = concat_str("could not parse http status '", string_of(&status_text).as_str());
            append_str(&mut d, "'");
            Err(ClientError::Decode(d))
        },
    }
}

/// What a request gives for a response with this status: the body for 200
/// or 201, else the error the status means.
pub fn classify_response(response_body: String, status: u32) -> (r: Result<String, ClientError>)
    ensures
        (status == 200 || status == 201) ==> (r matches Ok(b) && b@ == response_body@),
        status == 401 ==> r == Err::<String, ClientError>(ClientError::Unauthorized),
        status == 403 ==> (r matches Err(ClientError::Forbidden(d)) && d@ == response_body@),
        status == 429 ==> r == Err::<String, ClientError>(ClientError::RateLimited),
        !(status == 200 || status == 201 || status == 401 || status == 403 || status == 429) ==> (r matches Err(
            ClientError::Http { status: s, detail },
        ) && s == status && detail@ == response_body@),
{
    if status == 200 || status == 201 {
        Ok(response_body)
    } else if status == 401 {
        Err(ClientError::Unauthorized)
    } else if status == 403 {
        Err(ClientError::Forbidden(response_body))
    } else if status == 429 {
        Err(ClientError::RateLimited)
    } else {
        Err(ClientError::Http { status, detail: response_body })
    }
}

/// A mod as the GraphQL listing returns it.
#[derive(Debug, Clone)]
pub struct GraphqlModNode {
    pub mod_id: u64,
    pub name: String,
    pub version: String,
    pub summary: String,
    pub author: String,
    pub picture_url: String,
    pub endorsements: u64,
    pub status: String,
    /// The game's domain name, when the listing gives the game.
    pub game_domain: Option<String>,
    /// The uploader's name, when the listing gives the uploader.
    pub uploader_name: Option<String>,
}

/// A listed mod is available when its status is empty, `published` or
/// `under_moderation`, ignoring ASCII case.
pub open spec fn listed_available(status: Seq<char>) -> bool {
    status.len() == 0 || eq_ignore_case(status, "published"@) || eq_ignore_case(status, "under_moderation"@)
}

impl GraphqlModNode {
    /// The mod as the REST API would give it: the game's domain unless it is
    /// missing or empty, then `fallback_domain`; the uploader's name or
    /// nothing; no description; available by its status.
    pub fn into_api_mod(self, fallback_domain: &str) -> (r: ApiMod)
        ensures
            r.mod_id == self.mod_id,
            r.name@ == self.name@,
            r.summary@ == self.summary@,
            r.description@.len() == 0,
            r.picture_url@ == self.picture_url@,
            r.version@ == self.version@,
            r.author@ == self.author@,
            r.uploaded_by@ == match self.uploader_name {
                Some(n) => n@,
                None => Seq::empty(),
            },
            r.endorsement_count == self.endorsements,
            r.domain_name@ == match self.game_domain {
                Some(d) => if d@.len() > 0 {
                    d@
                } else {
                    fallback_domain@
                },
                None => fallback_domain@,
            },
            r.available == listed_available(self.status@),
            r.status@ == self.status@,
    {
        let domain_name = match self.game_domain {
            Some(d) => if chars_of(d.as_str()).len() > 0 {
                d
            } else {
                fallback_domain.to_owned()
            },
            None => fallback_domain.to_owned(),
        };
        let uploaded_by = match self.uploader_name {
            Some(n) => n,
            None => String::new(),
        };
        let st = chars_of(self.status.as_str());
        let available = st.len() == 0 || eq_ignore_case_exec(&st, &chars_of("published")) || eq_ignore_case_exec(
            &st,
            &chars_of("under_moderation"),
        );
        ApiMod {
            mod_id: self.mod_id,
            name: self.name,
            summary: self.summary,
            description: String::new(),
            picture_url: self.picture_url,
            version: self.version,
            author: self.author,
            uploaded_by,
            endorsement_count: self.endorsements,
            domain_name,
            available,
            status: self.status,
        }
    }
}

/// The ids of mods, in order.
pub open spec fn mod_ids(ms: Seq<ApiMod>) -> Seq<u64> {
    ms.map_values(|m: ApiMod| m.mod_id)
}

/// No id occurs twice.
pub open spec fn ids_unique(s: Seq<u64>) -> bool {
    forall|i: int, j: int| 0 <= i < j < s.len() ==> s[i] != s[j]
}

/// Paging keeps each mod once: when the known ids are those of the
/// collected mods and none repeats, the same holds after taking in more
/// mods.
pub proof fn lemma_paging_keeps_mods_unique(seen: Seq<u64>, combined: Seq<ApiMod>, nodes: Seq<ApiMod>)
    requires
        mod_ids(combined) == seen,
        ids_unique(seen),
    ensures
        mod_ids(absorb_mods(seen, combined, nodes)) == absorb_ids(seen, nodes),
        ids_unique(absorb_ids(seen, nodes)),
    decreases nodes.len(),
{
    if nodes.len() > 0 {
        let init = nodes.drop_last();
        lemma_paging_keeps_mods_unique(seen, combined, init);
        let ids = absorb_ids(seen, init);
        let ms = absorb_mods(seen, combined, init);
        let x = nodes.last();
        if !ids.contains(x.mod_id) {
            assert(mod_ids(ms.push(x)) =~= ids.push(x.mod_id));
            let ids2 = ids.push(x.mod_id);
            assert forall|i: int, j: int| 0 <= i < j < ids2.len() implies ids2[i] != ids2[j] by {
                if j == ids.len() {
                    assert(ids2[i] == ids[i]);
                    if ids[i] == x.mod_id {
                        assert(ids.contains(x.mod_id));
                    }
                } else {
                    assert(ids2[i] == ids[i] && ids2[j] == ids[j]);
                }
            }
        }
    }
}
} // verus!
