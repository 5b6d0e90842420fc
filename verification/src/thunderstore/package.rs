//! Thunderstore packages: what the package list holds, dependency strings,
//! and dotted version numbers.
use vstd::prelude::*;

use core::cmp::Ordering;

use crate::text::{all_digits, any_contains, any_field_contains, chars_of, contains, contains_exec, is_digit, join_strings, join_with, lowercase, parse_u64, parse_u64_spec, slice_chars, split_char, split_chars, string_of, to_lower, trim, trim_str, concat_str, append_str};

verus! {

/// One version of a package, as the package list gives it.
#[derive(Debug, Clone)]
pub struct ApiVersion {
    pub name: String,
    pub full_name: String,
    pub description: String,
    pub version_number: String,
    pub downloads: u64,
    pub download_url: String,
    pub icon: String,
    pub dependencies: Vec<String>,
}

/// A package as the package list gives it, newest version first.
#[derive(Debug, Clone)]
pub struct ApiPackage {
    pub name: String,
    pub full_name: String,
    pub owner: String,
    pub date_updated: String,
    pub is_deprecated: bool,
    pub versions: Vec<ApiVersion>,
}

/// A package as the manager shows it: its newest version.
#[derive(Debug, Clone, PartialEq, Eq)]
pub struct RemotePackage {
    pub name: String,
    pub full_name: String,
    pub owner: String,
    pub description: String,
    pub version: String,
    pub version_full_name: String,
    pub downloads: u64,
    pub download_url: String,
    pub icon_url: String,
    pub dependencies: Vec<String>,
    pub date_updated: String,
    pub is_deprecated: bool,
}

/// The icon address used when the package list gives none.
pub open spec fn default_icon_url(version_full_name: Seq<char>) -> Seq<char> {
    "https://gcdn.thunderstore.io/live/repository/icons/"@ + version_full_name + ".png"@
}

/// `p` is the package as shown from its newest version: its name, owner
/// and deprecation, and the newest version's details, with a blank icon
/// replaced by the repository's icon address.
pub open spec fn shown_as(package: ApiPackage, p: RemotePackage) -> bool {
    let latest = package.versions@[0];
    &&& p.name@ == package.name@
    &&& p.full_name@ == package.full_name@
    &&& p.owner@ == package.owner@
    &&& p.description@ == latest.description@
    &&& p.version@ == latest.version_number@
    &&& p.version_full_name@ == latest.full_name@
    &&& p.downloads == latest.downloads
    &&& p.download_url@ == latest.download_url@
    &&& p.icon_url@ == (if trim(latest.icon@).len() == 0 {
        default_icon_url(latest.full_name@)
    } else {
        latest.icon@
    })
    &&& p.dependencies.deep_view() == latest.dependencies.deep_view()
    &&& p.date_updated@ == package.date_updated@
    &&& p.is_deprecated == package.is_deprecated
}

/// The package matches a search: the trimmed query, lower-cased, occurs in
/// the lower-cased name, full name, owner or description.
pub open spec fn package_matches(p: RemotePackage, query: Seq<char>) -> bool {
    any_contains(
        seq![lowercase(p.name@), lowercase(p.full_name@), lowercase(p.owner@), lowercase(p.description@)],
        lowercase(trim(query)),
    )
}

impl RemotePackage {
    /// The package as shown from its newest version; `None` when it has no
    /// version. A blank icon is replaced by the repository's icon address.
    pub fn from_api(package: ApiPackage) -> (r: Option<Self>)
        ensures
            package.versions.len() == 0 ==> r is None,
            package.versions.len() > 0 ==> (r matches Some(p) && shown_as(package, p)),
    {
        let mut versions = package.versions;
        if versions.len() == 0 {
            return None;
        }
        let latest = versions.remove(0);
        let icon_url = if chars_of(trim_str(latest.icon.as_str()).as_str()).len() == 0 {
            let mut u = concat_str(
                "https://gcdn.thunderstore.io/live/repository/icons/",
                latest.full_name.as_str(),
            );
            append_str(&mut u, ".png");
            u
        } else {
            latest.icon
        };
        Some(RemotePackage {
            name: package.name,
            full_name: package.full_name,
            owner: package.owner,
            description: latest.description,
            version: latest.version_number,
            version_full_name: latest.full_name,
            downloads: latest.downloads,
            download_url: latest.download_url,
            icon_url,
            dependencies: latest.dependencies,
            date_updated: package.date_updated,
            is_deprecated: package.is_deprecated,
        })
    }

    /// Does the package match a search? The trimmed query, lower-cased,
    /// must occur in the lower-cased name, full name, owner or description;
    /// an empty query matches everything.
    pub fn matches_search(&self, query: &str) -> (r: bool)
        ensures
            r == package_matches(*self, query@),
    {
        let needle = to_lower(trim_str(query).as_str());
        let mut fields: Vec<String> = Vec::new();
        fields.push(to_lower(self.name.as_str()));
        fields.push(to_lower(self.full_name.as_str()));
        fields.push(to_lower(self.owner.as_str()));
        fields.push(to_lower(self.description.as_str()));
        let r = any_field_contains(&fields, needle.as_str());
        assert(fields.deep_view() =~= seq![
            lowercase(self.name@),
            lowercase(self.full_name@),
            lowercase(self.owner@),
            lowercase(self.description@),
        ]);
        r
    }
}

// ---------------------------------------------------------------------------
// Dependency strings
// ---------------------------------------------------------------------------

/// A version number of three dot-separated runs of digits.
pub open spec fn looks_like_version_spec(v: Seq<char>) -> bool {
    let segs = split_char(v, '.');
    &&& segs.len() == 3
    &&& forall|i: int| 0 <= i < 3 ==> (#[trigger] segs[i]).len() > 0 && all_digits(segs[i])
}

/// A dependency string `owner-name-1.2.3` split into the package's full
/// name and the version, when it has that shape.
pub open spec fn parse_dependency_spec(d: Seq<char>) -> Option<(Seq<char>, Seq<char>)> {
    let segs = split_char(d, '-');
    if segs.len() < 3 || !looks_like_version_spec(segs.last()) {
        None
    } else {
        let full = join_with(segs.drop_last(), seq!['-']);
        if full.len() == 0 {
            None
        } else {
            Some((full, segs.last()))
        }
    }
}

/// Are all characters of `v` digits?
fn all_digits_exec(v: &Vec<char>) -> (r: bool)
    ensures
        r == all_digits(v@),
{
    let mut i: usize = 0;
    while i < v.len()
        invariant
            i <= v.len(),
            forall|j: int| 0 <= j < i ==> is_digit(v@[j]),
        decreases v.len() - i,
    {
        if !('0' <= v[i] && v[i] <= '9') {
            return false;
        }
        i += 1;
    }
    true
}

/// Decides [`looks_like_version_spec`].
fn looks_like_version(v: &Vec<char>) -> (r: bool)
    ensures
        r == looks_like_version_spec(v@),
{
    let segs = split_chars(v, '.');
    if segs.len() != 3 {
        return false;
    }
    let mut i: usize = 0;
    while i < 3
        invariant
            i <= 3,
            segs@.len() == 3 == split_char(v@, '.').len(),
            forall|k: int| 0 <= k < segs@.len() ==> (#[trigger] segs@[k])@ == split_char(v@, '.')[k],
            forall|j: int| 0 <= j < i ==> (#[trigger] split_char(v@, '.')[j]).len() > 0 && all_digits(split_char(v@, '.')[j]),
        decreases 3 - i,
    {
        assert(segs@[i as int]@ == split_char(v@, '.')[i as int]);
        if segs[i].len() == 0 || !all_digits_exec(&segs[i]) {
            return false;
        }
        i += 1;
    }
    true
}

/// Splits a dependency string `owner-name-1.2.3` into the package's full
/// name and its version; `None` unless it has at least three `-`
/// separated parts, the last a three-part version number.
pub fn parse_dependency(dependency: &str) -> (r: Option<(String, String)>)
    ensures
        match parse_dependency_spec(dependency@) {
            Some((full, version)) => r matches Some((f, v)) && f@ == full && v@ == version,
            None => r is None,
        },
{
    let d = chars_of(dependency);
    let segs = split_chars(&d, '-');
    let ghost sv = split_char(d@, '-');
    if segs.len() < 3 {
        return None;
    }
    let last = segs.len() - 1;
    assert(segs@[last as int]@ == sv.last());
    if !looks_like_version(&segs[last]) {
        return None;
    }
    let mut head: Vec<String> = Vec::new();
    let mut i: usize = 0;
    while i < last
        invariant
            i <= last,
            last == segs.len() - 1,
            segs@.len() == sv.len(),
            forall|k: int| 0 <= k < segs@.len() ==> (#[trigger] segs@[k])@ == sv[k],
            head.deep_view() =~= sv.drop_last().take(i as int),
        decreases last - i,
    {
        let ghost prev = head.deep_view();
        let piece = string_of(&segs[i]);
        head.push(piece);
        assert(head.deep_view() =~= prev.push(sv[i as int]));
        i += 1;
        assert(head.deep_view() =~= sv.drop_last().take(i as int));
    }
    assert(sv.drop_last().take(last as int) =~= sv.drop_last());
    let full = join_strings(&head, "-");
    proof {
        reveal_strlit("-");
        assert("-"@ =~= seq!['-']);
        assert(head@.map_values(|l: String| l@) =~= head.deep_view());
    }
    if chars_of(full.as_str()).len() == 0 {
        return None;
    }
    Some((full, string_of(&segs[last])))
}

/// Is this the full name of a mod loader pack?
pub fn is_modloader_pack(full_name: &str) -> (r: bool)
    ensures
        r == contains(full_name@, "BepInExPack"@),
{
    contains_exec(&chars_of(full_name), &chars_of("BepInExPack"))
}

// ---------------------------------------------------------------------------
// Version numbers
// ---------------------------------------------------------------------------

/// Index of the first non-digit of `s` at or after `i`.
pub open spec fn digits_end(s: Seq<char>, i: int) -> int
    decreases s.len() - i,
{
    if 0 <= i < s.len() && is_digit(s[i]) {
        digits_end(s, i + 1)
    } else {
        i
    }
}

/// The number a version segment stands for: its leading digits, when there
/// are some and they fit in a `u64`.
pub open spec fn segment_value(seg: Seq<char>) -> Option<nat> {
    parse_u64_spec(seg.take(digits_end(seg, 0)))
}

/// The numbers of the segments that have one, in order.
pub open spec fn parts_of(segs: Seq<Seq<char>>) -> Seq<nat>
    decreases segs.len(),
{
    if segs.len() == 0 {
        Seq::empty()
    } else {
        match segment_value(segs.last()) {
            Some(n) => parts_of(segs.drop_last()).push(n),
            None => parts_of(segs.drop_last()),
        }
    }
}

/// The numbers of a dotted version, as compared.
pub open spec fn version_parts_spec(v: Seq<char>) -> Seq<nat> {
    parts_of(split_char(v, '.'))
}

/// Part `i` of a version, zero past its end.
pub open spec fn part_at(a: Seq<nat>, i: int) -> nat {
    if 0 <= i < a.len() {
        a[i]
    } else {
        0
    }
}

/// Compares two versions' parts from index `i` on: -1, 0 or 1.
pub open spec fn order_from(a: Seq<nat>, b: Seq<nat>, i: int) -> int
    decreases a.len() + b.len() - i,
{
    if i < 0 || (i >= a.len() && i >= b.len()) {
        0
    } else if part_at(a, i) < part_at(b, i) {
        -1
    } else if part_at(a, i) > part_at(b, i) {
        1
    } else {
        order_from(a, b, i + 1)
    }
}

/// How two dotted versions compare: -1, 0 or 1. Parts are compared in
/// order, a missing part counting as zero.
pub open spec fn version_order(left: Seq<char>, right: Seq<char>) -> int {
    order_from(version_parts_spec(left), version_parts_spec(right), 0)
}

/// A sequence of machine numbers as naturals.
pub open spec fn as_nats(s: Seq<u64>) -> Seq<nat> {
    s.map_values(|n: u64| n as nat)
}

/// The numbers of a dotted version.
fn version_parts(version: &str) -> (r: Vec<u64>)
    ensures
        as_nats(r@) == version_parts_spec(version@),
{
    let v = chars_of(version);
    let segs = split_chars(&v, '.');
    let ghost sv = split_char(v@, '.');
    let mut out: Vec<u64> = Vec::new();
    let mut i: usize = 0;
    while i < segs.len()
        invariant
            i <= segs.len(),
            v@ == version@,
            segs@.len() == sv.len(),
            sv == split_char(v@, '.'),
            forall|k: int| 0 <= k < segs@.len() ==> (#[trigger] segs@[k])@ == sv[k],
            as_nats(out@) == parts_of(sv.take(i as int)),
        decreases segs.len() - i,
    {
        let seg = &segs[i];
        let mut e: usize = 0;
        while e < seg.len() && '0' <= seg[e] && seg[e] <= '9'
            invariant
                e <= seg.len(),
                digits_end(seg@, 0) == digits_end(seg@, e as int),
            decreases seg.len() - e,
        {
            e += 1;
        }
        let digits = slice_chars(seg, 0, e);
        let parsed = parse_u64(&digits);
        proof {
            assert(sv.take(i as int + 1).drop_last() =~= sv.take(i as int));
            assert(sv.take(i as int + 1).last() == seg@);
            assert(digits@ == seg@.take(digits_end(seg@, 0)));
        }
        match parsed {
            Some(n) => {
                out.push(n);
            },
            None => {},
        }
        i += 1;
        assert(as_nats(out@) =~= parts_of(sv.take(i as int)));
    }
    assert(sv.take(i as int) =~= sv);
    out
}

/// The order of two part lists: -1, 0 or 1.
fn order_of_parts(left_parts: &Vec<u64>, right_parts: &Vec<u64>) -> (r: i8)
    ensures
        r == order_from(as_nats(left_parts@), as_nats(right_parts@), 0),
{
    let ghost a = as_nats(left_parts@);
    let ghost b = as_nats(right_parts@);
    let length = if left_parts.len() > right_parts.len() {
        left_parts.len()
    } else {
        right_parts.len()
    };
    let mut index: usize = 0;
    while index < length
        invariant
            index <= length,
            length == if left_parts.len() > right_parts.len() { left_parts.len() } else { right_parts.len() },
            a == as_nats(left_parts@),
            b == as_nats(right_parts@),
            order_from(a, b, 0) == order_from(a, b, index as int),
        decreases length - index,
    {
        let left_value: u64 = if index < left_parts.len() { left_parts[index] } else { 0 };
        let right_value: u64 = if index < right_parts.len() { right_parts[index] } else { 0 };
        assert(left_value == part_at(a, index as int));
        assert(right_value == part_at(b, index as int));
        if left_value < right_value {
            return -1;
        }
        if left_value > right_value {
            return 1;
        }
        index += 1;
    }
    0
}

/// Compares two dotted versions part by part, a missing part counting as
/// zero.
pub fn compare_versions(left: &str, right: &str) -> (r: Ordering)
    ensures
        (r == Ordering::Less) == (version_order(left@, right@) == -1),
        (r == Ordering::Equal) == (version_order(left@, right@) == 0),
        (r == Ordering::Greater) == (version_order(left@, right@) == 1),
{
    let left_parts = version_parts(left);
    let right_parts = version_parts(right);
    let o = order_of_parts(&left_parts, &right_parts);
    proof {
        lemma_compare_versions_antisymmetric(left@, right@);
    }
    if o < 0 {
        Ordering::Less
    } else if o == 0 {
        Ordering::Equal
    } else {
        Ordering::Greater
    }
}

/// Is `candidate` a newer version than `installed`?
pub fn version_is_newer(candidate: &str, installed: &str) -> (r: bool)
    ensures
        r == (version_order(candidate@, installed@) == 1),
{
    match compare_versions(candidate, installed) {
        Ordering::Greater => true,
        _ => false,
    }
}

// ---------------------------------------------------------------------------
// Laws of the version order
// ---------------------------------------------------------------------------

/// The part order is one of -1, 0, 1 and flips when the sides swap.
proof fn lemma_order_from_antisymmetric(a: Seq<nat>, b: Seq<nat>, i: int)
    ensures
        order_from(a, b, i) == -order_from(b, a, i),
        -1 <= order_from(a, b, i) <= 1,
    decreases a.len() + b.len() - i,
{
    if !(i < 0 || (i >= a.len() && i >= b.len())) && part_at(a, i) == part_at(b, i) {
        lemma_order_from_antisymmetric(a, b, i + 1);
    }
}

/// The part order is transitive.
proof fn lemma_order_from_transitive(a: Seq<nat>, b: Seq<nat>, c: Seq<nat>, i: int, o: int)
    requires
        o == -1 || o == 1,
        order_from(a, b, i) == o || order_from(a, b, i) == 0,
        order_from(b, c, i) == o || order_from(b, c, i) == 0,
    ensures
        order_from(a, c, i) == o || (order_from(a, c, i) == 0 && order_from(a, b, i) == 0 && order_from(b, c, i) == 0),
    decreases a.len() + b.len() + c.len() - i,
{
    if i < 0 {
    } else if i >= a.len() && i >= b.len() && i >= c.len() {
    } else if part_at(a, i) == part_at(b, i) && part_at(b, i) == part_at(c, i) {
        lemma_order_from_transitive(a, b, c, i + 1, o);
    } else {
        if part_at(a, i) == part_at(b, i) {
            lemma_order_from_antisymmetric(a, b, i + 1);
        }
        if part_at(b, i) == part_at(c, i) {
            lemma_order_from_antisymmetric(b, c, i + 1);
        }
        if i >= a.len() && i >= b.len() {
            lemma_order_zero_tail(a, b, i);
        }
        if i >= b.len() && i >= c.len() {
            lemma_order_zero_tail(b, c, i);
        }
    }
}

/// Past the end of both versions the order is zero.
proof fn lemma_order_zero_tail(a: Seq<nat>, b: Seq<nat>, i: int)
    requires
        i >= a.len(),
        i >= b.len(),
    ensures
        order_from(a, b, i) == 0,
{
}

/// Comparing versions is antisymmetric: swapping the two sides flips the
/// result, and a version compares equal to itself.
pub proof fn lemma_compare_versions_antisymmetric(left: Seq<char>, right: Seq<char>)
    ensures
        version_order(left, right) == -version_order(right, left),
        -1 <= version_order(left, right) <= 1,
        version_order(left, left) == 0,
{
    lemma_order_from_antisymmetric(version_parts_spec(left), version_parts_spec(right), 0);
    lemma_order_from_antisymmetric(version_parts_spec(left), version_parts_spec(left), 0);
}

/// Comparing versions is transitive: newer than a newer version is newer.
pub proof fn lemma_version_is_newer_transitive(a: Seq<char>, b: Seq<char>, c: Seq<char>)
    requires
        version_order(a, b) == 1,
        version_order(b, c) == 1,
    ensures
        version_order(a, c) == 1,
{
    lemma_order_from_transitive(version_parts_spec(a), version_parts_spec(b), version_parts_spec(c), 0, 1);
}

/// Of two versions at most one is newer than the other.
pub proof fn lemma_version_is_newer_asymmetric(a: Seq<char>, b: Seq<char>)
    ensures
        !(version_order(a, b) == 1 && version_order(b, a) == 1),
{
    lemma_compare_versions_antisymmetric(a, b);
}

} // verus!
