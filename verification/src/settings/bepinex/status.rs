//! Whether BepInEx is installed in the game folder, and how current it is.
use vstd::prelude::*;

use super::pack::{recommended_bepinex_version, recommended_pack_version};
use crate::paths::{join_path, path_join2};
use crate::text::{
    all_digits, chars_of, is_digit, split_char, split_chars, starts_with, str_eq, trim, trim_str,
};

verus! {

/// The installed state of BepInEx.
#[derive(Debug, Clone, PartialEq, Eq)]
pub enum BepinexStatus {
    NotInstalled,
    InstalledCurrent { pack_version: Option<String>, bepinex_version: Option<String> },
    NeedsUpdate {
        pack_version: Option<String>,
        bepinex_version: Option<String>,
        recommended_pack_version: String,
    },
}

/// Which BepInEx files are present, and the versions read from them.
#[derive(Debug, Clone, PartialEq, Eq)]
pub struct BepinexPresence {
    pub bepinex_folder: bool,
    pub core_assembly: bool,
    pub preloader_assembly: bool,
    pub doorstop_config: bool,
    pub winhttp_proxy: bool,
    pub linux_doorstop: bool,
    pub run_script: bool,
    pub doorstop_version_file: bool,
    pub pack_version: Option<String>,
    pub bepinex_version: Option<String>,
}

/// The view of an optional text.
pub open spec fn opt_view(o: Option<String>) -> Option<Seq<char>> {
    match o {
        Some(s) => Some(s@),
        None => None,
    }
}

impl BepinexPresence {
    /// Every file a working install needs is present.
    pub open spec fn looks_installed_spec(&self) -> bool {
        self.bepinex_folder && self.core_assembly && self.preloader_assembly
            && self.doorstop_config && self.winhttp_proxy && self.linux_doorstop
            && self.run_script
    }

    /// The install counts as current: the pack version is the recommended
    /// one, or there is no pack version and BepInEx itself is current.
    pub open spec fn is_current_spec(&self) -> bool {
        opt_view(self.pack_version) == Some(recommended_pack_version()) || (
        self.pack_version is None && opt_view(self.bepinex_version) == Some(
            recommended_bepinex_version(),
        ))
    }

    /// Are all the files of an install present?
    pub fn looks_installed(&self) -> (r: bool)
        ensures
            r == self.looks_installed_spec(),
    {
        self.bepinex_folder && self.core_assembly && self.preloader_assembly
            && self.doorstop_config && self.winhttp_proxy && self.linux_doorstop
            && self.run_script
    }

    /// The status these findings amount to.
    pub fn into_status(self) -> (r: BepinexStatus)
        ensures
            !self.looks_installed_spec() ==> r is NotInstalled,
            self.looks_installed_spec() && self.is_current_spec() ==> (r matches BepinexStatus::InstalledCurrent { pack_version, bepinex_version }
                && opt_view(pack_version) == opt_view(self.pack_version)
                && opt_view(bepinex_version) == opt_view(self.bepinex_version)),
            self.looks_installed_spec() && !self.is_current_spec() ==> (r matches BepinexStatus::NeedsUpdate { pack_version, bepinex_version, recommended_pack_version: rec }
                && opt_view(pack_version) == opt_view(self.pack_version)
                && opt_view(bepinex_version) == opt_view(self.bepinex_version)
                && rec@ == recommended_pack_version()),
    {
        if !self.looks_installed() {
            return BepinexStatus::NotInstalled;
        }
        let pack_is_current = match &self.pack_version {
            Some(v) => str_eq(v.as_str(), "1.0.3"),
            None => false,
        };
        let bepinex_is_current = match &self.bepinex_version {
            Some(v) => str_eq(v.as_str(), "5.4.23.4"),
            None => false,
        };
        let current = pack_is_current || (self.pack_version.is_none() && bepinex_is_current);
        if current {
            BepinexStatus::InstalledCurrent {
                pack_version: self.pack_version,
                bepinex_version: self.bepinex_version,
            }
        } else {
            BepinexStatus::NeedsUpdate {
                pack_version: self.pack_version,
                bepinex_version: self.bepinex_version,
                recommended_pack_version: "1.0.3".to_owned(),
            }
        }
    }
}

/// Where this manager records the pack version it installed.
pub fn manager_pack_version_path(install_folder: &str) -> (r: String)
    ensures
        r@ == join_path(join_path(install_folder@, "BepInEx"@), ".manager_pack_version"@),
{
    path_join2(install_folder, "BepInEx", ".manager_pack_version")
}

// ---------------------------------------------------------------------------
// Versions read from the installed files
// ---------------------------------------------------------------------------

/// The pack version recorded in the manager's version file: its text
/// trimmed, when anything is left.
pub open spec fn pack_version_spec(text: Seq<char>) -> Option<Seq<char>> {
    if trim(text).len() > 0 {
        Some(trim(text))
    } else {
        None
    }
}

/// Reads the recorded pack version from the version file's text.
pub fn pack_version_from_text(text: &str) -> (r: Option<String>)
    ensures
        match pack_version_spec(text@) {
            Some(v) => r matches Some(s) && s@ == v,
            None => r is None,
        },
{
    let t = trim_str(text);
    if chars_of(t.as_str()).len() > 0 {
        Some(t)
    } else {
        None
    }
}

/// A plausible BepInEx version: four dot-separated parts of one to three
/// ASCII digits, starting with `5.`.
pub open spec fn plausible_version(c: Seq<char>) -> bool {
    let parts = split_char(c, '.');
    &&& parts.len() == 4
    &&& forall|k: int| 0 <= k < 4 ==> #[trigger] parts[k].len() > 0 && parts[k].len() <= 3 && all_digits(parts[k])
    &&& starts_with(c, "5."@)
}

/// Is the text a plausible BepInEx version?
pub fn is_plausible_version_chars(c: &Vec<char>) -> (r: bool)
    ensures
        r == plausible_version(c@),
{
    let parts = split_chars(c, '.');
    if parts.len() != 4 {
        return false;
    }
    let mut k: usize = 0;
    while k < 4
        invariant
            k <= 4,
            parts@.len() == 4,
            parts@.len() == split_char(c@, '.').len(),
            forall|i: int| 0 <= i < parts@.len() ==> (#[trigger] parts@[i])@ == split_char(c@, '.')[i],
            forall|i: int|
                0 <= i < k ==> #[trigger] split_char(c@, '.')[i].len() > 0 && split_char(c@, '.')[i].len() <= 3
                    && all_digits(split_char(c@, '.')[i]),
        decreases 4 - k,
    {
        let p = &parts[k];
        assert(p@ == split_char(c@, '.')[k as int]);
        if p.len() == 0 || p.len() > 3 {
            assert(!(split_char(c@, '.')[k as int].len() > 0 && split_char(c@, '.')[k as int].len() <= 3));
            return false;
        }
        let mut j: usize = 0;
        while j < p.len()
            invariant
                j <= p.len(),
                k < 4,
                split_char(c@, '.').len() == 4,
                p@ == split_char(c@, '.')[k as int],
                forall|t: int| 0 <= t < j ==> is_digit(#[trigger] p@[t]),
            decreases p.len() - j,
        {
            if !('0' <= p[j] && p[j] <= '9') {
                assert(!is_digit(p@[j as int]));
                assert(!all_digits(split_char(c@, '.')[k as int]));
                assert(!(split_char(c@, '.')[k as int].len() > 0 && split_char(c@, '.')[k as int].len() <= 3
                    && all_digits(split_char(c@, '.')[k as int])));
                return false;
            }
            j += 1;
        }
        k += 1;
    }
    proof {
        reveal_strlit("5.");
        if c@.len() >= 2 {
            assert(starts_with(c@, "5."@) == (c@[0] == '5' && c@[1] == '.')) by {
                if c@[0] == '5' && c@[1] == '.' {
                    assert(c@.subrange(0, 2) =~= "5."@);
                }
                if starts_with(c@, "5."@) {
                    assert(c@.subrange(0, 2)[0] == '5' && c@.subrange(0, 2)[1] == '.');
                }
            }
        }
    }
    c.len() >= 2 && c[0] == '5' && c[1] == '.'
}

/// Is the text a plausible BepInEx version?
pub fn is_plausible_bepinex_version(candidate: &str) -> (r: bool)
    ensures
        r == plausible_version(candidate@),
{
    is_plausible_version_chars(&chars_of(candidate))
}

/// The bytes occur in `h` at some position.
pub open spec fn bytes_contain(h: Seq<u8>, n: Seq<u8>) -> bool {
    exists|i: int| 0 <= i && i + n.len() <= h.len() && #[trigger] h.subrange(i, i + n.len()) == n
}

/// Do the bytes occur in `h`?
pub fn contains_bytes(h: &[u8], n: &[u8]) -> (r: bool)
    ensures
        r == bytes_contain(h@, n@),
{
    if n.len() > h.len() {
        return false;
    }
    let mut i: usize = 0;
    while i <= h.len() - n.len()
        invariant
            n.len() <= h.len(),
            i <= h.len() - n.len() + 1,
            forall|k: int| 0 <= k < i ==> #[trigger] h@.subrange(k, k + n@.len()) != n@,
        decreases h.len() - i,
    {
        let mut j: usize = 0;
        while j < n.len() && h[i + j] == n[j]
            invariant
                j <= n.len(),
                i + n.len() <= h.len(),
                forall|t: int| 0 <= t < j ==> h@[i + t] == n@[t],
            decreases n.len() - j,
        {
            j += 1;
        }
        if j == n.len() {
            assert(h@.subrange(i as int, i + n@.len()) =~= n@);
            return true;
        }
        assert(h@.subrange(i as int, i + n@.len())[j as int] != n@[j as int]);
        i += 1;
    }
    proof {
        assert forall|k: int| 0 <= k && k + n@.len() <= h@.len() implies #[trigger] h@.subrange(k, k + n@.len()) != n@ by {
            assert(k < i);
        }
    }
    false
}

/// A byte of a version: an ASCII digit or a dot.
pub open spec fn version_byte(b: u8) -> bool {
    (48 <= b && b <= 57) || b == 46
}

/// End of the run of version bytes that starts at `i`.
pub open spec fn run_end(b: Seq<u8>, i: int) -> int
    decreases b.len() - i,
{
    if 0 <= i < b.len() && version_byte(b[i]) {
        run_end(b, i + 1)
    } else {
        i
    }
}

/// The bytes as characters.
pub open spec fn byte_chars(b: Seq<u8>) -> Seq<char> {
    b.map_values(|x: u8| x as char)
}

/// The first run of digits and dots, from `i` on, that is a plausible
/// BepInEx version. Any other byte separates runs.
pub open spec fn first_plausible(b: Seq<u8>, i: int) -> Option<Seq<char>>
    decreases b.len() - i,
{
    if i < 0 || i >= b.len() {
        None
    } else if version_byte(b[i]) && (i == 0 || !version_byte(b[i - 1])) && plausible_version(
        byte_chars(b.subrange(i, run_end(b, i))),
    ) {
        Some(byte_chars(b.subrange(i, run_end(b, i))))
    } else {
        first_plausible(b, i + 1)
    }
}

/// Bounds of a run.
proof fn lemma_run_end(b: Seq<u8>, i: int)
    requires
        0 <= i <= b.len(),
    ensures
        i <= run_end(b, i) <= b.len(),
        forall|k: int| i <= k < run_end(b, i) ==> version_byte(#[trigger] b[k]),
    decreases b.len() - i,
{
    if i < b.len() && version_byte(b[i]) {
        lemma_run_end(b, i + 1);
    }
}

/// The BepInEx version recorded in the core assembly's bytes: the
/// recommended version when its text occurs there, else the first
/// plausible version among the runs of digits and dots.
pub fn version_hint(bytes: &[u8]) -> (r: Option<String>)
    ensures
        bytes_contain(bytes@, seq![53u8, 46u8, 52u8, 46u8, 50u8, 51u8, 46u8, 52u8]) ==> (r matches Some(s) && s@
            == recommended_bepinex_version()),
        !bytes_contain(bytes@, seq![53u8, 46u8, 52u8, 46u8, 50u8, 51u8, 46u8, 52u8]) ==> match first_plausible(
            bytes@,
            0,
        ) {
            Some(c) => r matches Some(s) && s@ == c,
            None => r is None,
        },
{
    let needle: Vec<u8> = vec![53u8, 46u8, 52u8, 46u8, 50u8, 51u8, 46u8, 52u8];
    assert(needle@ =~= seq![53u8, 46u8, 52u8, 46u8, 50u8, 51u8, 46u8, 52u8]);
    if contains_bytes(bytes, needle.as_slice()) {
        return Some("5.4.23.4".to_owned());
    }
    let mut i: usize = 0;
    while i < bytes.len()
        invariant
            i <= bytes.len(),
            !bytes_contain(bytes@, seq![53u8, 46u8, 52u8, 46u8, 50u8, 51u8, 46u8, 52u8]),
            first_plausible(bytes@, 0) == first_plausible(bytes@, i as int),
        decreases bytes.len() - i,
    {
        let b = bytes[i];
        let is_start = (('0' as u8 <= b && b <= '9' as u8) || b == 46) && (i == 0 || !((48 <= bytes[i - 1]
            && bytes[i - 1] <= 57) || bytes[i - 1] == 46));
        if is_start {
            let mut e = i;
            let mut run: Vec<char> = Vec::new();
            proof {
                lemma_run_end(bytes@, i as int);
            }
            while e < bytes.len() && ((48 <= bytes[e] && bytes[e] <= 57) || bytes[e] == 46)
                invariant
                    i <= e <= bytes.len(),
                    run_end(bytes@, i as int) == run_end(bytes@, e as int),
                    run@ == byte_chars(bytes@.subrange(i as int, e as int)),
                decreases bytes.len() - e,
            {
                run.push(bytes[e] as char);
                e += 1;
                assert(run@ =~= byte_chars(bytes@.subrange(i as int, e as int)));
            }
            if is_plausible_version_chars(&run) {
                let mut s = String::new();
                let mut k: usize = 0;
                while k < run.len()
                    invariant
                        k <= run.len(),
                        s@ == run@.take(k as int),
                    decreases run.len() - k,
                {
                    crate::text::push_char(&mut s, run[k]);
                    k += 1;
                    assert(s@ =~= run@.take(k as int));
                }
                assert(run@.take(run.len() as int) =~= run@);
                return Some(s);
            }
        }
        i += 1;
    }
    None
}
} // verus!
