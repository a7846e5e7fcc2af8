//! Discovery of game installations in the launcher's product database.
use vstd::prelude::*;
use vstd::string::*;
use crate::types::SyncError;
use crate::toc::chars_of;
use crate::text::{first_where, lemma_first_where};
use crate::remote::str_views;

verus! {

/// The text of the first capture group of each successive non-overlapping
/// match of the regular expression `pattern` in `text`, for the matches in
/// which that group takes part; `None` when `pattern` does not compile.
pub uninterp spec fn first_group_matches(pattern: Seq<char>, text: Seq<char>) -> Option<Seq<Seq<char>>>;

/// Relies on `regex::Regex::new` and `regex::Regex::captures_iter`: the text
/// of capture group 1 of each match, in order.
#[verifier::external_body]
fn regex_first_groups(pattern: &str, text: &str) -> (r: Option<Vec<String>>)
    ensures
        match r {
            Some(v) => first_group_matches(pattern@, text@) == Some(str_views(v@)),
            None => first_group_matches(pattern@, text@).is_none(),
        },
{
    let re = regex::Regex::new(pattern).ok()?;
    Some(re.captures_iter(text).filter_map(|c| c.get(1)).map(|m| m.as_str().to_string()).collect())
}

/// A control character: one below a space.
pub open spec fn control() -> spec_fn(char) -> bool {
    |c: char| ' ' > c
}

pub open spec fn backslash_for_slash(c: char) -> char {
    if c == '/' {
        '\\'
    } else {
        c
    }
}

/// A matched install path, cut at its first control character and written
/// with backslash separators.
pub open spec fn normalized(s: Seq<char>) -> Seq<char> {
    s.take(first_where(s, control()) as int).map_values(|c: char| backslash_for_slash(c))
}

/// `s` without repeats, each value kept where it first occurs.
pub open spec fn dedup(s: Seq<Seq<char>>) -> Seq<Seq<char>>
    decreases s.len(),
{
    if s.len() == 0 {
        Seq::empty()
    } else {
        let rest = dedup(s.drop_last());
        if rest.contains(s.last()) {
            rest
        } else {
            rest.push(s.last())
        }
    }
}

/// The install path `s` as the scan reports it.
pub fn normalize_install_path(s: &str) -> (r: String)
    ensures
        r@ == normalized(s@),
{
    let v = chars_of(s);
    let mut k: usize = 0;
    while k < v.len() && v[k] >= ' '
        invariant
            k <= v@.len(),
            v@ == s@,
            forall|i: int| 0 <= i < k ==> v@[i] >= ' ',
        decreases v@.len() - k,
    {
        k = k + 1;
    }
    proof {
        assert forall|i: int| 0 <= i < k implies !control()(#[trigger] s@[i]) by {}
        lemma_first_where(s@, control(), k as int);
    }
    let mut u = String::new();
    let mut i: usize = 0;
    while i < k
        invariant
            i <= k <= v@.len(),
            v@ == s@,
            u@ == s@.take(i as int).map_values(|c: char| backslash_for_slash(c)),
        decreases k - i,
    {
        let ghost before = u@;
        if v[i] == '/' {
            let sep = "\\";
            proof {
                reveal_strlit("\\");
            }
            u.append(sep);
        } else {
            u.append(s.substring_char(i, i + 1));
        }
        assert(u@ =~= s@.take(i + 1).map_values(|c: char| backslash_for_slash(c)));
        i = i + 1;
    }
    u
}

fn contains_string(v: &Vec<String>, s: &String) -> (r: bool)
    ensures
        r == str_views(v@).contains(s@),
{
    let mut i: usize = 0;
    while i < v.len()
        invariant
            i <= v@.len(),
            forall|j: int| 0 <= j < i ==> v@[j]@ != s@,
        decreases v@.len() - i,
    {
        if v[i] == *s {
            assert(str_views(v@)[i as int] == s@);
            return true;
        }
        i = i + 1;
    }
    proof {
        if str_views(v@).contains(s@) {
            let j = choose|j: int| 0 <= j < str_views(v@).len() && str_views(v@)[j] == s@;
            assert(v@[j]@ == s@);
        }
    }
    false
}

/// The pattern of an install path in the product database: a drive letter, a
/// separator, then printable text up to `World of Warcraft`.
pub const INSTALL_PATH_PATTERN: &'static str = "([A-Z]:[/\\\\][^\\x00-\\x1F]*World of Warcraft)";

/// The install paths `matches` as the scan reports them: normalised, each
/// once, in order of first appearance.
pub fn normalize_candidates(matches: &Vec<String>) -> (r: Vec<String>)
    ensures
        str_views(r@) == dedup(str_views(matches@).map_values(|m: Seq<char>| normalized(m))),
{
    let ghost ms = str_views(matches@).map_values(|m: Seq<char>| normalized(m));
    let mut out: Vec<String> = Vec::new();
    let mut i: usize = 0;
    while i < matches.len()
        invariant
            i <= matches@.len(),
            ms == str_views(matches@).map_values(|m: Seq<char>| normalized(m)),
            str_views(out@) == dedup(ms.take(i as int)),
        decreases matches@.len() - i,
    {
        let p = normalize_install_path(matches[i].as_str());
        assert(ms.take(i + 1).drop_last() =~= ms.take(i as int));
        assert(ms.take(i + 1).last() == p@);
        if !contains_string(&out, &p) {
            let ghost before = out@;
            out.push(p);
            assert(str_views(out@) =~= str_views(before).push(out@.last()@));
        }
        i = i + 1;
    }
    assert(ms.take(matches@.len() as int) =~= ms);
    out
}

/// The candidate install paths named in the product database text `content`,
/// normalised, each once, in order of first appearance.
pub fn install_candidates(content: &str) -> (r: Vec<String>)
    ensures
        str_views(r@) == match first_group_matches(INSTALL_PATH_PATTERN@, content@) {
            Some(ms) => dedup(ms.map_values(|m: Seq<char>| normalized(m))),
            None => Seq::empty(),
        },
{
    match regex_first_groups(INSTALL_PATH_PATTERN, content) {
        Some(m) => normalize_candidates(&m),
        None => Vec::new(),
    }
}

/// The outcome of a scan that found the installations `valid`: none found is
/// `NotFound`.
pub fn found_install_paths(valid: Vec<String>) -> (r: Result<Vec<String>, SyncError>)
    ensures
        valid@.len() == 0 ==> r is Err && r->Err_0 is NotFound,
        valid@.len() > 0 ==> r is Ok && r->Ok_0@ == valid@,
{
    if valid.len() == 0 {
        Err(SyncError::NotFound(String::from_str("No WoW installation found. Please select manually.")))
    } else {
        Ok(valid)
    }
}

} // verus!
