//! The decisions of the fetch primitive: when a download happens at all,
//! how a response status is classified, how a `Location` header resolves
//! against the previous URL, which host a URL belongs to, and where
//! descriptors and archives live on disk and on the mirror.

use vstd::prelude::*;

use crate::device::{contains, contains_sub};
use crate::pdsc::Package;

verus! {

/// What to do about one destination: a file that already exists is used as
/// it stands and no request is issued; only a missing one is downloaded,
/// through a temporary file that is renamed on success.
#[derive(Debug, Clone, Copy, PartialEq, Eq, Structural)]
pub enum FetchPlan {
    UseLocal,
    Download,
}

/// Decides whether a fetch issues a request: never when the destination
/// already exists.
pub fn fetch_plan(dest_exists: bool) -> (r: FetchPlan)
    ensures
        r == FetchPlan::UseLocal <==> dest_exists,
{
    if dest_exists {
        FetchPlan::UseLocal
    } else {
        FetchPlan::Download
    }
}

/// How one response status is treated: a 3xx status redirects, a status of
/// at least 400 fails, anything else succeeds.
#[derive(Debug, Clone, Copy, PartialEq, Eq, Structural)]
pub enum StatusClass {
    Redirect,
    Success,
    Failure,
}

pub open spec fn spec_classify_status(code: u16) -> StatusClass {
    if 300 <= code < 400 {
        StatusClass::Redirect
    } else if code >= 400 {
        StatusClass::Failure
    } else {
        StatusClass::Success
    }
}

/// Classifies one HTTP status code.
pub fn classify_status(code: u16) -> (r: StatusClass)
    ensures
        r == spec_classify_status(code),
{
    if 300 <= code && code < 400 {
        StatusClass::Redirect
    } else if code >= 400 {
        StatusClass::Failure
    } else {
        StatusClass::Success
    }
}

/// The first position at which the needle occurs at or after `k`.
pub open spec fn spec_find_from(hay: Seq<char>, needle: Seq<char>, k: int) -> Option<int>
    decreases hay.len() - k + 1,
{
    if k < 0 || k + needle.len() > hay.len() {
        None
    } else if hay.subrange(k, k + needle.len()) == needle {
        Some(k)
    } else {
        spec_find_from(hay, needle, k + 1)
    }
}

/// Finds the first occurrence of the needle at or after position `from`.
pub fn find_from(hay: &str, needle: &str, from: usize) -> (r: Option<usize>)
    ensures
        match r {
            Some(k) => spec_find_from(hay@, needle@, from as int) == Some(k as int),
            None => spec_find_from(hay@, needle@, from as int) is None,
        },
{
    let hl = hay.unicode_len();
    let nl = needle.unicode_len();
    if from > hl || nl > hl - from {
        proof {
            assert(spec_find_from(hay@, needle@, from as int) is None) by {
                lemma_find_none(hay@, needle@, from as int);
            }
        }
        return None;
    }
    if nl == 0 {
        assert(hay@.subrange(from as int, from as int) =~= needle@);
        return Some(from);
    }
    let mut k: usize = from;
    while k <= hl - nl
        invariant
            from <= k,
            k <= hl - nl + 1,
            0 < nl == needle@.len(),
            nl <= hl == hay@.len(),
            spec_find_from(hay@, needle@, from as int) == spec_find_from(hay@, needle@, k as int),
        decreases hl - k,
    {
        let piece = hay.substring_char(k, k + nl);
        if crate::numbers::str_eq(piece, needle) {
            return Some(k);
        }
        k = k + 1;
    }
    proof {
        lemma_find_none(hay@, needle@, k as int);
    }
    None
}

proof fn lemma_find_none(hay: Seq<char>, needle: Seq<char>, k: int)
    requires
        k + needle.len() > hay.len() || k < 0,
    ensures
        spec_find_from(hay, needle, k) is None,
{
}

/// The origin of an absolute URL: everything up to, and not including, the
/// first slash after the scheme separator; the whole URL when no such
/// slash follows.
pub open spec fn spec_origin(base: Seq<char>) -> Seq<char> {
    match spec_find_from(base, "://"@, 0) {
        None => base,
        Some(i) => match spec_find_from(base, "/"@, i + 3) {
            None => base,
            Some(j) => base.subrange(0, j),
        },
    }
}

/// The position of the last slash at or after `k`, if any.
pub open spec fn spec_last_slash_from(base: Seq<char>, k: int) -> Option<int>
    decreases base.len() - k + 1,
{
    if k < 0 || k >= base.len() {
        None
    } else {
        match spec_last_slash_from(base, k + 1) {
            Some(j) => Some(j),
            None => if base[k] == '/' {
                Some(k)
            } else {
                None
            },
        }
    }
}

pub open spec fn spec_dir_of(base: Seq<char>) -> Seq<char> {
    let start = match spec_find_from(base, "://"@, 0) {
        None => 0int,
        Some(i) => i + 3,
    };
    match spec_last_slash_from(base, start) {
        None => base + "/"@,
        Some(j) => base.subrange(0, j + 1),
    }
}

/// What a `Location` header resolves to against the URL it answered: an
/// absolute location stands by itself, one starting with a slash keeps the
/// origin, and any other replaces the last segment of the URL's path.
pub open spec fn spec_resolve_location(base: Seq<char>, location: Seq<char>) -> Seq<char> {
    if contains_sub(location, "://"@) {
        location
    } else if location.len() > 0 && location[0] == '/' {
        spec_origin(base) + location
    } else {
        spec_dir_of(base) + location
    }
}

proof fn lemma_last_slash_scan(base: Seq<char>, from: int, k: int)
    requires
        0 <= from <= k <= base.len(),
        forall|m: int| k <= m < base.len() ==> base[m] != '/',
    ensures
        spec_last_slash_from(base, from) == spec_last_slash_from_cut(base, from, k),
    decreases base.len() - from,
{
    if from < base.len() {
        lemma_last_slash_scan_aux(base, k);
        if from < k {
            lemma_last_slash_scan(base, from + 1, if k < from + 1 {
                from + 1
            } else {
                k
            });
        }
    }
}

/// The last slash between `from` and the cut, exclusive.
pub open spec fn spec_last_slash_from_cut(base: Seq<char>, from: int, k: int) -> Option<int>
    decreases k - from + 1,
{
    if from < 0 || from >= k {
        None
    } else {
        match spec_last_slash_from_cut(base, from + 1, k) {
            Some(j) => Some(j),
            None => if base[from] == '/' {
                Some(from)
            } else {
                None
            },
        }
    }
}

proof fn lemma_last_slash_scan_aux(base: Seq<char>, k: int)
    requires
        0 <= k <= base.len(),
        forall|m: int| k <= m < base.len() ==> base[m] != '/',
    ensures
        spec_last_slash_from(base, k) is None,
    decreases base.len() - k,
{
    if k < base.len() {
        lemma_last_slash_scan_aux(base, k + 1);
    }
}

/// Finds the last slash at or after position `from`.
fn last_slash_from(base: &str, from: usize) -> (r: Option<usize>)
    requires
        from <= base@.len(),
    ensures
        match r {
            Some(k) => spec_last_slash_from(base@, from as int) == Some(k as int),
            None => spec_last_slash_from(base@, from as int) is None,
        },
{
    let len = base.unicode_len();
    let mut k = len;
    while k > from
        invariant
            from <= k <= len == base@.len(),
            forall|m: int| k <= m < base@.len() ==> base@[m] != '/',
        decreases k,
    {
        k = k - 1;
        if base.get_char(k) == '/' {
            proof {
                lemma_last_slash_found(base@, from as int, k as int);
            }
            return Some(k);
        }
    }
    proof {
        lemma_last_slash_scan_aux(base@, from as int);
    }
    None
}

proof fn lemma_last_slash_found(base: Seq<char>, from: int, j: int)
    requires
        0 <= from <= j < base.len(),
        base[j] == '/',
        forall|m: int| j < m < base.len() ==> base[m] != '/',
    ensures
        spec_last_slash_from(base, from) == Some(j),
    decreases j - from,
{
    lemma_last_slash_scan_aux(base, j + 1);
    if from < j {
        lemma_last_slash_found(base, from + 1, j);
    }
}

/// Resolves a `Location` header against the URL that answered with it.
pub fn resolve_location(base: &str, location: &str) -> (r: String)
    ensures
        r@ == spec_resolve_location(base@, location@),
{
    if contains(location, "://") {
        return location.to_owned();
    }
    let bl = base.unicode_len();
    let ll = location.unicode_len();
    if ll > 0 && location.get_char(0) == '/' {
        let mut out = match find_from(base, "://", 0) {
            None => base.to_owned(),
            Some(i) => {
                proof {
                    reveal_strlit("://");
                    lemma_find_in_range(base@, "://"@, 0);
                }
                match find_from(base, "/", i + 3) {
                    None => base.to_owned(),
                    Some(j) => {
                        proof {
                            reveal_strlit("/");
                            lemma_find_in_range(base@, "/"@, i as int + 3);
                        }
                        base.substring_char(0, j).to_owned()
                    },
                }
            },
        };
        out.push_str(location);
        return out;
    }
    let start = match find_from(base, "://", 0) {
        None => 0,
        Some(i) => {
            proof {
                reveal_strlit("://");
                lemma_find_in_range(base@, "://"@, 0);
            }
            i + 3
        },
    };
    let mut out = match last_slash_from(base, start) {
        None => {
            let mut o = base.to_owned();
            o.push_str("/");
            o
        },
        Some(j) => {
            proof {
                lemma_last_slash_in_range(base@, start as int);
            }
            base.substring_char(0, j + 1).to_owned()
        },
    };
    out.push_str(location);
    out
}

proof fn lemma_find_in_range(hay: Seq<char>, needle: Seq<char>, k: int)
    requires
        spec_find_from(hay, needle, k) is Some,
        k >= 0,
    ensures
        k <= spec_find_from(hay, needle, k).unwrap(),
        spec_find_from(hay, needle, k).unwrap() + needle.len() <= hay.len(),
    decreases hay.len() - k + 1,
{
    if k + needle.len() > hay.len() {
    } else if hay.subrange(k, k + needle.len()) == needle {
    } else {
        lemma_find_in_range(hay, needle, k + 1);
    }
}

proof fn lemma_last_slash_in_range(base: Seq<char>, k: int)
    requires
        spec_last_slash_from(base, k) is Some,
        k >= 0,
    ensures
        k <= spec_last_slash_from(base, k).unwrap(),
        spec_last_slash_from(base, k).unwrap() < base.len(),
    decreases base.len() - k,
{
    if k < base.len() {
        if spec_last_slash_from(base, k + 1) is Some {
            lemma_last_slash_in_range(base, k + 1);
        }
    }
}

/// The host of an absolute URL: the authority up to any port, with no
/// scheme and no path. A URL without a scheme separator has no host.
pub open spec fn spec_host_of(url: Seq<char>) -> Option<Seq<char>> {
    match spec_find_from(url, "://"@, 0) {
        None => None,
        Some(i) => {
            let rest_end = match spec_find_from(url, "/"@, i + 3) {
                None => url.len() as int,
                Some(j) => j,
            };
            let auth = url.subrange(i + 3, rest_end);
            match spec_find_from(auth, ":"@, 0) {
                None => Some(auth),
                Some(p) => Some(auth.subrange(0, p)),
            }
        },
    }
}

/// The host part of a URL, for the downloader's per-host bookkeeping.
pub fn host_of(url: &str) -> (r: Option<String>)
    ensures
        match r {
            Some(h) => spec_host_of(url@) == Some(h@),
            None => spec_host_of(url@) is None,
        },
{
    let ul = url.unicode_len();
    let i = match find_from(url, "://", 0) {
        None => {
            return None;
        },
        Some(i) => i,
    };
    proof {
        lemma_find_in_range(url@, "://"@, 0);
        reveal_strlit("://");
    }
    let rest_end = match find_from(url, "/", i + 3) {
        None => url.unicode_len(),
        Some(j) => {
            proof {
                lemma_find_in_range(url@, "/"@, i + 3);
                reveal_strlit("/");
            }
            j
        },
    };
    let auth = url.substring_char(i + 3, rest_end);
    match find_from(auth, ":", 0) {
        None => Some(auth.to_owned()),
        Some(p) => {
            proof {
                lemma_find_in_range(auth@, ":"@, 0);
                reveal_strlit(":");
            }
            Some(auth.substring_char(0, p).to_owned())
        },
    }
}

// ---- where packages live ----

/// The archive URL of a package: base and `vendor.name.version.pack`,
/// with exactly one slash between them.
pub open spec fn spec_pack_url(p: crate::pdsc::PackageV) -> Seq<char> {
    let tail = p.vendor + "."@ + p.name + "."@ + p.releases[0].version + ".pack"@;
    if p.url.len() > 0 && p.url.last() == '/' {
        p.url + tail
    } else {
        p.url + "/"@ + tail
    }
}

/// Composes the archive URL of a package's latest release.
pub fn pack_url(p: &Package) -> (r: String)
    requires
        p@.releases.len() > 0,
    ensures
        r@ == spec_pack_url(p@),
{
    let mut out = p.url.clone();
    let len = p.url.as_str().unicode_len();
    if !(len > 0 && p.url.as_str().get_char(len - 1) == '/') {
        out.push_str("/");
    }
    out.push_str(p.vendor.as_str());
    out.push_str(".");
    out.push_str(p.name.as_str());
    out.push_str(".");
    out.push_str(p.releases.latest_release().version.as_str());
    out.push_str(".pack");
    out
}

/// The nested store path of a package archive:
/// `vendor/name/version.pack`.
pub open spec fn spec_pack_path(p: crate::pdsc::PackageV) -> Seq<char> {
    p.vendor + "/"@ + p.name + "/"@ + p.releases[0].version + ".pack"@
}

/// Composes the store path of a package archive, relative to the store.
pub fn pack_path(p: &Package) -> (r: String)
    requires
        p@.releases.len() > 0,
    ensures
        r@ == spec_pack_path(p@),
{
    let mut out = p.vendor.clone();
    out.push_str("/");
    out.push_str(p.name.as_str());
    out.push_str("/");
    out.push_str(p.releases.latest_release().version.as_str());
    out.push_str(".pack");
    out
}

/// The temporary name a download streams into before the atomic rename.
pub fn part_path(dest: &str) -> (r: String)
    ensures
        r@ == dest@ + ".part"@,
{
    let mut out = dest.to_owned();
    out.push_str(".part");
    out
}

} // verus!
