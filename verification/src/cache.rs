//! The local asset cache: a remote URL maps deterministically to one
//! path under a fixed cache root, and an asset is fetched only while
//! that path is absent. Presence on disk is the sole existence signal;
//! the surrounding application performs the probe, the fetch and the
//! write, and asks this module for every path and every decision.

use vstd::prelude::*;

verus! {

/// The first position at or after `i` where the scheme separator "://"
/// starts, if any.
pub open spec fn find_sep_from(u: Seq<char>, i: int) -> Option<int>
    decreases u.len() - i,
{
    if i < 0 || i + 3 > u.len() {
        None
    } else if u[i] == ':' && u[i + 1] == '/' && u[i + 2] == '/' {
        Some(i)
    } else {
        find_sep_from(u, i + 1)
    }
}

/// The first position at or after `i` holding a slash, if any.
pub open spec fn find_slash_from(u: Seq<char>, i: int) -> Option<int>
    decreases u.len() - i,
{
    if i < 0 || i >= u.len() {
        None
    } else if u[i] == '/' {
        Some(i)
    } else {
        find_slash_from(u, i + 1)
    }
}

/// The path component of a remote URL: everything from the first slash
/// after the scheme separator "://". A URL without a separator is taken
/// as already being a path (a leading slash added if missing); one with
/// a separator but no path reads as the bare root "/".
pub open spec fn spec_url_path(u: Seq<char>) -> Seq<char> {
    match find_sep_from(u, 0) {
        None => if u.len() > 0 && u[0] == '/' {
            u
        } else {
            "/"@ + u
        },
        Some(i) => match find_slash_from(u, i + 3) {
            Some(j) => u.skip(j),
            None => "/"@,
        },
    }
}

/// The cache path of a remote URL: the URL's path component appended to
/// the fixed cache root.
pub open spec fn spec_cache_path(u: Seq<char>) -> Seq<char> {
    "/tmp/themeinstaller/cache"@ + spec_url_path(u)
}

/// Finds the scheme separator "://" in a URL.
fn find_sep(url: &str) -> (r: Option<usize>)
    ensures
        match r {
            Some(i) => find_sep_from(url@, 0) == Some(i as int) && i + 3 <= url@.len(),
            None => find_sep_from(url@, 0) is None,
        },
{
    let len = url.unicode_len();
    if len < 3 {
        return None;
    }
    let mut i: usize = 0;
    while i <= len - 3
        invariant
            i <= len,
            3 <= len,
            len == url@.len(),
            find_sep_from(url@, 0) == find_sep_from(url@, i as int),
        decreases len - i,
    {
        if url.get_char(i) == ':' && url.get_char(i + 1) == '/' && url.get_char(i + 2) == '/' {
            return Some(i);
        }
        i += 1;
    }
    None
}

/// Finds the first slash at or after `start`.
fn find_slash(url: &str, start: usize) -> (r: Option<usize>)
    ensures
        match r {
            Some(j) => find_slash_from(url@, start as int) == Some(j as int) && j < url@.len(),
            None => find_slash_from(url@, start as int) is None,
        },
{
    let len = url.unicode_len();
    let mut j: usize = start;
    while j < len
        invariant
            len == url@.len(),
            find_slash_from(url@, start as int) == find_slash_from(url@, j as int),
        decreases len - j,
    {
        if url.get_char(j) == '/' {
            return Some(j);
        }
        j += 1;
    }
    None
}

/// Derives the local cache path of a remote URL. Deterministic: one URL
/// always maps to one path.
pub fn cache_path(url: &str) -> (r: String)
    ensures
        r@ == spec_cache_path(url@),
{
    let len = url.unicode_len();
    let mut out = String::from_str("/tmp/themeinstaller/cache");
    match find_sep(url) {
        None => {
            if len > 0 && url.get_char(0) == '/' {
                out.append(url);
            } else {
                out.append("/");
                out.append(url);
            }
        },
        Some(s) => {
            match find_slash(url, s + 3) {
                None => {
                    out.append("/");
                },
                Some(k) => {
                    let tail = url.substring_char(k, len);
                    proof {
                        assert(tail@ =~= url@.skip(k as int));
                    }
                    out.append(tail);
                },
            }
        },
    }
    proof {
        assert(out@ =~= spec_cache_path(url@));
    }
    out
}

/// The position of the last slash in `u` at or before `i`, if any.
pub open spec fn rfind_slash_from(u: Seq<char>, i: int) -> Option<int>
    decreases i + 1,
{
    if i < 0 || i >= u.len() {
        None
    } else if u[i] == '/' {
        Some(i)
    } else {
        rfind_slash_from(u, i - 1)
    }
}

/// The directory part of a path: everything before its last slash, or
/// nothing when the path holds no slash.
pub fn parent_dir(path: &str) -> (r: Option<String>)
    ensures
        match rfind_slash_from(path@, path@.len() - 1) {
            Some(i) => r matches Some(d) && d@ == path@.take(i),
            None => r is None,
        },
{
    let len = path.unicode_len();
    let mut i: usize = len;
    while i > 0
        invariant
            i <= len,
            len == path@.len(),
            rfind_slash_from(path@, len as int - 1) == rfind_slash_from(path@, i as int - 1),
        decreases i,
    {
        i -= 1;
        if path.get_char(i) == '/' {
            proof {
                assert(rfind_slash_from(path@, len as int - 1) == Some(i as int));
            }
            let dir = path.substring_char(0, i);
            proof {
                assert(dir@ =~= path@.take(i as int));
            }
            return Some(dir.to_owned());
        }
    }
    proof {
        assert(rfind_slash_from(path@, len as int - 1) is None);
    }
    None
}

/// What one ensure operation does, as a decision: reuse the cached file
/// or download it.
#[derive(Debug, Clone, Copy, PartialEq, Eq, Structural)]
pub enum EnsureAction {
    UseCached,
    Download,
}

/// Plans one ensure operation: the asset's cache path, and a download
/// exactly when the path is absent.
pub fn ensure_step(url: &str, present: bool) -> (r: (String, EnsureAction))
    ensures
        r.0@ == spec_cache_path(url@),
        (r.1 == EnsureAction::UseCached) <==> present,
{
    let path = cache_path(url);
    if present {
        (path, EnsureAction::UseCached)
    } else {
        (path, EnsureAction::Download)
    }
}

/// The cache as a whole, modeled by the set of paths already present
/// under the cache root.
pub struct CacheModel {
    pub present: Set<Seq<char>>,
}

/// One ensure operation against the cache model: the URL's path is
/// computed; if present the cache is untouched and nothing is fetched,
/// otherwise the asset is fetched once and its path becomes present.
pub open spec fn spec_ensure(m: CacheModel, url: Seq<char>) -> (CacheModel, bool, Seq<char>) {
    let path = spec_cache_path(url);
    if m.present.contains(path) {
        (m, false, path)
    } else {
        (CacheModel { present: m.present.insert(path) }, true, path)
    }
}

/// Law: ensuring the same URL twice fetches at most once — the second
/// call, made after the first completed, finds the path present and
/// performs no fetch — and both calls resolve the identical local path.
pub proof fn lemma_ensure_idempotent(m: CacheModel, url: Seq<char>)
    ensures
        ({
            let first = spec_ensure(m, url);
            let second = spec_ensure(first.0, url);
            first.2 == second.2 && !second.1 && second.0 == first.0
        }),
{
}

} // verus!
