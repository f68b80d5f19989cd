//! The link resolver: turns a raw link or redirect target into an
//! absolute capsule URL, relative to the URL it was found on.
//!
//! A capsule URL is a string of the shape `gemini://host[/path][?query]`
//! with a non-empty host.

use vstd::prelude::*;

use crate::text::{
    find_stop, scan_until, starts_with_seq, str_starts_with, lemma_scan_until, trim_trailing,
    trim_trailing_slashes,
};

verus! {

/// The characters of the protocol's scheme prefix.
pub open spec fn gemini_prefix() -> Seq<char> {
    seq!['g', 'e', 'm', 'i', 'n', 'i', ':', '/', '/']
}

/// `s` begins with the protocol's scheme prefix.
pub open spec fn has_gemini_prefix(s: Seq<char>) -> bool {
    starts_with_seq(s, gemini_prefix())
}

/// `s` holds "://" somewhere: it names some scheme.
pub open spec fn has_scheme_sep(s: Seq<char>) -> bool {
    exists|i: int|
        0 <= i && i + 3 <= s.len() && #[trigger] s[i] == ':' && s[i + 1] == '/' && s[i + 2] == '/'
}

/// Index just past the host: the first '/' or '?' after the scheme
/// prefix, or the end of the string.
pub open spec fn host_end(u: Seq<char>) -> int {
    scan_until(u, 9, '/', '?')
}

/// The host (authority) part of a capsule URL.
pub open spec fn host_of(u: Seq<char>) -> Seq<char> {
    u.subrange(9, host_end(u))
}

/// A well-formed absolute capsule URL: the scheme prefix followed by at
/// least one host character.
pub open spec fn is_capsule_url(s: Seq<char>) -> bool {
    &&& has_gemini_prefix(s)
    &&& s.len() > 9
    &&& s[9] != '/'
    &&& s[9] != '?'
}

/// Where a target `t` found on `u` leads, by the resolution rules:
/// a leading '/' is an absolute path on `u`'s host; the scheme prefix
/// means `t` is already absolute; a target naming no scheme at all is
/// joined to `u` with trailing slashes trimmed; anything else (a foreign
/// scheme) resolves to `u` itself.
pub open spec fn resolved(u: Seq<char>, t: Seq<char>) -> Seq<char> {
    if t.len() > 0 && t[0] == '/' {
        gemini_prefix() + host_of(u) + t
    } else if has_gemini_prefix(t) {
        t
    } else if !has_scheme_sep(t) {
        trim_trailing(u) + seq!['/'] + t
    } else {
        u
    }
}

/// Executable test for the scheme prefix.
pub fn check_gemini_prefix(s: &str) -> (r: bool)
    ensures
        r == has_gemini_prefix(s@),
{
    let r = str_starts_with(s, "gemini://");
    proof {
        reveal_strlit("gemini://");
        assert("gemini://"@ =~= gemini_prefix());
    }
    r
}

/// Executable test for "://".
pub fn check_scheme_sep(s: &str) -> (r: bool)
    ensures
        r == has_scheme_sep(s@),
{
    let n = s.unicode_len();
    if n < 3 {
        return false;
    }
    let mut i: usize = 0;
    while i <= n - 3
        invariant
            0 <= i,
            i <= n,
            n == s@.len(),
            n >= 3,
            forall|k: int|
                0 <= k < i ==> !(#[trigger] s@[k] == ':' && s@[k + 1] == '/' && s@[k + 2]
                    == '/'),
        decreases n - i,
    {
        if s.get_char(i) == ':' && s.get_char(i + 1) == '/' && s.get_char(i + 2) == '/' {
            return true;
        }
        i = i + 1;
        proof {
            assert(forall|k: int|
                0 <= k < i ==> !(#[trigger] s@[k] == ':' && s@[k + 1] == '/' && s@[k + 2]
                    == '/'));
        }
    }
    false
}

/// Executable test for a well-formed capsule URL.
pub fn check_capsule_url(s: &str) -> (r: bool)
    ensures
        r == is_capsule_url(s@),
{
    if !check_gemini_prefix(s) {
        return false;
    }
    if s.unicode_len() <= 9 {
        return false;
    }
    let c = s.get_char(9);
    c != '/' && c != '?'
}

/// Executable host extraction.
pub fn host_str(u: &str) -> (r: String)
    requires
        is_capsule_url(u@),
    ensures
        r@ == host_of(u@),
{
    let e = find_stop(u, 9, '/', '?');
    let sub = u.substring_char(9, e);
    proof {
        assert(sub@ =~= u@.subrange(9, host_end(u@)));
    }
    String::from_str(sub)
}

/// The host of a well-formed URL is non-empty and free of '/' and '?'.
pub proof fn lemma_host_of(u: Seq<char>)
    requires
        is_capsule_url(u),
    ensures
        9 < host_end(u) <= u.len(),
        host_of(u).len() > 0,
        host_of(u)[0] == u[9],
{
    lemma_scan_until(u, 9, '/', '?');
    assert(scan_until(u, 9, '/', '?') != 9);
}

/// Resolve `t` against the URL `u` it was found on.
pub fn resolve(u: &str, t: &str) -> (r: String)
    requires
        is_capsule_url(u@),
    ensures
        r@ == resolved(u@, t@),
        !has_gemini_prefix(t@) ==> is_capsule_url(r@),
{
    proof {
        lemma_resolved_wf(u@, t@);
    }
    let tn = t.unicode_len();
    if tn > 0 && t.get_char(0) == '/' {
        let mut r = String::from_str("gemini://");
        proof {
            reveal_strlit("gemini://");
            assert("gemini://"@ =~= gemini_prefix());
        }
        let host = host_str(u);
        r.append(host.as_str());
        r.append(t);
        return r;
    }
    if check_gemini_prefix(t) {
        return String::from_str(t);
    }
    if !check_scheme_sep(t) {
        let mut r = trim_trailing_slashes(u);
        r.append("/");
        proof {
            reveal_strlit("/");
            assert("/"@ =~= seq!['/']);
        }
        r.append(t);
        return r;
    }
    String::from_str(u)
}

/// Resolution preserves well-formedness for every target that does not
/// itself claim the protocol scheme; a scheme-prefixed target is taken
/// verbatim, so it is well-formed exactly when it was.
pub proof fn lemma_resolved_wf(u: Seq<char>, t: Seq<char>)
    requires
        is_capsule_url(u),
    ensures
        !has_gemini_prefix(t) ==> is_capsule_url(resolved(u, t)),
        has_gemini_prefix(t) ==> resolved(u, t) == t,
{
    lemma_host_of(u);
    if has_gemini_prefix(t) {
        assert(t.subrange(0, 9)[0] == t[0]);
        assert(t[0] == 'g');
    } else if t.len() > 0 && t[0] == '/' {
        let r = gemini_prefix() + host_of(u) + t;
        assert(r.subrange(0, 9) =~= gemini_prefix());
        assert(r[9] == host_of(u)[0]);
    } else if !has_scheme_sep(t) {
        lemma_trim_keeps_prefix(u);
        let w = trim_trailing(u);
        let r = w + seq!['/'] + t;
        assert(r.subrange(0, 9) =~= gemini_prefix()) by {
            assert(w.subrange(0, 9) =~= gemini_prefix());
            assert(forall|k: int| 0 <= k < 9 ==> r[k] == w[k]);
        }
        assert(r[9] == w[9]);
    }
}

/// Trimming trailing slashes from a well-formed URL keeps its scheme
/// prefix and first host character.
proof fn lemma_trim_keeps_prefix(u: Seq<char>)
    requires
        is_capsule_url(u),
    ensures
        trim_trailing(u).len() > 9,
        trim_trailing(u).subrange(0, 9) == u.subrange(0, 9),
        trim_trailing(u)[9] == u[9],
    decreases u.len(),
{
    if u.len() > 0 && u.last() == '/' {
        let v = u.drop_last();
        assert(v.len() > 9) by {
            assert(u[9] != '/');
            assert(u.len() != 10);
        }
        assert(is_capsule_url(v)) by {
            assert(v.subrange(0, 9) =~= u.subrange(0, 9));
        }
        lemma_trim_keeps_prefix(v);
        assert(v.subrange(0, 9) =~= u.subrange(0, 9));
    }
}

/// Law: a target with a leading '/' resolves to the scheme prefix, the
/// host of the base URL, and the target path, in that order.
pub proof fn lemma_resolve_absolute_path(u: Seq<char>, t: Seq<char>)
    requires
        is_capsule_url(u),
        t.len() > 0,
        t[0] == '/',
    ensures
        resolved(u, t) == gemini_prefix() + host_of(u) + t,
{
}

/// Law: a target that already begins with the protocol scheme prefix
/// resolves to itself, verbatim.
pub proof fn lemma_resolve_already_absolute(u: Seq<char>, t: Seq<char>)
    requires
        is_capsule_url(u),
        has_gemini_prefix(t),
    ensures
        resolved(u, t) == t,
{
    assert(t.subrange(0, 9)[0] == t[0]);
    assert(t[0] == 'g');
}

/// Law: a relative target (no scheme separator, no leading '/') resolves
/// to the base URL with trailing slashes trimmed, a '/', and the target.
pub proof fn lemma_resolve_relative(u: Seq<char>, t: Seq<char>)
    requires
        is_capsule_url(u),
        !has_scheme_sep(t),
        t.len() > 0 ==> t[0] != '/',
    ensures
        resolved(u, t) == trim_trailing(u) + seq!['/'] + t,
{
    if has_gemini_prefix(t) {
        assert(t.subrange(0, 9)[6] == t[6]);
        assert(t.subrange(0, 9)[7] == t[7]);
        assert(t.subrange(0, 9)[8] == t[8]);
        assert(t[6] == ':' && t[7] == '/' && t[8] == '/');
        assert(has_scheme_sep(t));
    }
}

/// Index of the first '?' of `u`, or its length.
pub open spec fn query_start(u: Seq<char>) -> int {
    scan_until(u, 0, '?', '?')
}

/// `u` without its query string.
pub open spec fn base_of(u: Seq<char>) -> Seq<char> {
    u.take(query_start(u))
}

/// Executable query stripping.
pub fn strip_query(u: &str) -> (r: String)
    ensures
        r@ == base_of(u@),
{
    let e = find_stop(u, 0, '?', '?');
    let sub = u.substring_char(0, e);
    proof {
        assert(sub@ =~= u@.take(query_start(u@)));
    }
    String::from_str(sub)
}

/// Stripping the query of a well-formed URL keeps it well-formed.
pub proof fn lemma_base_of_wf(u: Seq<char>)
    requires
        is_capsule_url(u),
    ensures
        is_capsule_url(base_of(u)),
        base_of(u).len() > 9,
        base_of(u)[9] == u[9],
{
    lemma_scan_until(u, 0, '?', '?');
    let qs = query_start(u);
    assert(qs > 9) by {
        assert(forall|i: int| 0 <= i < 9 ==> #[trigger] u[i] == gemini_prefix()[i]) by {
            assert(forall|i: int| 0 <= i < 9 ==> u.subrange(0, 9)[i] == #[trigger] u[i]);
        }
        if qs < u.len() {
            assert(u[qs] == '?');
        }
    }
    assert(base_of(u).subrange(0, 9) =~= u.subrange(0, 9));
}

/// A well-formed URL stays well-formed under any suffix.
pub proof fn lemma_append_keeps_wf(u: Seq<char>, suffix: Seq<char>)
    requires
        is_capsule_url(u),
    ensures
        is_capsule_url(u + suffix),
{
    let r = u + suffix;
    assert(r.subrange(0, 9) =~= u.subrange(0, 9));
    assert(r[9] == u[9]);
}

} // verus!
