//! Character-level text utilities shared by the resolver, the document
//! adapter and the command parser.
//!
//! Strings are modelled by their views, sequences of characters; every
//! helper here states its result over those sequences.

use vstd::prelude::*;

verus! {

/// Relies on String::push: appends the given character to the end of the
/// string.
pub assume_specification[ String::push ](s: &mut String, ch: char)
    ensures
        final(s)@ == old(s)@.push(ch),
;

/// Relies on String::pop: removes the last character of the string and
/// returns it, or returns None when the string is empty.
pub assume_specification[ String::pop ](s: &mut String) -> (c: Option<char>)
    ensures
        old(s)@.len() == 0 ==> final(s)@ == old(s)@ && c is None,
        old(s)@.len() > 0 ==> final(s)@ == old(s)@.drop_last() && c == Some(old(s)@.last()),
;

/// Index of the first occurrence of `a` or `b` in `s` at or after `i`,
/// or `s.len()` when neither occurs there.
pub open spec fn scan_until(s: Seq<char>, i: int, a: char, b: char) -> int
    decreases s.len() - i when 0 <= i <= s.len()
{
    if i >= s.len() {
        s.len() as int
    } else if s[i] == a || s[i] == b {
        i
    } else {
        scan_until(s, i + 1, a, b)
    }
}

pub proof fn lemma_scan_until(s: Seq<char>, i: int, a: char, b: char)
    requires
        0 <= i <= s.len(),
    ensures
        i <= scan_until(s, i, a, b) <= s.len(),
        forall|j: int| i <= j < scan_until(s, i, a, b) ==> s[j] != a && s[j] != b,
        scan_until(s, i, a, b) < s.len() ==> s[scan_until(s, i, a, b)] == a || s[scan_until(
            s,
            i,
            a,
            b,
        )] == b,
    decreases s.len() - i,
{
    if i < s.len() && s[i] != a && s[i] != b {
        lemma_scan_until(s, i + 1, a, b);
    }
}

/// First occurrence of `a` or `b` in `s` at or after `start`, executable.
pub fn find_stop(s: &str, start: usize, a: char, b: char) -> (r: usize)
    requires
        start <= s@.len(),
    ensures
        r == scan_until(s@, start as int, a, b),
        start <= r <= s@.len(),
        r < s@.len() ==> (s@[r as int] == a || s@[r as int] == b),
        forall|j: int| start <= j < r ==> s@[j] != a && s@[j] != b,
{
    proof {
        lemma_scan_until(s@, start as int, a, b);
    }
    let n = s.unicode_len();
    let mut i = start;
    while i < n
        invariant
            start <= i <= n,
            n == s@.len(),
            scan_until(s@, start as int, a, b) == scan_until(s@, i as int, a, b),
            forall|j: int| start <= j < i ==> s@[j] != a && s@[j] != b,
        decreases n - i,
    {
        let c = s.get_char(i);
        if c == a || c == b {
            return i;
        }
        i = i + 1;
    }
    i
}

/// `s` begins with `p`.
pub open spec fn starts_with_seq(s: Seq<char>, p: Seq<char>) -> bool {
    s.len() >= p.len() && s.subrange(0, p.len() as int) == p
}

/// Executable prefix test, exact over the views.
pub fn str_starts_with(s: &str, p: &str) -> (r: bool)
    ensures
        r == starts_with_seq(s@, p@),
{
    let sn = s.unicode_len();
    let pn = p.unicode_len();
    if pn > sn {
        return false;
    }
    let mut i: usize = 0;
    while i < pn
        invariant
            0 <= i <= pn <= sn,
            sn == s@.len(),
            pn == p@.len(),
            forall|j: int| 0 <= j < i ==> s@[j] == p@[j],
        decreases pn - i,
    {
        if s.get_char(i) != p.get_char(i) {
            proof {
                assert(s@.subrange(0, p@.len() as int)[i as int] == s@[i as int]);
            }
            return false;
        }
        i = i + 1;
    }
    proof {
        assert(s@.subrange(0, p@.len() as int) =~= p@);
    }
    true
}

/// Executable string equality, exact over the views.
pub fn str_eq(a: &str, b: &str) -> (r: bool)
    ensures
        r == (a@ == b@),
{
    let an = a.unicode_len();
    let bn = b.unicode_len();
    if an != bn {
        return false;
    }
    let mut i: usize = 0;
    while i < an
        invariant
            0 <= i <= an,
            an == a@.len(),
            bn == b@.len(),
            an == bn,
            forall|j: int| 0 <= j < i ==> a@[j] == b@[j],
        decreases an - i,
    {
        if a.get_char(i) != b.get_char(i) {
            return false;
        }
        i = i + 1;
    }
    proof {
        assert(a@ =~= b@);
    }
    true
}

/// `s` with every trailing '/' removed.
pub open spec fn trim_trailing(s: Seq<char>) -> Seq<char>
    decreases s.len(),
{
    if s.len() > 0 && s.last() == '/' {
        trim_trailing(s.drop_last())
    } else {
        s
    }
}

/// Executable trim of trailing '/' characters.
pub fn trim_trailing_slashes(s: &str) -> (r: String)
    ensures
        r@ == trim_trailing(s@),
{
    let mut end = s.unicode_len();
    proof {
        assert(s@.take(end as int) =~= s@);
    }
    while end > 0 && s.get_char(end - 1) == '/'
        invariant
            0 <= end <= s@.len(),
            trim_trailing(s@) == trim_trailing(s@.take(end as int)),
        decreases end,
    {
        proof {
            assert(s@.take(end as int).last() == '/');
            assert(s@.take(end as int).drop_last() =~= s@.take(end - 1));
        }
        end = end - 1;
    }
    let sub = s.substring_char(0, end);
    proof {
        assert(sub@ =~= s@.take(end as int));
        if end > 0 {
            assert(s@.take(end as int).last() != '/');
        }
    }
    String::from_str(sub)
}

/// `s` with every tab replaced by a single space.
pub open spec fn untabbed(s: Seq<char>) -> Seq<char> {
    s.map_values(|c: char| if c == '\t' { ' ' } else { c })
}

/// Executable tab replacement.
pub fn replace_tabs(s: &str) -> (r: String)
    ensures
        r@ == untabbed(s@),
{
    let n = s.unicode_len();
    let mut r = String::new();
    let mut i: usize = 0;
    while i < n
        invariant
            0 <= i <= n,
            n == s@.len(),
            r@ =~= untabbed(s@.take(i as int)),
        decreases n - i,
    {
        let c = s.get_char(i);
        if c == '\t' {
            r.push(' ');
        } else {
            r.push(c);
        }
        i = i + 1;
        proof {
            assert(r@ =~= untabbed(s@.take(i as int)));
        }
    }
    proof {
        assert(s@.take(n as int) =~= s@);
    }
    r
}

/// A line with one trailing carriage return removed.
pub open spec fn strip_cr(l: Seq<char>) -> Seq<char> {
    if l.len() > 0 && l.last() == '\r' {
        l.drop_last()
    } else {
        l
    }
}

/// The lines of `s`: split at newlines, one trailing carriage return
/// stripped from each line, and no final empty line after a trailing
/// newline.
pub open spec fn split_lines(s: Seq<char>) -> Seq<Seq<char>>
    decreases s.len(),
{
    if s.len() == 0 {
        Seq::empty()
    } else {
        let j = scan_until(s, 0, '\n', '\n');
        if 0 <= j < s.len() {
            seq![strip_cr(s.take(j))] + split_lines(s.skip(j + 1))
        } else {
            seq![strip_cr(s)]
        }
    }
}

/// Executable line splitting.
pub fn lines_of(s: &str) -> (r: Vec<String>)
    ensures
        r.deep_view() == split_lines(s@),
{
    let n = s.unicode_len();
    let mut r: Vec<String> = Vec::new();
    let mut pos: usize = 0;
    proof {
        assert(s@.skip(0) =~= s@);
        assert(r.deep_view() =~= Seq::<Seq<char>>::empty());
    }
    while pos < n
        invariant
            0 <= pos <= n,
            n == s@.len(),
            r.deep_view() + split_lines(s@.skip(pos as int)) =~= split_lines(s@),
        decreases n - pos,
    {
        let j = find_stop(s, pos, '\n', '\n');
        let ghost rest = s@.skip(pos as int);
        proof {
            lemma_scan_skip(s@, pos as int, j as int, '\n', '\n');
        }
        let mut line_end = j;
        if line_end > pos && s.get_char(line_end - 1) == '\r' {
            line_end = line_end - 1;
        }
        let piece = s.substring_char(pos, line_end);
        let line = String::from_str(piece);
        proof {
            let jr = j - pos;
            assert(rest.take(jr) =~= s@.subrange(pos as int, j as int));
            if j > pos && s@[j - 1] == '\r' {
                assert(rest.take(jr).last() == '\r');
                assert(strip_cr(rest.take(jr)) =~= s@.subrange(pos as int, line_end as int));
            } else {
                assert(strip_cr(rest.take(jr)) =~= s@.subrange(pos as int, line_end as int));
            }
            assert(line@ == strip_cr(rest.take(jr)));
            if j < n {
                assert(rest.skip(jr + 1) =~= s@.skip(j + 1));
            } else {
                assert(strip_cr(rest) == strip_cr(rest.take(jr))) by {
                    assert(rest.take(jr) =~= rest);
                }
            }
        }
        r.push(line);
        if j >= n {
            proof {
                assert(r.deep_view() + split_lines(s@.skip(n as int)) =~= split_lines(s@)) by {
                    assert(s@.skip(n as int) =~= Seq::<char>::empty());
                    assert(r.deep_view().last() == strip_cr(rest));
                    assert(r.deep_view() =~= r.deep_view().drop_last().push(strip_cr(rest)));
                }
            }
            pos = n;
        } else {
            pos = j + 1;
            proof {
                assert(r.deep_view() + split_lines(s@.skip(pos as int)) =~= split_lines(s@));
            }
        }
    }
    proof {
        assert(s@.skip(pos as int) =~= Seq::<char>::empty());
        assert(r.deep_view() =~= split_lines(s@));
    }
    r
}

/// The scan over a suffix mirrors the scan over the whole sequence.
pub proof fn lemma_scan_skip(s: Seq<char>, pos: int, j: int, a: char, b: char)
    requires
        0 <= pos <= s.len(),
        j == scan_until(s, pos, a, b),
    ensures
        scan_until(s.skip(pos), 0, a, b) == j - pos,
{
    lemma_scan_until(s, pos, a, b);
    let rest = s.skip(pos);
    lemma_scan_until(rest, 0, a, b);
    let k = scan_until(rest, 0, a, b);
    if k < j - pos {
        assert(s[pos + k] == rest[k]);
    }
    if j - pos < k {
        assert(rest[j - pos] == s[j]);
    }
}

/// Index of the first character at or after `i` that is not a space,
/// or `s.len()` when only spaces remain.
pub open spec fn scan_spaces(s: Seq<char>, i: int) -> int
    decreases s.len() - i when 0 <= i <= s.len()
{
    if i >= s.len() {
        s.len() as int
    } else if s[i] != ' ' {
        i
    } else {
        scan_spaces(s, i + 1)
    }
}

pub proof fn lemma_scan_spaces(s: Seq<char>, i: int)
    requires
        0 <= i <= s.len(),
    ensures
        i <= scan_spaces(s, i) <= s.len(),
        forall|j: int| i <= j < scan_spaces(s, i) ==> s[j] == ' ',
        scan_spaces(s, i) < s.len() ==> s[scan_spaces(s, i)] != ' ',
    decreases s.len() - i,
{
    if i < s.len() && s[i] == ' ' {
        lemma_scan_spaces(s, i + 1);
    }
}

/// First non-space position at or after `start`, executable.
pub fn find_non_space(s: &str, start: usize) -> (r: usize)
    requires
        start <= s@.len(),
    ensures
        r == scan_spaces(s@, start as int),
        start <= r <= s@.len(),
        r < s@.len() ==> s@[r as int] != ' ',
        forall|j: int| start <= j < r ==> s@[j] == ' ',
{
    proof {
        lemma_scan_spaces(s@, start as int);
    }
    let n = s.unicode_len();
    let mut i = start;
    while i < n
        invariant
            start <= i <= n,
            n == s@.len(),
            scan_spaces(s@, start as int) == scan_spaces(s@, i as int),
            forall|j: int| start <= j < i ==> s@[j] == ' ',
        decreases n - i,
    {
        let c = s.get_char(i);
        if c != ' ' {
            return i;
        }
        i = i + 1;
    }
    i
}

} // verus!
