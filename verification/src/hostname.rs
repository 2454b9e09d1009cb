use vstd::prelude::*;

verus! {

// Candidate strings arrive from upstream data sources in arbitrary shape:
// mixed case, sometimes a whole URL instead of a bare name.  This module
// holds the policy that turns such a candidate into a bare, lower-case
// hostname, and the syntactic test that accepts only plausible hostnames.

/// A character that may appear inside a hostname.
pub open spec fn is_host_char(c: char) -> bool {
    ('a' <= c && c <= 'z') || ('0' <= c && c <= '9') || c == '-'
}

/// A syntactically plausible hostname: non-empty, at most 253 characters,
/// built from lower-case letters, digits, hyphens and dots, where no label
/// is empty, and no label starts or ends with a hyphen.
pub open spec fn valid_hostname(s: Seq<char>) -> bool {
    &&& 1 <= s.len() <= 253
    &&& forall|i: int| 0 <= i < s.len() ==> is_host_char(#[trigger] s[i]) || s[i] == '.'
    &&& s[0] != '.' && s[0] != '-'
    &&& s[s.len() - 1] != '.' && s[s.len() - 1] != '-'
    &&& forall|i: int| 0 < i < s.len() ==> !(#[trigger] s[i] == '.' && (s[i - 1] == '.' || s[i - 1] == '-'))
    &&& forall|i: int| 0 < i < s.len() ==> !(#[trigger] s[i] == '-' && s[i - 1] == '.')
}

/// `s` is the target host itself or a strict subdomain of it.
pub open spec fn in_domain(s: Seq<char>, host: Seq<char>) -> bool {
    ||| s == host
    ||| (s.len() > host.len() && s.skip(s.len() - host.len()) == host && s[s.len() - host.len()
        - 1] == '.')
}

/// ASCII upper-case letters fold to lower case; every other character is kept.
pub open spec fn lower_char(c: char) -> char {
    if 'A' <= c && c <= 'Z' {
        (((c as u8) + 32) as u8) as char
    } else {
        c
    }
}

/// The character-wise lower-casing of a string.
pub open spec fn lower_seq(s: Seq<char>) -> Seq<char> {
    Seq::new(s.len(), |i: int| lower_char(s[i]))
}

/// A scheme separator `://` starts at position `i` of `s`.
pub open spec fn scheme_sep_at(s: Seq<char>, i: int) -> bool {
    0 <= i && i + 3 <= s.len() && s[i] == ':' && s[i + 1] == '/' && s[i + 2] == '/'
}

/// The position of the first scheme separator at or after `from`, if any.
pub open spec fn find_scheme_sep(s: Seq<char>, from: int) -> Option<int>
    decreases s.len() - from when 0 <= from
{
    if from + 3 > s.len() {
        None
    } else if scheme_sep_at(s, from) {
        Some(from)
    } else {
        find_scheme_sep(s, from + 1)
    }
}

/// The position of the first occurrence of `c` at or after `from`, if any.
pub open spec fn find_char(s: Seq<char>, c: char, from: int) -> Option<int>
    decreases s.len() - from when 0 <= from
{
    if from >= s.len() {
        None
    } else if s[from] == c {
        Some(from)
    } else {
        find_char(s, c, from + 1)
    }
}

/// Where the host part of a lower-cased candidate `t` begins: right after
/// the first `://`, or at the start when there is no scheme.
pub open spec fn norm_start(t: Seq<char>) -> int {
    match find_scheme_sep(t, 0) {
        Some(i) => i + 3,
        None => 0,
    }
}

/// Where the host part of a lower-cased candidate `t` ends: at the first
/// `/` after the scheme, or at the end of the string.
pub open spec fn norm_end(t: Seq<char>) -> int {
    match find_char(t, '/', norm_start(t)) {
        Some(j) => j,
        None => t.len() as int,
    }
}

/// The normal form of a candidate: lower-cased, with a leading scheme and a
/// trailing path stripped.
pub open spec fn normalize(s: Seq<char>) -> Seq<char> {
    let t = lower_seq(s);
    t.subrange(norm_start(t), norm_end(t))
}

/// The aggregation filter: a candidate is kept exactly when its normal form
/// is a plausible hostname lying in the target domain.
pub open spec fn keep(c: Seq<char>, host: Seq<char>) -> bool {
    valid_hostname(normalize(c)) && in_domain(normalize(c), host)
}

pub proof fn lemma_find_scheme_sep(s: Seq<char>, from: int)
    requires
        0 <= from,
    ensures
        match find_scheme_sep(s, from) {
            Some(i) => from <= i && scheme_sep_at(s, i),
            None => true,
        },
    decreases s.len() - from,
{
    if from + 3 > s.len() {
    } else if scheme_sep_at(s, from) {
    } else {
        lemma_find_scheme_sep(s, from + 1);
    }
}

pub proof fn lemma_find_char(s: Seq<char>, c: char, from: int)
    requires
        0 <= from,
    ensures
        match find_char(s, c, from) {
            Some(i) => from <= i && i < s.len() && s[i] == c,
            None => true,
        },
    decreases s.len() - from,
{
    if from >= s.len() {
    } else if s[from] == c {
    } else {
        lemma_find_char(s, c, from + 1);
    }
}

/// The normal form is a contiguous slice of the lower-cased input, so its
/// bounds are well formed.
pub proof fn lemma_norm_bounds(t: Seq<char>)
    ensures
        0 <= norm_start(t),
        norm_start(t) <= norm_end(t),
        norm_end(t) <= t.len(),
{
    lemma_find_scheme_sep(t, 0);
    lemma_find_char(t, '/', norm_start(t));
}

/// Lower-casing in executable code.
pub fn lower_char_exec(c: char) -> (r: char)
    ensures
        r == lower_char(c),
{
    if 'A' <= c && c <= 'Z' {
        ((c as u8) + 32) as char
    } else {
        c
    }
}

/// The characters of a string, as a vector.
pub fn chars_of(s: &str) -> (r: Vec<char>)
    ensures
        r@ == s@,
{
    let n = s.unicode_len();
    let mut r: Vec<char> = Vec::new();
    let mut i: usize = 0;
    while i < n
        invariant
            n == s@.len(),
            i <= n,
            r@ == s@.take(i as int),
        decreases n - i,
    {
        r.push(s.get_char(i));
        i = i + 1;
        proof {
            assert(r@ =~= s@.take(i as int));
        }
    }
    proof {
        assert(s@.take(n as int) =~= s@);
    }
    r
}

/// Relies on `Iterator::collect` for `String`: the collected string holds
/// exactly the characters of the vector, in order.
#[verifier::external_body]
fn string_from_chars(v: &Vec<char>) -> (r: String)
    ensures
        r@ == v@,
{
    v.iter().collect()
}

/// Whether `v` is a plausible hostname, in executable code.
pub fn check_hostname(v: &Vec<char>) -> (b: bool)
    ensures
        b == valid_hostname(v@),
{
    let n = v.len();
    if n < 1 || n > 253 {
        return false;
    }
    if v[0] == '.' || v[0] == '-' || v[n - 1] == '.' || v[n - 1] == '-' {
        return false;
    }
    let mut i: usize = 0;
    while i < n
        invariant
            n == v@.len(),
            1 <= n <= 253,
            i <= n,
            forall|k: int| 0 <= k < i ==> is_host_char(#[trigger] v@[k]) || v@[k] == '.',
            forall|k: int| 0 < k < i ==> !(#[trigger] v@[k] == '.' && (v@[k - 1] == '.' || v@[k - 1] == '-')),
            forall|k: int| 0 < k < i ==> !(#[trigger] v@[k] == '-' && v@[k - 1] == '.'),
        decreases n - i,
    {
        let c = v[i];
        let ok_char = ('a' <= c && c <= 'z') || ('0' <= c && c <= '9') || c == '-' || c == '.';
        if !ok_char {
            return false;
        }
        if i > 0 {
            let p = v[i - 1];
            if c == '.' && (p == '.' || p == '-') {
                return false;
            }
            if c == '-' && p == '.' {
                return false;
            }
        }
        i = i + 1;
    }
    true
}

/// Whether `v` is the host or a strict subdomain of it, in executable code.
pub fn check_in_domain(v: &Vec<char>, host: &Vec<char>) -> (b: bool)
    ensures
        b == in_domain(v@, host@),
{
    let n = v.len();
    let m = host.len();
    if n < m {
        proof {
            assert(v@ != host@) by {
                assert(v@.len() != host@.len());
            }
        }
        return false;
    }
    if n > m && v[n - m - 1] != '.' {
        proof {
            assert(v@ != host@) by {
                assert(v@.len() != host@.len());
            }
        }
        return false;
    }
    let off = n - m;
    let mut i: usize = 0;
    while i < m
        invariant
            n == v@.len(),
            m == host@.len(),
            m <= n,
            off == n - m,
            i <= m,
            forall|k: int| 0 <= k < i ==> v@[off + k] == host@[k],
        decreases m - i,
    {
        if v[off + i] != host[i] {
            proof {
                if n == m {
                    assert(v@[off + i] != host@[i as int]);
                    assert(v@ != host@);
                } else {
                    assert(v@.skip(off as int)[i as int] != host@[i as int]);
                    assert(v@.skip(off as int) != host@);
                    assert(v@ != host@) by {
                        assert(v@.len() != host@.len());
                    }
                }
            }
            return false;
        }
        i = i + 1;
    }
    proof {
        if n == m {
            assert(v@ =~= host@);
        } else {
            assert(v@.skip(off as int) =~= host@);
            assert(v@ != host@) by {
                assert(v@.len() != host@.len());
            }
        }
    }
    true
}

/// The normal form of `s` as a character vector: lower-cased, scheme and
/// path stripped.
pub fn normal_form(s: &str) -> (r: Vec<char>)
    ensures
        r@ == normalize(s@),
{
    let cs = chars_of(s);
    let n = cs.len();
    let mut t: Vec<char> = Vec::new();
    let mut i: usize = 0;
    while i < n
        invariant
            n == cs@.len(),
            cs@ == s@,
            i <= n,
            t@ =~= lower_seq(s@).take(i as int),
        decreases n - i,
    {
        t.push(lower_char_exec(cs[i]));
        i = i + 1;
        proof {
            assert(t@ =~= lower_seq(s@).take(i as int));
        }
    }
    proof {
        assert(t@ =~= lower_seq(s@));
    }
    // Find the first scheme separator.
    let ghost tv = t@;
    let mut start: usize = 0;
    let mut j: usize = 0;
    let mut found_sep = false;
    while !found_sep && n >= 3 && j <= n - 3
        invariant
            n == t@.len(),
            t@ == tv,
            j <= n,
            !found_sep ==> find_scheme_sep(tv, 0) == find_scheme_sep(tv, j as int),
            found_sep ==> find_scheme_sep(tv, 0) == Some(j as int) && start == j + 3,
        decreases n - j + (if found_sep { 0int } else { 1int }),
    {
        if t[j] == ':' && t[j + 1] == '/' && t[j + 2] == '/' {
            found_sep = true;
            start = j + 3;
            proof {
                assert(scheme_sep_at(tv, j as int));
                assert(find_scheme_sep(tv, j as int) == Some(j as int));
            }
        } else {
            proof {
                assert(!scheme_sep_at(tv, j as int));
                assert(find_scheme_sep(tv, j as int) == find_scheme_sep(tv, j as int + 1));
            }
            j = j + 1;
        }
    }
    if !found_sep {
        start = 0;
        proof {
            assert(find_scheme_sep(tv, 0) is None);
        }
    }
    proof {
        assert(start == norm_start(tv));
        lemma_norm_bounds(tv);
    }
    // Find the first slash after the scheme.
    let mut end: usize = n;
    let mut k: usize = start;
    let mut found_slash = false;
    while !found_slash && k < n
        invariant
            n == t@.len(),
            t@ == tv,
            k <= n,
            !found_slash ==> start <= k,
            found_slash ==> start <= end,
            start as int == norm_start(tv),
            !found_slash ==> find_char(tv, '/', start as int) == find_char(tv, '/', k as int)
                && end == n,
            found_slash ==> find_char(tv, '/', start as int) == Some(end as int),
        decreases n - k + (if found_slash { 0int } else { 1int }),
    {
        if t[k] == '/' {
            found_slash = true;
            end = k;
            proof {
                assert(find_char(tv, '/', k as int) == Some(k as int));
            }
        } else {
            proof {
                assert(find_char(tv, '/', k as int) == find_char(tv, '/', k as int + 1));
            }
            k = k + 1;
        }
    }
    proof {
        if !found_slash {
            assert(find_char(tv, '/', start as int) is None);
        }
        assert(end as int == norm_end(tv));
        assert(start <= end <= n) by {
            lemma_norm_bounds(tv);
        }
    }
    let mut out: Vec<char> = Vec::new();
    let mut p: usize = start;
    while p < end
        invariant
            n == t@.len(),
            t@ == tv,
            start <= p <= end <= n,
            out@ =~= tv.subrange(start as int, p as int),
        decreases end - p,
    {
        out.push(t[p]);
        p = p + 1;
        proof {
            assert(out@ =~= tv.subrange(start as int, p as int));
        }
    }
    proof {
        assert(out@ =~= normalize(s@));
    }
    out
}

/// Applies the aggregation policy to one candidate: returns its normal form
/// when that form is a plausible hostname in the target domain, and nothing
/// otherwise.
pub fn normalize_candidate(s: &str, host: &str) -> (r: Option<String>)
    ensures
        match r {
            Some(t) => keep(s@, host@) && t@ == normalize(s@),
            None => !keep(s@, host@),
        },
{
    let v = normal_form(s);
    if !check_hostname(&v) {
        return None;
    }
    let h = chars_of(host);
    if !check_in_domain(&v, &h) {
        return None;
    }
    Some(string_from_chars(&v))
}

} // verus!
