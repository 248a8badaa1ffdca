//! Ticket-identifier normalization.
//!
//! A reference that is not URL-shaped is taken as the key itself. A
//! URL-shaped reference must hold a path segment `/browse/<KEY>`, where
//! `<KEY>` is one or more uppercase letters, a hyphen and one or more
//! digits, immediately followed by a slash or the end of the string; the
//! first such segment's key is returned. The boundary requirement keeps a
//! match from running into a longer token.

use vstd::prelude::*;
use vstd::string::StringExecFns;
use crate::text::chars_of;
use crate::text::chars_to_string;
use crate::text::matches_at;
use crate::text::substring_at;

verus! {

/// Why a ticket reference could not be resolved.
#[derive(Debug)]
pub enum ResolutionError {
    /// The reference is a URL without a `/browse/<KEY>` path segment; it
    /// carries the original input for diagnostics.
    NoKeyInUrl(String),
}

impl ResolutionError {
    /// The diagnostic line reported for this error.
    pub fn message(&self) -> (m: String)
        ensures
            match self {
                ResolutionError::NoKeyInUrl(orig) => m@ == "Could not extract ticket ID from URL: "@
                    + orig@,
            },
    {
        match self {
            ResolutionError::NoKeyInUrl(orig) => {
                let mut m: String = String::from_str("Could not extract ticket ID from URL: ");
                m.append(orig.as_str());
                m
            },
        }
    }
}

/// Whether `c` is an uppercase ASCII letter.
pub open spec fn is_upper_ch(c: char) -> bool {
    'A' as u32 <= c as u32 <= 'Z' as u32
}

/// Whether `c` is an ASCII digit.
pub open spec fn is_digit_ch(c: char) -> bool {
    '0' as u32 <= c as u32 <= '9' as u32
}

/// Whether the reference is URL-shaped: prefixed by a recognized scheme.
pub open spec fn scheme_prefixed(s: Seq<char>) -> bool {
    substring_at(s, "http://"@, 0) || substring_at(s, "https://"@, 0)
}

/// Whether a `/browse/<KEY>` segment stands at position `i` of `s`: the
/// marker, then `la` uppercase letters, a hyphen and `da` digits, followed
/// by a slash or the end of the string.
pub open spec fn key_span_at(s: Seq<char>, i: int, la: int, da: int) -> bool {
    &&& substring_at(s, "/browse/"@, i)
    &&& 1 <= la
    &&& 1 <= da
    &&& i + 8 + la + 1 + da <= s.len()
    &&& (forall|k: int| i + 8 <= k < i + 8 + la ==> is_upper_ch(#[trigger] s[k]))
    &&& s[i + 8 + la] == '-'
    &&& (forall|k: int| i + 8 + la + 1 <= k < i + 8 + la + 1 + da ==> is_digit_ch(#[trigger] s[k]))
    &&& (i + 8 + la + 1 + da == s.len() || s[i + 8 + la + 1 + da] == '/')
}

/// Whether some `/browse/<KEY>` segment stands at position `i`.
pub open spec fn key_match_at(s: Seq<char>, i: int) -> bool {
    exists|la: int, da: int| key_span_at(s, i, la, da)
}

/// The key of the `/browse/<KEY>` segment at position `i`.
pub open spec fn key_at(s: Seq<char>, i: int) -> Seq<char> {
    let (la, da): (int, int) = choose|la: int, da: int| key_span_at(s, i, la, da);
    s.subrange(i + 8, i + 8 + la + 1 + da)
}

/// What a successful resolution returns: a reference that is not
/// URL-shaped is the key itself; a URL yields the key of its first
/// `/browse/<KEY>` segment.
pub open spec fn resolution_ok(s: Seq<char>, k: Seq<char>) -> bool {
    if !scheme_prefixed(s) {
        k == s
    } else {
        exists|i: int|
            {
                &&& #[trigger] key_match_at(s, i)
                &&& (forall|j: int| 0 <= j < i ==> !key_match_at(s, j))
                &&& k == key_at(s, i)
            }
    }
}

/// Only one span can stand at a given position: the letter run must end at
/// the hyphen and the digit run at the boundary, so the key at `i` is the
/// one the span delimits.
proof fn lemma_span_unique(s: Seq<char>, i: int, la: int, da: int)
    requires
        key_span_at(s, i, la, da),
    ensures
        key_at(s, i) == s.subrange(i + 8, i + 8 + la + 1 + da),
{
    let (la2, da2): (int, int) = choose|la2: int, da2: int| key_span_at(s, i, la2, da2);
    assert(key_span_at(s, i, la2, da2));
    if la2 < la {
        assert(is_upper_ch(s[i + 8 + la2]));
        assert(s[i + 8 + la2] == '-');
        assert(false);
    }
    if la2 > la {
        assert(is_upper_ch(s[i + 8 + la]));
        assert(s[i + 8 + la] == '-');
        assert(false);
    }
    if da2 < da {
        assert(is_digit_ch(s[i + 8 + la + 1 + da2]));
        assert(i + 8 + la + 1 + da2 < s.len());
        assert(s[i + 8 + la2 + 1 + da2] == '/');
        assert(false);
    }
    if da2 > da {
        assert(is_digit_ch(s[i + 8 + la2 + 1 + da]));
        assert(i + 8 + la + 1 + da < s.len());
        assert(s[i + 8 + la + 1 + da] == '/');
        assert(false);
    }
}

/// No key span starts at `i` when no uppercase letter follows the marker.
proof fn lemma_no_letters(s: Seq<char>, i: int)
    requires
        substring_at(s, "/browse/"@, i),
        i + 8 <= s.len(),
        i + 8 == s.len() || !is_upper_ch(s[i + 8]),
    ensures
        !key_match_at(s, i),
{
    assert forall|la: int, da: int| !key_span_at(s, i, la, da) by {
        if key_span_at(s, i, la, da) {
            assert(i + 8 + la + 1 + da <= s.len());
            assert(i + 8 < s.len());
            assert(is_upper_ch(s[i + 8]));
            assert(false);
        }
    }
}

/// No key span starts at `i` when the uppercase run after the marker,
/// ending at `p`, is not followed by a hyphen.
proof fn lemma_no_hyphen(s: Seq<char>, i: int, p: int)
    requires
        substring_at(s, "/browse/"@, i),
        i + 8 <= p <= s.len(),
        forall|k: int| i + 8 <= k < p ==> is_upper_ch(s[k]),
        p < s.len() ==> !is_upper_ch(s[p]),
        p < s.len() && p > i + 8 ==> s[p] != '-',
    ensures
        !key_match_at(s, i),
{
    assert forall|la: int, da: int| !key_span_at(s, i, la, da) by {
        if key_span_at(s, i, la, da) {
            if la < p - i - 8 {
                assert(is_upper_ch(s[i + 8 + la]));
                assert(s[i + 8 + la] == '-');
                assert(false);
            } else if la == p - i - 8 {
                assert(i + 8 + la + 1 + da <= s.len());
                assert(p < s.len());
                assert(s[p] == '-');
                assert(false);
            } else {
                assert(i + 8 + la + 1 + da <= s.len());
                assert(p < s.len());
                assert(is_upper_ch(s[p]));
                assert(false);
            }
        }
    }
}

/// No key span starts at `i` when the digit run after the hyphen, ending
/// at `q`, is empty or not followed by a slash or the end of the string.
proof fn lemma_no_digits(s: Seq<char>, i: int, p: int, q: int)
    requires
        substring_at(s, "/browse/"@, i),
        i + 8 < p < s.len(),
        forall|k: int| i + 8 <= k < p ==> is_upper_ch(s[k]),
        s[p] == '-',
        p + 1 <= q <= s.len(),
        forall|k: int| p + 1 <= k < q ==> is_digit_ch(s[k]),
        q < s.len() ==> !is_digit_ch(s[q]),
        q == p + 1 || (q < s.len() && s[q] != '/'),
    ensures
        !key_match_at(s, i),
{
    assert forall|la: int, da: int| !key_span_at(s, i, la, da) by {
        if key_span_at(s, i, la, da) {
            // the letter run must end exactly at the hyphen
            if la < p - i - 8 {
                assert(is_upper_ch(s[i + 8 + la]));
                assert(s[i + 8 + la] == '-');
                assert(false);
            } else if la > p - i - 8 {
                assert(i + 8 + la + 1 + da <= s.len());
                assert(is_upper_ch(s[p]));
                assert(false);
            } else {
                // la == p - i - 8, so digits start at p + 1
                if da < q - p - 1 {
                    assert(is_digit_ch(s[p + 1 + da]));
                    assert(i + 8 + la + 1 + da < s.len());
                    assert(s[i + 8 + la + 1 + da] == '/');
                    assert(s[p + 1 + da] == '/');
                    assert(false);
                } else if da > q - p - 1 {
                    assert(i + 8 + la + 1 + da <= s.len());
                    assert(q < s.len());
                    assert(is_digit_ch(s[q]));
                    assert(false);
                } else {
                    // da == q - p - 1, so the boundary check failed at q
                    assert(q == i + 8 + la + 1 + da);
                    assert(1 <= da);
                    assert(q == s.len() || s[q] == '/');
                    assert(false);
                }
            }
        }
    }
}

/// Whether `c` is an uppercase ASCII letter.
fn is_upper_exec(c: char) -> (r: bool)
    ensures
        r == is_upper_ch(c),
{
    let u: u32 = c as u32;
    'A' as u32 <= u && u <= 'Z' as u32
}

/// Whether `c` is an ASCII digit.
fn is_digit_exec(c: char) -> (r: bool)
    ensures
        r == is_digit_ch(c),
{
    let u: u32 = c as u32;
    '0' as u32 <= u && u <= '9' as u32
}

/// Reads a key right after a `/browse/` marker at `i`: returns the
/// position of the hyphen and the end of the digit run, or nothing when no
/// span stands at `i`.
fn scan_key(v: &Vec<char>, i: usize) -> (r: Option<(usize, usize)>)
    requires
        substring_at(v@, "/browse/"@, i as int),
        i + 8 <= v@.len(),
    ensures
        match r {
            Some(pq) => {
                &&& i + 8 < pq.0
                &&& pq.0 + 1 < pq.1 <= v@.len()
                &&& key_span_at(v@, i as int, pq.0 - (i + 8), pq.1 - (pq.0 + 1))
            },
            None => !key_match_at(v@, i as int),
        },
{
    let n: usize = v.len();
    let ks: usize = i + 8;
    let mut p: usize = ks;
    while p < n
        invariant
            n == v@.len(),
            ks <= p <= n,
            forall|k: int| ks <= k < p ==> is_upper_ch(v@[k]),
        ensures
            n == v@.len(),
            ks <= p <= n,
            forall|k: int| ks <= k < p ==> is_upper_ch(v@[k]),
            p < n ==> !is_upper_ch(v@[p as int]),
        decreases n - p,
    {
        if !is_upper_exec(v[p]) {
            break ;
        }
        p = p + 1;
    }
    if p == ks {
        proof {
            lemma_no_letters(v@, i as int);
        }
        return None;
    }
    if p == n {
        proof {
            lemma_no_hyphen(v@, i as int, p as int);
        }
        return None;
    }
    if v[p] != '-' {
        proof {
            lemma_no_hyphen(v@, i as int, p as int);
        }
        return None;
    }
    let ds: usize = p + 1;
    let mut q: usize = ds;
    while q < n
        invariant
            n == v@.len(),
            ds <= q <= n,
            forall|k: int| ds <= k < q ==> is_digit_ch(v@[k]),
        ensures
            n == v@.len(),
            ds <= q <= n,
            forall|k: int| ds <= k < q ==> is_digit_ch(v@[k]),
            q < n ==> !is_digit_ch(v@[q as int]),
        decreases n - q,
    {
        if !is_digit_exec(v[q]) {
            break ;
        }
        q = q + 1;
    }
    if q == ds {
        proof {
            lemma_no_digits(v@, i as int, p as int, q as int);
        }
        return None;
    }
    if q < n && v[q] != '/' {
        proof {
            lemma_no_digits(v@, i as int, p as int, q as int);
        }
        return None;
    }
    proof {
        let la: int = p - ks;
        let da: int = q - ds;
        assert forall|k: int| i + 8 <= k < i + 8 + la implies is_upper_ch(v@[k]) by {}
        assert forall|k: int| i + 8 + la + 1 <= k < i + 8 + la + 1 + da implies is_digit_ch(
            v@[k],
        ) by {}
        assert(key_span_at(v@, i as int, la, da));
    }
    Some((p, q))
}

/// Normalizes a ticket reference: a reference that is not URL-shaped is
/// returned unchanged; a URL yields the key of its first `/browse/<KEY>`
/// segment; a URL without one is rejected, the error carrying the input.
pub fn extract_ticket_id(input: &str) -> (r: Result<String, ResolutionError>)
    ensures
        r is Ok <==> (!scheme_prefixed(input@) || exists|i: int| key_match_at(input@, i)),
        r matches Ok(k) ==> resolution_ok(input@, k@),
        r matches Err(e) ==> (e matches ResolutionError::NoKeyInUrl(orig) && orig@ == input@),
{
    let v: Vec<char> = chars_of(input);
    let n: usize = v.len();
    let http: Vec<char> = chars_of("http://");
    let https: Vec<char> = chars_of("https://");
    let url1: bool = if http.len() <= n {
        matches_at(&v, &http, 0)
    } else {
        false
    };
    let url2: bool = if https.len() <= n {
        matches_at(&v, &https, 0)
    } else {
        false
    };
    if !url1 && !url2 {
        proof {
            assert(!scheme_prefixed(input@));
        }
        return Ok(input.to_owned());
    }
    let bro: Vec<char> = chars_of("/browse/");
    let mut i: usize = 0;
    while i < n
        invariant
            v@ == input@,
            bro@ == "/browse/"@,
            n == v@.len(),
            scheme_prefixed(input@),
            i <= n,
            forall|j: int| 0 <= j < i ==> !key_match_at(input@, j),
        decreases n - i,
    {
        proof {
            reveal_strlit("/browse/");
        }
        let marker: bool = if n - i >= 8 {
            matches_at(&v, &bro, i)
        } else {
            false
        };
        if marker {
            match scan_key(&v, i) {
                Some((p, q)) => {
                    let ks: usize = i + 8;
                    let mut key: Vec<char> = Vec::new();
                    let mut t: usize = ks;
                    proof {
                        assert(key@ =~= v@.subrange(ks as int, ks as int));
                    }
                    while t < q
                        invariant
                            n == v@.len(),
                            ks <= t <= q <= n,
                            key@ == v@.subrange(ks as int, t as int),
                        decreases q - t,
                    {
                        key.push(v[t]);
                        t = t + 1;
                        proof {
                            assert(key@ =~= v@.subrange(ks as int, t as int));
                        }
                    }
                    let kstr: String = chars_to_string(&key);
                    proof {
                        let la: int = p - ks;
                        let da: int = q - (p + 1);
                        lemma_span_unique(input@, i as int, la, da);
                        assert(key_match_at(input@, i as int));
                        assert(kstr@ =~= key_at(input@, i as int));
                        assert(resolution_ok(input@, kstr@));
                    }
                    return Ok(kstr);
                },
                None => {
                },
            }
        } else {
            proof {
                assert(!substring_at(input@, "/browse/"@, i as int));
                assert forall|la: int, da: int| !key_span_at(input@, i as int, la, da) by {}
                assert(!key_match_at(input@, i as int));
            }
        }
        i = i + 1;
    }
    proof {
        reveal_strlit("/browse/");
        assert forall|j: int| !key_match_at(input@, j) by {
            if 0 <= j < n {
            } else {
                assert forall|la: int, da: int| !key_span_at(input@, j, la, da) by {}
            }
        }
    }
    Err(ResolutionError::NoKeyInUrl(input.to_owned()))
}

/// The shape of a bare ticket key: one or more uppercase letters, a
/// hyphen, one or more digits, and nothing else.
pub open spec fn is_bare_key(s: Seq<char>) -> bool {
    exists|la: int|
        {
            &&& 1 <= la
            &&& la + 1 < s.len()
            &&& (forall|k: int| 0 <= k < la ==> is_upper_ch(#[trigger] s[k]))
            &&& s[la] == '-'
            &&& (forall|k: int| la < k < s.len() ==> is_digit_ch(#[trigger] s[k]))
        }
}

/// A bare key resolves to itself: it is not URL-shaped, so resolution
/// leaves it unchanged.
pub proof fn lemma_bare_key_unchanged(s: Seq<char>, k: Seq<char>)
    requires
        is_bare_key(s),
        resolution_ok(s, k),
    ensures
        k == s,
{
    let la: int = choose|la: int|
        {
            &&& 1 <= la
            &&& la + 1 < s.len()
            &&& (forall|k2: int| 0 <= k2 < la ==> is_upper_ch(#[trigger] s[k2]))
            &&& s[la] == '-'
            &&& (forall|k2: int| la < k2 < s.len() ==> is_digit_ch(#[trigger] s[k2]))
        };
    assert(is_upper_ch(s[0]));
    if scheme_prefixed(s) {
        reveal_strlit("http://");
        reveal_strlit("https://");
        if substring_at(s, "http://"@, 0) {
            assert(s.subrange(0, 7)[0] == "http://"@[0]);
            assert(s[0] == 'h');
        } else {
            assert(s.subrange(0, 8)[0] == "https://"@[0]);
            assert(s[0] == 'h');
        }
        assert(false);
    }
}

} // verus!
