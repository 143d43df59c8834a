use vstd::prelude::*;
use vstd::string::{StrSliceExecFns, StringExecFns};

verus! {

/// `needle` occurs in `hay` as a contiguous run.
pub open spec fn seq_contains(hay: Seq<char>, needle: Seq<char>) -> bool {
    exists|i: int| 0 <= i && i + needle.len() <= hay.len() && #[trigger] hay.subrange(i, i + needle.len()) == needle
}

/// The characters of `s`, one per element.
pub fn chars_of(s: &str) -> (r: Vec<char>)
    ensures
        r@ == s@,
{
    let n = s.unicode_len();
    let mut r: Vec<char> = Vec::new();
    let mut i: usize = 0;
    while i < n
        invariant
            n == s@.len(),
            i <= n,
            r@ == s@.take(i as int),
        decreases n - i,
    {
        let c = s.get_char(i);
        r.push(c);
        i += 1;
        proof {
            assert(r@ =~= s@.take(i as int));
        }
    }
    proof {
        assert(r@ =~= s@);
    }
    r
}

/// Whether `hay` holds `needle` as a contiguous run.
pub fn str_contains(hay: &str, needle: &str) -> (r: bool)
    ensures
        r == seq_contains(hay@, needle@),
{
    let h = chars_of(hay);
    let nd = chars_of(needle);
    let hl = h.len();
    let nl = nd.len();
    if nl > hl {
        proof {
            assert forall|i: int| 0 <= i && i + nl <= hl implies #[trigger] hay@.subrange(i, i + nl) != needle@ by {}
        }
        return false;
    }
    let mut i: usize = 0;
    while i <= hl - nl
        invariant
            h@ == hay@,
            nd@ == needle@,
            hl == h@.len(),
            nl == nd@.len(),
            nl <= hl,
            i <= hl - nl + 1,
            forall|j: int| 0 <= j < i ==> #[trigger] hay@.subrange(j, j + nl) != needle@,
        decreases hl - i,
    {
        let mut k: usize = 0;
        let mut same = true;
        while k < nl
            invariant
                h@ == hay@,
                nd@ == needle@,
                hl == h@.len(),
                nl == nd@.len(),
                i + nl <= hl,
                k <= nl,
                same == (forall|m: int| 0 <= m < k ==> h@[i + m] == nd@[m]),
            decreases nl - k,
        {
            if h[i + k] != nd[k] {
                same = false;
            }
            k += 1;
        }
        if same {
            proof {
                assert(hay@.subrange(i as int, i + nl) =~= needle@);
            }
            return true;
        }
        proof {
            let m = choose|m: int| 0 <= m < nl && h@[i + m] != nd@[m];
            assert(hay@.subrange(i as int, i + nl)[m] != needle@[m]);
        }
        i += 1;
    }
    false
}

pub open spec fn is_ascii_ws(c: char) -> bool {
    c == ' ' || c == '\t' || c == '\n' || c == '\x0C' || c == '\r'
}

/// The first index from `i` on that holds no ASCII whitespace (or the length).
pub open spec fn skip_ws_from(s: Seq<char>, i: int) -> int
    decreases s.len() - i,
{
    if 0 <= i < s.len() && is_ascii_ws(s[i]) {
        skip_ws_from(s, i + 1)
    } else {
        i
    }
}

/// The first index from `i` on that holds ASCII whitespace (or the length).
pub open spec fn word_end_from(s: Seq<char>, i: int) -> int
    decreases s.len() - i,
{
    if 0 <= i < s.len() && !is_ascii_ws(s[i]) {
        word_end_from(s, i + 1)
    } else {
        i
    }
}

/// The first word of `s` when split at ASCII whitespace; empty if there is none.
pub open spec fn first_word(s: Seq<char>) -> Seq<char> {
    let a = skip_ws_from(s, 0);
    s.subrange(a, word_end_from(s, a))
}

proof fn lemma_scan_bounds(s: Seq<char>, i: int)
    requires
        0 <= i <= s.len(),
    ensures
        i <= skip_ws_from(s, i) <= s.len(),
        i <= word_end_from(s, i) <= s.len(),
    decreases s.len() - i,
{
    if i < s.len() {
        lemma_scan_bounds(s, i + 1);
    }
}

fn is_ws(c: char) -> (r: bool)
    ensures
        r == is_ascii_ws(c),
{
    c == ' ' || c == '\t' || c == '\n' || c == '\x0C' || c == '\r'
}

/// The first word of `s` when split at ASCII whitespace, as characters.
pub fn first_word_chars(s: &str) -> (r: Vec<char>)
    ensures
        r@ == first_word(s@),
{
    let v = chars_of(s);
    let n = v.len();
    let mut a: usize = 0;
    proof {
        lemma_scan_bounds(s@, 0);
    }
    while a < n && is_ws(v[a])
        invariant
            v@ == s@,
            n == s@.len(),
            a <= n,
            skip_ws_from(s@, a as int) == skip_ws_from(s@, 0),
        decreases n - a,
    {
        a += 1;
    }
    let mut b: usize = a;
    let mut w: Vec<char> = Vec::new();
    while b < n && !is_ws(v[b])
        invariant
            v@ == s@,
            n == s@.len(),
            a <= b <= n,
            a == skip_ws_from(s@, 0),
            word_end_from(s@, b as int) == word_end_from(s@, a as int),
            w@ == s@.subrange(a as int, b as int),
        decreases n - b,
    {
        w.push(v[b]);
        b += 1;
        proof {
            assert(w@ =~= s@.subrange(a as int, b as int));
        }
    }
    w
}

/// Whether the characters `v` spell `lit`.
pub fn chars_eq(v: &Vec<char>, lit: &str) -> (r: bool)
    ensures
        r == (v@ == lit@),
{
    let l = chars_of(lit);
    if v.len() != l.len() {
        return false;
    }
    let mut i: usize = 0;
    while i < v.len()
        invariant
            l@ == lit@,
            v@.len() == l@.len(),
            i <= v@.len(),
            forall|j: int| 0 <= j < i ==> v@[j] == l@[j],
        decreases v.len() - i,
    {
        if v[i] != l[i] {
            return false;
        }
        i += 1;
    }
    proof {
        assert(v@ =~= l@);
    }
    true
}

/// Whether two strings hold the same characters.
pub fn str_eq(a: &str, b: &str) -> (r: bool)
    ensures
        r == (a@ == b@),
{
    String::from_str(a) == String::from_str(b)
}

/// Whether an optional attribute value holds `needle`.
pub fn opt_contains(o: &Option<String>, needle: &str) -> (r: bool)
    ensures
        r == (o is Some && seq_contains(o->Some_0@, needle@)),
{
    match o {
        Some(s) => str_contains(s.as_str(), needle),
        None => false,
    }
}

/// Whether an optional attribute value is exactly `v`.
pub fn opt_eq(o: &Option<String>, v: &str) -> (r: bool)
    ensures
        r == (o is Some && o->Some_0@ == v@),
{
    match o {
        Some(s) => str_eq(s.as_str(), v),
        None => false,
    }
}

} // verus!
