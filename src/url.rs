use vstd::prelude::*;
use crate::strs::chars_of;
use vstd::string::{StrSliceExecFns, StringExecFns};

verus! {

/// The address of the documentation of crate `crate_name` in package
/// `package_name`, latest version.
pub fn get_docs_rs_url(package_name: &str, crate_name: &str) -> (r: String)
    ensures
        r@ == "https://docs.rs/"@ + package_name@ + "/*/"@ + crate_name@,
{
    let mut r = String::from_str("https://docs.rs/");
    r.append(package_name);
    r.append("/*/");
    r.append(crate_name);
    r
}

/// `s` from index `i` on, with each `::` (read left to right) turned into `/`.
pub open spec fn slashed_from(s: Seq<char>, i: int) -> Seq<char>
    decreases s.len() - i,
{
    if 0 <= i < s.len() {
        if i + 1 < s.len() && s[i] == ':' && s[i + 1] == ':' {
            seq!['/'] + slashed_from(s, i + 2)
        } else {
            seq![s[i]] + slashed_from(s, i + 1)
        }
    } else {
        Seq::empty()
    }
}

/// The first index from `i` on where `::` starts, or the length.
pub open spec fn sep_from(s: Seq<char>, i: int) -> int
    decreases s.len() - i,
{
    if 0 <= i && i + 1 < s.len() {
        if s[i] == ':' && s[i + 1] == ':' {
            i
        } else {
            sep_from(s, i + 1)
        }
    } else {
        s.len() as int
    }
}

proof fn lemma_sep_bounds(s: Seq<char>, i: int)
    requires
        0 <= i <= s.len(),
    ensures
        i <= sep_from(s, i) <= s.len(),
        sep_from(s, i) < s.len() ==> sep_from(s, i) + 1 < s.len(),
    decreases s.len() - i,
{
    if i + 1 < s.len() {
        lemma_sep_bounds(s, i + 1);
    }
}

/// Splits a path at its first `::`: the crate name, and the rest if there is one.
pub fn split_path(path: &str) -> (r: (String, Option<String>))
    ensures
        r.0@ == path@.take(sep_from(path@, 0)),
        r.1 is None <==> sep_from(path@, 0) == path@.len(),
        r.1 matches Some(rest) ==> rest@ == path@.skip(sep_from(path@, 0) + 2),
{
    let v = chars_of(path);
    let n = v.len();
    let mut i: usize = 0;
    proof {
        lemma_sep_bounds(path@, 0);
    }
    while n > 0 && i < n - 1 && !(v[i] == ':' && v[i + 1] == ':')
        invariant
            v@ == path@,
            n == path@.len(),
            i <= n,
            sep_from(path@, i as int) == sep_from(path@, 0),
        decreases n - i,
    {
        i += 1;
    }
    if n > 0 && i < n - 1 {
        let head = String::from_str(path.substring_char(0, i));
        let rest = String::from_str(path.substring_char(i + 2, n));
        proof {
            assert(rest@ =~= path@.skip(i + 2));
        }
        (head, Some(rest))
    } else {
        proof {
            assert(sep_from(path@, i as int) == n);
        }
        (String::from_str(path), None)
    }
}

/// The address of item `sub_path` (its parts joined by `::`) under `url`.
pub fn module_url(url: &str, sub_path: &str) -> (r: String)
    ensures
        r@ == url@ + "/"@ + slashed_from(sub_path@, 0),
{
    let v = chars_of(sub_path);
    let n = v.len();
    let mut r = String::from_str(url);
    r.append("/");
    proof {
        reveal_strlit("/");
    }
    let ghost base = url@ + "/"@;
    let mut i: usize = 0;
    while i < n
        invariant
            v@ == sub_path@,
            n == sub_path@.len(),
            i <= n + 1,
            r@ + slashed_from(sub_path@, i as int) == base + slashed_from(sub_path@, 0),
        decreases n + 1 - i,
    {
        let ghost before = r@;
        if i < n - 1 && v[i] == ':' && v[i + 1] == ':' {
            r.append("/");
            proof {
                reveal_strlit("/");
                assert(before + slashed_from(sub_path@, i as int) =~= r@ + slashed_from(
                    sub_path@,
                    i + 2,
                ));
            }
            i += 2;
        } else {
            r.append(sub_path.substring_char(i, i + 1));
            proof {
                assert(sub_path@.subrange(i as int, i + 1) =~= seq![sub_path@[i as int]]);
                assert(before + slashed_from(sub_path@, i as int) =~= r@ + slashed_from(
                    sub_path@,
                    i + 1,
                ));
            }
            i += 1;
        }
    }
    proof {
        assert(slashed_from(sub_path@, i as int) =~= Seq::<char>::empty());
        assert(r@ =~= r@ + slashed_from(sub_path@, i as int));
    }
    r
}

/// The address of the index page of a crate's documentation at `url`.
pub fn index_url(url: &str) -> (r: String)
    ensures
        r@ == url@ + "/index.html"@,
{
    let mut r = String::from_str(url);
    r.append("/index.html");
    r
}

/// The address of the list of all items of a crate's documentation at `url`.
pub fn all_items_url(url: &str) -> (r: String)
    ensures
        r@ == url@ + "/all.html"@,
{
    let mut r = String::from_str(url);
    r.append("/all.html");
    r
}

/// The address of a page that a link `href` of the item list at `url` names.
pub fn linked_url(url: &str, href: &str) -> (r: String)
    ensures
        r@ == url@ + "/"@ + href@,
{
    let mut r = String::from_str(url);
    r.append("/");
    r.append(href);
    r
}

} // verus!
