//! Names derived from an endpoint's URL path.

use vstd::prelude::*;

verus! {

/// `s` without its leading slashes.
pub open spec fn trim_start_slashes(s: Seq<char>) -> Seq<char>
    decreases s.len(),
{
    if s.len() > 0 && s[0] == '/' {
        trim_start_slashes(s.drop_first())
    } else {
        s
    }
}

/// `s` without its trailing slashes.
pub open spec fn trim_end_slashes(s: Seq<char>) -> Seq<char>
    decreases s.len(),
{
    if s.len() > 0 && s.last() == '/' {
        trim_end_slashes(s.drop_last())
    } else {
        s
    }
}

/// `s` without its leading and trailing slashes.
pub open spec fn trim_slashes(s: Seq<char>) -> Seq<char> {
    trim_end_slashes(trim_start_slashes(s))
}

/// `s` with each slash replaced by a space.
pub open spec fn slashes_to_spaces(s: Seq<char>) -> Seq<char> {
    s.map_values(|c: char| if c == '/' { ' ' } else { c })
}

/// `s` without one trailing `s`, if it ends in one.
pub open spec fn singular(s: Seq<char>) -> Seq<char> {
    if s.len() > 0 && s.last() == 's' {
        s.drop_last()
    } else {
        s
    }
}

/// The key under which a fixed-shape response is placed: `/a/b/` gives `a b`.
pub open spec fn key_of(path: Seq<char>) -> Seq<char> {
    slashes_to_spaces(trim_slashes(path))
}

/// The prefix put before each key of an open-shaped response:
/// `/services` gives `service`.
pub open spec fn prefix_of(path: Seq<char>) -> Seq<char> {
    slashes_to_spaces(singular(trim_slashes(path)))
}

proof fn lemma_trim_start_step(s: Seq<char>, i: int)
    requires
        0 <= i < s.len(),
        s[i] == '/',
    ensures
        trim_start_slashes(s.subrange(i, s.len() as int)) == trim_start_slashes(
            s.subrange(i + 1, s.len() as int),
        ),
{
    assert(s.subrange(i, s.len() as int).drop_first() =~= s.subrange(i + 1, s.len() as int));
}

proof fn lemma_trim_end_step(s: Seq<char>, i: int, j: int)
    requires
        0 <= i < j <= s.len(),
        s[j - 1] == '/',
    ensures
        trim_end_slashes(s.subrange(i, j)) == trim_end_slashes(s.subrange(i, j - 1)),
{
    assert(s.subrange(i, j).drop_last() =~= s.subrange(i, j - 1));
}

/// The path without its leading and trailing slashes.
pub fn trim_slashes_of(path: &str) -> (r: &str)
    ensures
        r@ == trim_slashes(path@),
{
    let n = path.unicode_len();
    let mut i: usize = 0;
    assert(path@.subrange(0, n as int) =~= path@);
    while i < n && path.get_char(i) == '/'
        invariant
            i <= n,
            n == path@.len(),
            trim_start_slashes(path@) == trim_start_slashes(path@.subrange(i as int, n as int)),
        decreases n - i,
    {
        proof {
            lemma_trim_start_step(path@, i as int);
        }
        i = i + 1;
    }
    assert(trim_start_slashes(path@) == path@.subrange(i as int, n as int)) by {
        let t = path@.subrange(i as int, n as int);
        if i < n {
            assert(t[0] == path@[i as int]);
        }
    }
    let mut j: usize = n;
    while j > i && path.get_char(j - 1) == '/'
        invariant
            i <= j <= n,
            n == path@.len(),
            trim_start_slashes(path@) == path@.subrange(i as int, n as int),
            trim_slashes(path@) == trim_end_slashes(path@.subrange(i as int, j as int)),
        decreases j,
    {
        proof {
            lemma_trim_end_step(path@, i as int, j as int);
        }
        j = j - 1;
    }
    assert(trim_end_slashes(path@.subrange(i as int, j as int)) == path@.subrange(
        i as int,
        j as int,
    )) by {
        let t = path@.subrange(i as int, j as int);
        if i < j {
            assert(t.last() == path@[j - 1]);
        }
    }
    path.substring_char(i, j)
}

/// Copies `s` with each slash replaced by a space.
fn spaced(s: &str) -> (r: String)
    ensures
        r@ == slashes_to_spaces(s@),
{
    let n = s.unicode_len();
    let mut out = String::new();
    let mut k: usize = 0;
    while k < n
        invariant
            k <= n,
            n == s@.len(),
            out@ == slashes_to_spaces(s@.subrange(0, k as int)),
        decreases n - k,
    {
        let c = s.get_char(k);
        if c == '/' {
            out.append(" ");
        } else {
            out.append(s.substring_char(k, k + 1));
        }
        proof {
            reveal_strlit(" ");
            assert(slashes_to_spaces(s@.subrange(0, k + 1)) =~= slashes_to_spaces(
                s@.subrange(0, k as int),
            ) + seq![if c == '/' { ' ' } else { c }]);
        }
        k = k + 1;
    }
    assert(s@.subrange(0, n as int) =~= s@);
    out
}

/// The key that wraps a fixed-shape response fetched from `path`.
pub fn key_name(path: &str) -> (r: String)
    ensures
        r@ == key_of(path@),
{
    spaced(trim_slashes_of(path))
}

/// The prefix for the keys of an open-shaped response fetched from `path`.
pub fn prefix_name(path: &str) -> (r: String)
    ensures
        r@ == prefix_of(path@),
{
    let t = trim_slashes_of(path);
    let n = t.unicode_len();
    if n > 0 && t.get_char(n - 1) == 's' {
        spaced(t.substring_char(0, n - 1))
    } else {
        spaced(t)
    }
}

} // verus!
