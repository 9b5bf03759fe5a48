//! Recovering one JSON object from decorated text: fence stripping and the
//! brace-depth scan. The scan does not look inside string literals, so a brace
//! inside a JSON string counts like any other.
use vstd::prelude::*;
use crate::text::{chars_of, string_of, trim_bounds, trimmed};

verus! {

pub open spec fn fence() -> Seq<char> {
    seq!['`', '`', '`']
}

pub open spec fn json_fence() -> Seq<char> {
    seq!['`', '`', '`', 'j', 's', 'o', 'n']
}

pub open spec fn starts_with(s: Seq<char>, p: Seq<char>) -> bool {
    p.len() <= s.len() && s.take(p.len() as int) == p
}

pub open spec fn ends_with(s: Seq<char>, p: Seq<char>) -> bool {
    p.len() <= s.len() && s.skip(s.len() - p.len()) == p
}

/// `s` without a surrounding markdown code fence: a text that opens with
/// "```json" (or "```") and closes with "```" loses both and is trimmed;
/// any other text is kept as it is.
pub open spec fn strip_fence(s: Seq<char>) -> Seq<char> {
    if starts_with(s, json_fence()) && ends_with(s, fence()) {
        trimmed(s.subrange(7, s.len() - 3))
    } else if starts_with(s, fence()) && ends_with(s, fence()) && s.len() >= 6 {
        trimmed(s.subrange(3, s.len() - 3))
    } else {
        s
    }
}

/// The net brace depth of `s`: opening braces less closing ones.
pub open spec fn brace_depth(s: Seq<char>) -> int
    decreases s.len(),
{
    if s.len() == 0 {
        0
    } else {
        brace_depth(s.drop_last()) + brace_step(s.last())
    }
}

pub open spec fn brace_step(c: char) -> int {
    if c == '{' {
        1
    } else if c == '}' {
        -1
    } else {
        0
    }
}

/// `a` is the position of the first opening brace of `s`.
pub open spec fn first_open(s: Seq<char>, a: int) -> bool {
    0 <= a < s.len() && s[a] == '{' && forall|k: int| 0 <= k < a ==> s[k] != '{'
}

/// The span `s[a..j]` starting at an opening brace is balanced.
pub open spec fn closes_at(s: Seq<char>, a: int, j: int) -> bool {
    a < j <= s.len() && brace_depth(s.subrange(a, j)) == 0
}

/// The first balanced `{...}` span of `s`, as the positions of its first
/// character and one past its last: it starts at the first opening brace and
/// ends where the depth counted from there first returns to zero.
pub closed spec fn object_span(s: Seq<char>) -> Option<(int, int)> {
    if exists|a: int| first_open(s, a) {
        let a = choose|a: int| first_open(s, a);
        if exists|j: int| closes_at(s, a, j) {
            let j = choose|j: int|
                closes_at(s, a, j) && forall|k: int| a < k < j ==> !closes_at(s, a, k);
            Some((a, j))
        } else {
            None
        }
    } else {
        None
    }
}

/// The first balanced `{...}` span of `s`, as text.
pub open spec fn object_text(s: Seq<char>) -> Option<Seq<char>> {
    match object_span(s) {
        Some((a, j)) => Some(s.subrange(a, j)),
        None => None,
    }
}

proof fn lemma_depth_push(s: Seq<char>, a: int, i: int)
    requires
        0 <= a <= i < s.len(),
    ensures
        brace_depth(s.subrange(a, i + 1)) == brace_depth(s.subrange(a, i)) + brace_step(s[i]),
{
    assert(s.subrange(a, i + 1).drop_last() =~= s.subrange(a, i));
}

proof fn lemma_first_open_unique(s: Seq<char>, a: int, b: int)
    requires
        first_open(s, a),
        first_open(s, b),
    ensures
        a == b,
{
    if a < b {
        assert(s[a] != '{');
    } else if b < a {
        assert(s[b] != '{');
    }
}

proof fn lemma_least_close(s: Seq<char>, a: int, j: int)
    requires
        first_open(s, a),
        closes_at(s, a, j),
        forall|k: int| a < k < j ==> !closes_at(s, a, k),
    ensures
        object_span(s) == Some((a, j)),
{
    let a2 = choose|x: int| first_open(s, x);
    lemma_first_open_unique(s, a, a2);
    let j2 = choose|x: int| closes_at(s, a, x) && forall|k: int| a < k < x ==> !closes_at(s, a, k);
    if j2 < j {
        assert(!closes_at(s, a, j2));
    } else if j < j2 {
        assert(!closes_at(s, a, j));
    }
}

/// Positions `(lo, hi)` of `cs[from..to]` once a surrounding code fence is removed.
pub fn strip_fence_bounds(cs: &Vec<char>) -> (r: (usize, usize))
    ensures
        r.0 <= r.1 <= cs@.len(),
        cs@.subrange(r.0 as int, r.1 as int) == strip_fence(cs@),
{
    let n = cs.len();
    let opens = n >= 3 && cs[0] == '`' && cs[1] == '`' && cs[2] == '`';
    let closes = n >= 3 && cs[n - 3] == '`' && cs[n - 2] == '`' && cs[n - 1] == '`';
    let tagged = opens && n >= 7 && cs[3] == 'j' && cs[4] == 's' && cs[5] == 'o' && cs[6] == 'n';
    proof {
        let s = cs@;
        assert(opens == starts_with(s, fence())) by {
            if n >= 3 {
                assert(s.take(3) == fence() <==> (s[0] == '`' && s[1] == '`' && s[2] == '`')) by {
                    if s[0] == '`' && s[1] == '`' && s[2] == '`' {
                        assert(s.take(3) =~= fence());
                    }
                }
            }
        }
        assert(closes == ends_with(s, fence())) by {
            if n >= 3 {
                if s[n - 3] == '`' && s[n - 2] == '`' && s[n - 1] == '`' {
                    assert(s.skip(n - 3) =~= fence());
                } else {
                    assert(s.skip(n - 3)[0] == s[n - 3]);
                    assert(s.skip(n - 3)[1] == s[n - 2]);
                    assert(s.skip(n - 3)[2] == s[n - 1]);
                }
            }
        }
        assert(tagged == starts_with(s, json_fence())) by {
            if n >= 7 {
                if tagged {
                    assert(s.take(7) =~= json_fence());
                } else {
                    assert(s.take(7)[0] == s[0]);
                    assert(s.take(7)[1] == s[1]);
                    assert(s.take(7)[2] == s[2]);
                    assert(s.take(7)[3] == s[3]);
                    assert(s.take(7)[4] == s[4]);
                    assert(s.take(7)[5] == s[5]);
                    assert(s.take(7)[6] == s[6]);
                }
            }
        }
    }
    if tagged && closes && n >= 10 {
        trim_bounds(cs, 7, n - 3)
    } else if tagged && closes {
        proof {
            // A text that opens with the tagged fence and closes with a plain one has at least ten characters.
            if n == 7 {
                assert(cs@[6] == 'n');
            } else if n == 8 {
                assert(cs@[6] == 'n');
            } else {
                assert(cs@[6] == 'n');
            }
        }
        (0, n)
    } else if opens && closes && n >= 6 {
        trim_bounds(cs, 3, n - 3)
    } else {
        assert(cs@.subrange(0, n as int) =~= cs@);
        (0, n)
    }
}

/// The first balanced `{...}` span of `cs`, by a single brace-depth scan.
pub fn object_bounds(cs: &Vec<char>) -> (r: Option<(usize, usize)>)
    ensures
        r matches Some((a, j)) ==> object_span(cs@) == Some((a as int, j as int)) && a < j
            <= cs@.len(),
        r is None ==> object_span(cs@) is None,
{
    let ghost s = cs@;
    let mut i: usize = 0;
    let mut start: Option<usize> = None;
    let mut depth: usize = 0;
    while i < cs.len()
        invariant
            i <= s.len(),
            s == cs@,
            start is None ==> depth == 0 && forall|k: int| 0 <= k < i ==> s[k] != '{',
            start matches Some(a) ==> {
                &&& first_open(s, a as int)
                &&& a < i
                &&& depth == brace_depth(s.subrange(a as int, i as int))
                &&& 0 < depth <= i - a
                &&& forall|k: int| a < k <= i ==> !closes_at(s, a as int, k)
            },
        decreases s.len() - i,
    {
        let c = cs[i];
        match start {
            None => {
                if c == '{' {
                    proof {
                        lemma_depth_push(s, i as int, i as int);
                        assert(s.subrange(i as int, i as int).len() == 0);
                    }
                    start = Some(i);
                    depth = 1;
                }
            },
            Some(a) => {
                proof {
                    lemma_depth_push(s, a as int, i as int);
                }
                if c == '{' {
                    depth = depth + 1;
                } else if c == '}' {
                    depth = depth - 1;
                    if depth == 0 {
                        assert(closes_at(s, a as int, i + 1));
                        proof {
                            lemma_least_close(s, a as int, i + 1);
                        }
                        return Some((a, i + 1));
                    }
                }
            },
        }
        proof {
            if let Some(a) = start {
                assert(!closes_at(s, a as int, i + 1));
            }
        }
        i = i + 1;
    }
    proof {
        match start {
            None => {
                assert(!exists|a: int| first_open(s, a));
            },
            Some(a) => {
                let a2 = choose|x: int| first_open(s, x);
                lemma_first_open_unique(s, a as int, a2);
            },
        }
    }
    None
}

/// The text of the first balanced `{...}` span of `text`, if there is one.
pub fn extract_json_object(text: &str) -> (r: Option<String>)
    ensures
        match object_text(text@) {
            Some(t) => r matches Some(x) && x@ == t,
            None => r is None,
        },
{
    let cs = chars_of(text);
    match object_bounds(&cs) {
        Some((a, j)) => {
            let r = string_of(&cs, a, j);
            assert(object_text(text@) == Some(r@));
            Some(r)
        },
        None => None,
    }
}

/// `text` with a surrounding markdown code fence removed.
pub fn strip_code_fence(text: &str) -> (r: String)
    ensures
        r@ == strip_fence(text@),
{
    let cs = chars_of(text);
    let (lo, hi) = strip_fence_bounds(&cs);
    string_of(&cs, lo, hi)
}

/// `obj` is one complete object: it opens with a brace and its depth returns
/// to zero at its end and nowhere before.
pub open spec fn single_object(obj: Seq<char>) -> bool {
    &&& obj.len() > 0
    &&& obj[0] == '{'
    &&& brace_depth(obj) == 0
    &&& forall|j: int| 0 < j < obj.len() ==> brace_depth(#[trigger] obj.take(j)) != 0
}

/// A complete object set among commentary, with no opening brace before it,
/// is recovered exactly: the extracted text is the object itself, whatever
/// follows it.
pub proof fn lemma_embedded_object_recovered(pre: Seq<char>, obj: Seq<char>, post: Seq<char>)
    requires
        forall|k: int| 0 <= k < pre.len() ==> pre[k] != '{',
        single_object(obj),
    ensures
        object_text(pre + obj + post) == Some(obj),
{
    let s = pre + obj + post;
    let a = pre.len() as int;
    let e = a + obj.len();
    assert(s[a] == obj[0]);
    assert(first_open(s, a));
    assert(s.subrange(a, e) =~= obj);
    assert forall|k: int| a < k < e implies !closes_at(s, a, k) by {
        assert(s.subrange(a, k) =~= obj.take(k - a));
    }
    lemma_least_close(s, a, e);
}

/// Text whose first object is cut off before its braces balance, or that
/// holds no opening brace at all, has no object to extract.
pub proof fn lemma_unbalanced_object_not_found(pre: Seq<char>, partial: Seq<char>)
    requires
        forall|k: int| 0 <= k < pre.len() ==> pre[k] != '{',
        partial.len() == 0 || partial[0] == '{',
        forall|j: int| 0 < j <= partial.len() ==> brace_depth(#[trigger] partial.take(j)) > 0,
    ensures
        object_text(pre + partial) is None,
{
    let s = pre + partial;
    let a = pre.len() as int;
    if partial.len() == 0 {
        assert(s =~= pre);
        assert(!exists|x: int| first_open(s, x));
    } else {
        assert(s[a] == partial[0]);
        assert(first_open(s, a));
        assert forall|x: int| first_open(s, x) implies x == a by {
            lemma_first_open_unique(s, x, a);
        }
        assert forall|j: int| !closes_at(s, a, j) by {
            if a < j <= s.len() {
                assert(s.subrange(a, j) =~= partial.take(j - a));
            }
        }
    }
}

} // verus!
