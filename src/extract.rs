//! Pulling a JSON object out of free text: bare, fenced, or inside prose.

use vstd::prelude::*;
use crate::text::{
    chars_of, string_of, skip_spaces, skip_spaces_back, trim, trim_start, lemma_lead_spaces_bound,
    lemma_trail_spaces_bound,
};

verus! {

#[derive(Debug, Clone, Copy, PartialEq, Eq, Structural)]
pub enum ExtractError {
    /// No `{` in the text.
    NoObjectStart,
    /// No `}` in the text.
    NoObjectEnd,
    /// The last `}` comes before the first `{`.
    BadBounds,
}

/// `p` occurs in `s` at index `i`.
pub open spec fn occurs_at(s: Seq<char>, p: Seq<char>, i: int) -> bool {
    0 <= i && i + p.len() <= s.len() && s.subrange(i, i + p.len()) == p
}

/// The first index from `i` on where `p` occurs in `s`.
pub open spec fn find_from(s: Seq<char>, p: Seq<char>, i: int) -> Option<int>
    decreases s.len() + 1 - i,
{
    if i < 0 || i + p.len() > s.len() {
        None
    } else if occurs_at(s, p, i) {
        Some(i)
    } else {
        find_from(s, p, i + 1)
    }
}

/// The last index before `j` that holds `c`.
pub open spec fn rfind_before(s: Seq<char>, c: char, j: int) -> Option<int>
    decreases j,
{
    if j <= 0 || j > s.len() {
        None
    } else if s[j - 1] == c {
        Some(j - 1)
    } else {
        rfind_before(s, c, j - 1)
    }
}

proof fn lemma_find_from(s: Seq<char>, p: Seq<char>, i: int)
    ensures
        find_from(s, p, i) matches Some(k) ==> occurs_at(s, p, k) && i <= k,
    decreases s.len() + 1 - i,
{
    if !(i < 0 || i + p.len() > s.len()) && !occurs_at(s, p, i) {
        lemma_find_from(s, p, i + 1);
    }
}

proof fn lemma_rfind_before(s: Seq<char>, c: char, j: int)
    ensures
        rfind_before(s, c, j) matches Some(k) ==> 0 <= k < j && j <= s.len(),
    decreases j,
{
    if !(j <= 0 || j > s.len()) && s[j - 1] != c {
        lemma_rfind_before(s, c, j - 1);
    }
}

pub open spec fn fence() -> Seq<char> {
    seq!['`', '`', '`']
}

pub open spec fn json_tag() -> Seq<char> {
    seq!['j', 's', 'o', 'n']
}

/// Starts with `{` and ends with `}`.
pub open spec fn braced(s: Seq<char>) -> bool {
    s.len() > 0 && s[0] == '{' && s.last() == '}'
}

/// The braced body of the first fenced block of `t`, if it has one.
pub open spec fn fenced_body(t: Seq<char>) -> Option<Seq<char>> {
    match find_from(t, fence(), 0) {
        None => None,
        Some(st) => {
            let after0 = t.subrange(st + 3, t.len() as int);
            let after1 = if occurs_at(after0, json_tag(), 0) {
                after0.subrange(4, after0.len() as int)
            } else {
                after0
            };
            let after = trim_start(after1);
            match find_from(after, fence(), 0) {
                None => None,
                Some(en) => {
                    let body = trim(after.subrange(0, en));
                    if braced(body) {
                        Some(body)
                    } else {
                        None
                    }
                },
            }
        },
    }
}

/// The JSON object in `input`: the trimmed text itself when it is braced;
/// else the braced body of its first fenced block; else the text from the
/// first `{` to the last `}`.
pub open spec fn extract_of(input: Seq<char>) -> Result<Seq<char>, ExtractError> {
    let t = trim(input);
    if braced(t) {
        Ok(t)
    } else {
        match fenced_body(t) {
            Some(b) => Ok(b),
            None => match find_from(t, seq!['{'], 0) {
                None => Err(ExtractError::NoObjectStart),
                Some(first) => match rfind_before(t, '}', t.len() as int) {
                    None => Err(ExtractError::NoObjectEnd),
                    Some(last) => if first >= last {
                        Err(ExtractError::BadBounds)
                    } else {
                        Ok(t.subrange(first, last + 1))
                    },
                },
            },
        }
    }
}

fn occurs_at_exec(s: &Vec<char>, p: &Vec<char>, i: usize) -> (r: bool)
    ensures
        r == occurs_at(s@, p@, i as int),
{
    if i > s.len() || p.len() > s.len() - i {
        return false;
    }
    let sl = s.len();
    let mut k: usize = 0;
    while k < p.len()
        invariant
            sl == s@.len(),
            i <= s@.len(),
            i + p@.len() <= s@.len(),
            k <= p@.len(),
            forall|n: int| 0 <= n < k ==> s@[i + n] == p@[n],
        decreases p.len() - k,
    {
        if s[i + k] != p[k] {
            assert(s@.subrange(i as int, i + p@.len())[k as int] != p@[k as int]);
            return false;
        }
        k += 1;
    }
    assert(s@.subrange(i as int, i + p@.len()) =~= p@);
    true
}

fn find_exec(s: &Vec<char>, p: &Vec<char>) -> (r: Option<usize>)
    ensures
        match r {
            Some(i) => find_from(s@, p@, 0) == Some(i as int),
            None => find_from(s@, p@, 0).is_none(),
        },
{
    let mut i: usize = 0;
    while i <= s.len()
        invariant
            find_from(s@, p@, 0) == find_from(s@, p@, i as int),
        decreases s.len() + 1 - i,
    {
        if occurs_at_exec(s, p, i) {
            return Some(i);
        }
        if i == s.len() || p.len() > s.len() - i {
            assert(find_from(s@, p@, i + 1).is_none());
            return None;
        }
        i += 1;
    }
    None
}

fn rfind_exec(s: &Vec<char>, c: char) -> (r: Option<usize>)
    ensures
        match r {
            Some(i) => rfind_before(s@, c, s@.len() as int) == Some(i as int),
            None => rfind_before(s@, c, s@.len() as int).is_none(),
        },
{
    let mut j: usize = s.len();
    while j > 0
        invariant
            j <= s@.len(),
            rfind_before(s@, c, s@.len() as int) == rfind_before(s@, c, j as int),
        decreases j,
    {
        if s[j - 1] == c {
            return Some(j - 1);
        }
        j -= 1;
    }
    None
}

fn sub_vec(v: &Vec<char>, from: usize, to: usize) -> (r: Vec<char>)
    requires
        from <= to <= v@.len(),
    ensures
        r@ == v@.subrange(from as int, to as int),
{
    let mut out: Vec<char> = Vec::new();
    let mut i = from;
    while i < to
        invariant
            from <= i <= to <= v@.len(),
            out@ == v@.subrange(from as int, i as int),
        decreases to - i,
    {
        out.push(v[i]);
        i += 1;
    }
    out
}

fn trimmed(v: &Vec<char>) -> (r: Vec<char>)
    ensures
        r@ == trim(v@),
{
    let n = v.len();
    let a = skip_spaces(v.as_slice(), 0, n);
    proof {
        assert(v@.subrange(0, n as int) =~= v@);
        lemma_lead_spaces_bound(v@);
    }
    let b = skip_spaces_back(v.as_slice(), a, n);
    proof {
        assert(v@.subrange(a as int, n as int) =~= trim_start(v@));
        lemma_trail_spaces_bound(trim_start(v@));
        assert(v@.subrange(a as int, b as int) =~= trim(v@));
    }
    sub_vec(v, a, b)
}

fn is_braced(v: &Vec<char>) -> (r: bool)
    ensures
        r == braced(v@),
{
    v.len() > 0 && v[0] == '{' && v[v.len() - 1] == '}'
}

fn fenced_body_exec(t: &Vec<char>) -> (r: Option<Vec<char>>)
    ensures
        match r {
            Some(b) => fenced_body(t@) == Some(b@),
            None => fenced_body(t@).is_none(),
        },
{
    let fence_v = vec!['`', '`', '`'];
    assert(fence_v@ =~= fence());
    let st = match find_exec(t, &fence_v) {
        Some(st) => st,
        None => {
            return None;
        },
    };
    let tl = t.len();
    proof {
        lemma_find_from(t@, fence(), 0);
        assert(fence().len() == 3);
    }
    let after0 = sub_vec(t, st + 3, t.len());
    let tag = vec!['j', 's', 'o', 'n'];
    assert(tag@ =~= json_tag());
    let after1 = if occurs_at_exec(&after0, &tag, 0) {
        sub_vec(&after0, 4, after0.len())
    } else {
        after0
    };
    let n = after1.len();
    let a = skip_spaces(after1.as_slice(), 0, n);
    proof {
        assert(after1@.subrange(0, n as int) =~= after1@);
        lemma_lead_spaces_bound(after1@);
    }
    let after = sub_vec(&after1, a, n);
    let en = match find_exec(&after, &fence_v) {
        Some(en) => en,
        None => {
            return None;
        },
    };
    proof {
        lemma_find_from(after@, fence(), 0);
    }
    let body = trimmed(&sub_vec(&after, 0, en));
    if is_braced(&body) {
        Some(body)
    } else {
        None
    }
}

/// The JSON object in a planner's reply (see `extract_of`).
pub fn extract_json_object(input: &str) -> (r: Result<String, ExtractError>)
    ensures
        match r {
            Ok(s) => extract_of(input@) == Ok::<Seq<char>, ExtractError>(s@),
            Err(e) => extract_of(input@) == Err::<Seq<char>, ExtractError>(e),
        },
{
    let t = trimmed(&chars_of(input));
    if is_braced(&t) {
        assert(t@.subrange(0, t@.len() as int) =~= t@);
        return Ok(string_of(t.as_slice(), 0, t.len()));
    }
    if let Some(b) = fenced_body_exec(&t) {
        assert(b@.subrange(0, b@.len() as int) =~= b@);
        return Ok(string_of(b.as_slice(), 0, b.len()));
    }
    let open = vec!['{'];
    assert(open@ =~= seq!['{']);
    let first = match find_exec(&t, &open) {
        Some(i) => i,
        None => {
            return Err(ExtractError::NoObjectStart);
        },
    };
    let last = match rfind_exec(&t, '}') {
        Some(j) => j,
        None => {
            return Err(ExtractError::NoObjectEnd);
        },
    };
    let tl = t.len();
    proof {
        lemma_rfind_before(t@, '}', t@.len() as int);
    }
    if first >= last {
        return Err(ExtractError::BadBounds);
    }
    Ok(string_of(t.as_slice(), first, last + 1))
}

/// Where `p` first occurs in `s`.
pub fn find_in(s: &str, p: &str) -> (r: Option<usize>)
    ensures
        match r {
            Some(i) => find_from(s@, p@, 0) == Some(i as int),
            None => find_from(s@, p@, 0).is_none(),
        },
{
    find_exec(&chars_of(s), &chars_of(p))
}

} // verus!
