//! Plain text helpers shared by the formatters and the response renderer.

use vstd::prelude::*;

verus! {

/// The character views of a sequence of strings.
pub open spec fn views(v: Seq<String>) -> Seq<Seq<char>> {
    v.map_values(|s: String| s@)
}

/// `parts` joined with `sep` between each two neighbours.
pub open spec fn join(parts: Seq<Seq<char>>, sep: Seq<char>) -> Seq<char>
    decreases parts.len(),
{
    if parts.len() == 0 {
        Seq::empty()
    } else if parts.len() == 1 {
        parts[0]
    } else {
        join(parts.drop_last(), sep) + sep + parts.last()
    }
}

/// Joins the strings of `parts` with `sep` between each two neighbours.
pub fn join_strings(parts: &Vec<String>, sep: &str) -> (r: String)
    ensures
        r@ == join(views(parts@), sep@),
{
    let mut r = String::new();
    let n = parts.len();
    let mut i: usize = 0;
    while i < n
        invariant
            n == parts@.len(),
            i <= n,
            r@ == join(views(parts@).take(i as int), sep@),
        decreases n - i,
    {
        proof {
            let vs = views(parts@);
            assert(vs.take(i + 1).drop_last() =~= vs.take(i as int));
        }
        if i > 0 {
            r.append(sep);
        }
        r.append(parts[i].as_str());
        i = i + 1;
    }
    proof {
        assert(views(parts@).take(n as int) =~= views(parts@));
    }
    r
}

/// The concatenation of the sequences of `parts`, in order.
pub open spec fn concat_all<A>(parts: Seq<Seq<A>>) -> Seq<A>
    decreases parts.len(),
{
    if parts.len() == 0 {
        Seq::empty()
    } else {
        concat_all(parts.drop_last()) + parts.last()
    }
}

/// The character views of each list of a list of lists of strings.
pub open spec fn nested_views(v: Seq<Vec<String>>) -> Seq<Seq<Seq<char>>> {
    v.map_values(|e: Vec<String>| views(e@))
}

/// The strings of `parts`, one after another.
pub fn concat_strings(parts: &Vec<String>) -> (r: String)
    ensures
        r@ == concat_all(views(parts@)),
{
    let mut r = String::new();
    let n = parts.len();
    let mut i: usize = 0;
    while i < n
        invariant
            n == parts@.len(),
            i <= n,
            r@ == concat_all(views(parts@).take(i as int)),
        decreases n - i,
    {
        proof {
            let vs = views(parts@);
            assert(vs.take(i + 1).drop_last() =~= vs.take(i as int));
        }
        r.append(parts[i].as_str());
        i = i + 1;
    }
    proof {
        assert(views(parts@).take(n as int) =~= views(parts@));
    }
    r
}

/// The strings of the lists of `lists`, one list after another.
pub fn flatten_strings(lists: &Vec<Vec<String>>) -> (r: Vec<String>)
    ensures
        views(r@) == concat_all(nested_views(lists@)),
{
    let mut r: Vec<String> = Vec::new();
    let n = lists.len();
    let mut i: usize = 0;
    while i < n
        invariant
            n == lists@.len(),
            i <= n,
            views(r@) =~= concat_all(nested_views(lists@).take(i as int)),
        decreases n - i,
    {
        let inner = &lists[i];
        let m = inner.len();
        let ghost start = views(r@);
        let mut j: usize = 0;
        while j < m
            invariant
                m == inner@.len(),
                j <= m,
                views(r@) =~= start + views(inner@).take(j as int),
            decreases m - j,
        {
            let ghost before = r@;
            r.push(inner[j].clone());
            proof {
                let vs = views(inner@);
                assert(vs.take(j + 1) =~= vs.take(j as int).push(vs[j as int]));
                assert(views(r@) =~= views(before).push(inner@[j as int]@));
            }
            j = j + 1;
        }
        proof {
            let ns = nested_views(lists@);
            assert(ns.take(i + 1).drop_last() =~= ns.take(i as int));
            assert(views(inner@).take(m as int) =~= views(inner@));
            assert(ns.take(i + 1).last() == views(inner@));
        }
        i = i + 1;
    }
    proof {
        assert(nested_views(lists@).take(n as int) =~= nested_views(lists@));
    }
    r
}

/// Whether `c` has the Unicode White_Space property.
pub open spec fn is_white_space(c: char) -> bool {
    let x = c as u32;
    ||| 0x9 <= x && x <= 0xd
    ||| x == 0x20
    ||| x == 0x85
    ||| x == 0xa0
    ||| x == 0x1680
    ||| 0x2000 <= x && x <= 0x200a
    ||| x == 0x2028
    ||| x == 0x2029
    ||| x == 0x202f
    ||| x == 0x205f
    ||| x == 0x3000
}

/// `s` without its leading whitespace.
pub open spec fn trim_start(s: Seq<char>) -> Seq<char>
    decreases s.len(),
{
    if s.len() > 0 && is_white_space(s[0]) {
        trim_start(s.drop_first())
    } else {
        s
    }
}

/// `s` without its trailing whitespace.
pub open spec fn trim_end(s: Seq<char>) -> Seq<char>
    decreases s.len(),
{
    if s.len() > 0 && is_white_space(s.last()) {
        trim_end(s.drop_last())
    } else {
        s
    }
}

/// `s` without leading and trailing whitespace.
pub open spec fn trimmed(s: Seq<char>) -> Seq<char> {
    trim_end(trim_start(s))
}

/// Relies on str::trim: `s` with leading and trailing whitespace removed,
/// whitespace being the characters with the Unicode White_Space property.
#[verifier::external_body]
pub(crate) fn trim(s: &str) -> (r: String)
    ensures
        r@ == trimmed(s@),
{
    s.trim().to_string()
}

/// Relies on str::replace with a character pattern and an empty
/// replacement: every occurrence of `c` is removed.
#[verifier::external_body]
pub(crate) fn remove_char(s: &str, c: char) -> (r: String)
    ensures
        r@ == s@.filter(|x: char| x != c),
{
    s.replace(c, "")
}

/// Whether `pat` occurs in `s` at position `i`.
pub open spec fn occurs_at(s: Seq<char>, pat: Seq<char>, i: int) -> bool {
    0 <= i && i + pat.len() <= s.len() && s.subrange(i, i + pat.len()) == pat
}

/// The pieces of `s` between the non-overlapping occurrences of `pat`,
/// found from the left: the piece before the first occurrence, then the
/// pieces of what follows it.
#[verifier::opaque]
pub open spec fn split_parts(s: Seq<char>, pat: Seq<char>) -> Seq<Seq<char>>
    decreases s.len(),
{
    if pat.len() > 0 && exists|i: int| occurs_at(s, pat, i) {
        let i = choose|i: int|
            occurs_at(s, pat, i) && forall|j: int| 0 <= j < i ==> !occurs_at(s, pat, j);
        if 0 <= i && i + pat.len() <= s.len() {
            seq![s.take(i)] + split_parts(s.skip(i + pat.len()), pat)
        } else {
            seq![s]
        }
    } else {
        seq![s]
    }
}

/// Relies on str::split with a non-empty string pattern: the substrings
/// between the matches of `pat`, which are found from the left and do not
/// overlap.
#[verifier::external_body]
pub(crate) fn split(s: &str, pat: &str) -> (r: Vec<String>)
    requires
        pat@.len() > 0,
    ensures
        views(r@) == split_parts(s@, pat@),
{
    s.split(pat).map(|x| x.to_string()).collect()
}

} // verus!
