use vstd::prelude::*;
use vstd::string::*;

verus! {

/// The order in which an outline visits the particles of a ring of `n`: every particle
/// in sequence, then the first again to close the outline. An empty ring has no outline.
pub open spec fn outline_order(n: nat) -> Seq<usize> {
    if n == 0 {
        seq![]
    } else {
        Seq::new(n, |k: int| k as usize).push(0usize)
    }
}

/// The text of one point: its two coordinate texts separated by a single space.
pub open spec fn point_text(x: Seq<char>, y: Seq<char>) -> Seq<char> {
    x + seq![' '] + y
}

/// The points of `order` after the first, as `k` line-to segments: each point text
/// preceded by a single space.
pub open spec fn line_tos(c: Seq<Seq<char>>, order: Seq<usize>, k: nat) -> Seq<char>
    decreases k,
{
    if k <= 1 {
        seq![]
    } else {
        line_tos(c, order, (k - 1) as nat) + seq![' '] + c[order[k - 1] as int]
    }
}

/// The outline of a ring whose points have the texts `c`: a move-to the first point,
/// then a line-to each further point in order and back to the first point.
pub open spec fn path_text(c: Seq<Seq<char>>) -> Seq<char> {
    let order = outline_order(c.len());
    if c.len() == 0 {
        seq![]
    } else {
        seq!['M', ' '] + c[0] + line_tos(c, order, order.len())
    }
}

/// The indices that an outline of a ring of `n` particles visits: `n + 1` of them on a
/// non-empty ring, ending where they began.
pub fn outline_indices(n: usize) -> (r: Vec<usize>)
    requires
        n < usize::MAX,
    ensures
        r@ == outline_order(n as nat),
        n > 0 ==> r@.len() == n + 1 && r@[0] == 0 && r@[n as int] == 0,
{
    let mut r: Vec<usize> = Vec::new();
    if n == 0 {
        proof {
            assert(r@ =~= outline_order(0));
        }
        return r;
    }
    let mut k: usize = 0;
    while k < n
        invariant
            k <= n,
            r@ =~= Seq::new(k as nat, |j: int| j as usize),
        decreases n - k,
    {
        r.push(k);
        k += 1;
    }
    r.push(0);
    r
}

/// The text of a point from the texts of its coordinates: `x`, a space, then `y`.
pub fn point_to_string(x: &str, y: &str) -> (r: String)
    ensures
        r@ == point_text(x@, y@),
{
    proof {
        reveal_strlit(" ");
    }
    let mut s = String::from_str(x);
    s.append(" ");
    s.append(y);
    s
}

/// The outline of a ring as a path description, from the texts of its particles'
/// positions in ring order: `M`, the first point, each further point, and the first
/// point again, all separated by single spaces. An empty ring gives an empty text.
pub fn to_path(points: &Vec<String>) -> (r: String)
    ensures
        r@ == path_text(points@.map_values(|p: String| p@)),
{
    let ghost c = points@.map_values(|p: String| p@);
    let n = points.len();
    let mut s = String::new();
    if n == 0 {
        proof {
            assert(s@ =~= path_text(c));
        }
        return s;
    }
    proof {
        reveal_strlit("M ");
        reveal_strlit(" ");
    }
    s.append("M ");
    s.append(points[0].as_str());
    let ghost order = outline_order(n as nat);
    assert(s@ =~= seq!['M', ' '] + c[0] + line_tos(c, order, 1));
    let mut k: usize = 1;
    while k < n
        invariant
            1 <= k <= n,
            n == points.len(),
            n == c.len(),
            c == points@.map_values(|p: String| p@),
            order == outline_order(n as nat),
            s@ =~= seq!['M', ' '] + c[0] + line_tos(c, order, k as nat),
        decreases n - k,
    {
        proof {
            reveal_strlit(" ");
        }
        assert(order[k as int] == k);
        assert(points@[k as int]@ == c[k as int]);
        assert(line_tos(c, order, (k + 1) as nat) == line_tos(c, order, k as nat) + seq![' '] + c[k as int]);
        s.append(" ");
        s.append(points[k].as_str());
        k += 1;
    }
    proof {
        reveal_strlit(" ");
    }
    assert(order[n as int] == 0);
    assert(line_tos(c, order, (n + 1) as nat) == line_tos(c, order, n as nat) + seq![' '] + c[0]);
    s.append(" ");
    s.append(points[0].as_str());
    s
}

/// The outline depends on the particles' point texts alone: two serializations of a
/// ring that has not moved in between give the same text.
pub proof fn lemma_path_repeatable(a: Seq<String>, b: Seq<String>)
    requires
        a == b,
    ensures
        path_text(a.map_values(|p: String| p@)) == path_text(b.map_values(|p: String| p@)),
{
}

/// The outline of a non-empty ring of `n` particles visits `n + 1` points: each particle
/// once in ring order, then the first particle again.
pub proof fn lemma_outline_closed(n: nat)
    requires
        1 <= n <= usize::MAX,
    ensures
        outline_order(n).len() == n + 1,
        forall|k: int| 0 <= k < n ==> #[trigger] outline_order(n)[k] == k,
        outline_order(n)[n as int] == 0,
{
}

} // verus!
