use vstd::prelude::*;
use crate::topology::{Interaction, succ, row, schedule_upto, schedule};

verus! {

/// Exact sum of two plane vectors.
pub open spec fn vadd(p: (int, int), q: (int, int)) -> (int, int) {
    (p.0 + q.0, p.1 + q.1)
}

/// Exact difference of two plane vectors.
pub open spec fn vsub(p: (int, int), q: (int, int)) -> (int, int) {
    (p.0 - q.0, p.1 - q.1)
}

/// The velocities after one pairwise term hands impulse `d` to its first particle and
/// takes it from its second one.
pub open spec fn apply_term(v: Seq<(int, int)>, x: Interaction, d: (int, int)) -> Seq<(int, int)> {
    let p = x.first() as int;
    let q = x.second() as int;
    let v1 = v.update(p, vadd(v[p], d));
    v1.update(q, vsub(v1[q], d))
}

/// The velocities after the terms `xs` are applied in order, term `k` with impulse `ds[k]`.
pub open spec fn apply_terms(v: Seq<(int, int)>, xs: Seq<Interaction>, ds: Seq<(int, int)>) -> Seq<(int, int)>
    decreases xs.len(),
{
    if xs.len() == 0 {
        v
    } else {
        let k = xs.len() - 1;
        apply_term(apply_terms(v, xs.take(k), ds), xs[k], ds[k])
    }
}

/// The sum of all vectors of `v`: the total momentum of particles of unit mass.
pub open spec fn total(v: Seq<(int, int)>) -> (int, int)
    decreases v.len(),
{
    if v.len() == 0 {
        (0, 0)
    } else {
        vadd(total(v.drop_last()), v.last())
    }
}

/// Whether `x` is one of the terms of a ring of `n` particles among the rows of its
/// first `k` particles: a repulsion between two distinct particles, the later one first,
/// or the tension of an edge from a particle to its cyclic successor.
pub open spec fn term_of(x: Interaction, k: nat, n: nat) -> bool {
    match x {
        Interaction::Repel { a, b } => b < a && a < k,
        Interaction::Tension { i, next } => i < k && next as nat == succ(i as nat, n),
    }
}

proof fn lemma_total_update(v: Seq<(int, int)>, p: int, w: (int, int))
    requires
        0 <= p < v.len(),
    ensures
        total(v.update(p, w)) == vadd(vsub(total(v), v[p]), w),
    decreases v.len(),
{
    let u = v.update(p, w);
    if p == v.len() - 1 {
        assert(u.drop_last() =~= v.drop_last());
    } else {
        lemma_total_update(v.drop_last(), p, w);
        assert(u.drop_last() =~= v.drop_last().update(p, w));
    }
}

proof fn lemma_schedule_upto_terms(k: nat, n: nat)
    requires
        k <= n,
        n <= usize::MAX,
    ensures
        forall|x: Interaction| schedule_upto(k, n).contains(x) <==> term_of(x, k, n),
    decreases k,
{
    if k > 0 {
        let j = (k - 1) as nat;
        lemma_schedule_upto_terms(j, n);
        let prev = schedule_upto(j, n);
        let r = row(j, n);
        let s = schedule_upto(k, n);
        assert(s == prev + r);
        vstd::arithmetic::div_mod::lemma_mod_bound((j + 1) as int, n as int);
        assert forall|x: Interaction| s.contains(x) <==> term_of(x, k, n) by {
            if s.contains(x) {
                let t = choose|t: int| 0 <= t < s.len() && s[t] == x;
                if t < prev.len() {
                    assert(prev[t] == x);
                    assert(prev.contains(x));
                    assert(term_of(x, j, n));
                } else {
                    let m = t - prev.len();
                    assert(r[m] == x);
                    if m < j {
                        assert(r[m] == Interaction::Repel { a: j as usize, b: m as usize });
                    } else {
                        assert(r[m] == Interaction::Tension { i: j as usize, next: succ(j, n) as usize });
                    }
                }
            }
            if term_of(x, k, n) {
                match x {
                    Interaction::Repel { a, b } => {
                        if (a as nat) < j {
                            assert(term_of(x, j, n));
                            let t = choose|t: int| 0 <= t < prev.len() && prev[t] == x;
                            assert(s[t] == x);
                            assert(s.contains(x));
                        } else {
                            assert(r[b as int] == x);
                            assert(s[prev.len() + b] == x);
                            assert(s.contains(x));
                        }
                    },
                    Interaction::Tension { i, next } => {
                        if (i as nat) < j {
                            assert(term_of(x, j, n));
                            let t = choose|t: int| 0 <= t < prev.len() && prev[t] == x;
                            assert(s[t] == x);
                            assert(s.contains(x));
                        } else {
                            assert(r[j as int] == x);
                            assert(s[prev.len() + j as int] == x);
                            assert(s.contains(x));
                        }
                    },
                }
            }
        }
    }
}

/// The terms of one tick of a ring of `n` particles are exactly: one repulsion for each
/// unordered pair of distinct particles, and one tension for each particle's edge to its
/// cyclic successor. Every particle a term touches is on the ring.
pub proof fn lemma_schedule_terms(n: nat)
    requires
        n <= usize::MAX,
    ensures
        forall|x: Interaction| schedule(n).contains(x) <==> term_of(x, n, n),
        forall|x: Interaction| #[trigger] schedule(n).contains(x) ==> x.first() < n && x.second() < n,
{
    lemma_schedule_upto_terms(n, n);
    assert forall|x: Interaction| #[trigger] schedule(n).contains(x) implies x.first() < n && x.second() < n by {
        assert(term_of(x, n, n));
        if let Interaction::Tension { i, next } = x {
            vstd::arithmetic::div_mod::lemma_mod_bound((i + 1) as int, n as int);
        }
    }
}

/// A pairwise term gives its first particle impulse `d` and its second one exactly `-d`,
/// and leaves every other particle as it was; the term of a particle with itself leaves
/// it as it was.
pub proof fn lemma_term_antisymmetric(v: Seq<(int, int)>, x: Interaction, d: (int, int))
    requires
        x.first() < v.len(),
        x.second() < v.len(),
    ensures
        apply_term(v, x, d).len() == v.len(),
        x.first() != x.second() ==> apply_term(v, x, d)[x.first() as int] == vadd(v[x.first() as int], d),
        x.first() != x.second() ==> apply_term(v, x, d)[x.second() as int] == vsub(v[x.second() as int], d),
        x.first() == x.second() ==> apply_term(v, x, d) == v,
        forall|j: int| 0 <= j < v.len() && j != x.first() && j != x.second()
            ==> #[trigger] apply_term(v, x, d)[j] == v[j],
{
    if x.first() == x.second() {
        assert(apply_term(v, x, d) =~= v);
    }
}

/// Pairwise terms move no momentum in or out: whatever the impulses, the sum of all
/// velocities is the same after the terms as before.
pub proof fn lemma_terms_conserve(v: Seq<(int, int)>, xs: Seq<Interaction>, ds: Seq<(int, int)>)
    requires
        ds.len() >= xs.len(),
        forall|k: int| 0 <= k < xs.len() ==> (#[trigger] xs[k]).first() < v.len() && xs[k].second() < v.len(),
    ensures
        apply_terms(v, xs, ds).len() == v.len(),
        total(apply_terms(v, xs, ds)) == total(v),
    decreases xs.len(),
{
    if xs.len() > 0 {
        let k = xs.len() - 1;
        let pre = xs.take(k);
        assert forall|j: int| 0 <= j < pre.len() implies (#[trigger] pre[j]).first() < v.len() && pre[j].second() < v.len() by {
            assert(pre[j] == xs[j]);
        }
        lemma_terms_conserve(v, pre, ds);
        let w = apply_terms(v, pre, ds);
        let x = xs[k];
        let d = ds[k];
        let p = x.first() as int;
        let q = x.second() as int;
        let w1 = w.update(p, vadd(w[p], d));
        lemma_total_update(w, p, vadd(w[p], d));
        lemma_total_update(w1, q, vsub(w1[q], d));
    }
}

/// Over one whole tick, the repulsion and tension terms together leave the sum of all
/// velocities of the ring unchanged: the velocity changes they make sum to zero.
pub proof fn lemma_tick_conserves_momentum(v: Seq<(int, int)>, ds: Seq<(int, int)>)
    requires
        v.len() <= usize::MAX,
        ds.len() == schedule(v.len()).len(),
    ensures
        total(apply_terms(v, schedule(v.len()), ds)) == total(v),
{
    let xs = schedule(v.len());
    lemma_schedule_terms(v.len());
    assert forall|k: int| 0 <= k < xs.len() implies (#[trigger] xs[k]).first() < v.len() && xs[k].second() < v.len() by {
        assert(xs.contains(xs[k]));
    }
    lemma_terms_conserve(v, xs, ds);
}

/// A ring of one particle has a single term, the tension of its edge to itself, and that
/// term leaves its velocity as it was.
pub proof fn lemma_single_particle(v: Seq<(int, int)>, ds: Seq<(int, int)>)
    requires
        v.len() == 1,
        ds.len() == 1,
    ensures
        schedule(1) == seq![Interaction::Tension { i: 0, next: 0 }],
        apply_terms(v, schedule(1), ds) == v,
{
    assert(succ(0, 1) == 0);
    assert(row(0, 1) =~= seq![Interaction::Tension { i: 0, next: 0 }]);
    assert(schedule_upto(0, 1) =~= Seq::<Interaction>::empty());
    assert(schedule_upto(1, 1) == schedule_upto(0, 1) + row(0, 1));
    assert(schedule(1) =~= seq![Interaction::Tension { i: 0, next: 0 }]);
    let xs = schedule(1);
    assert(xs.take(0) =~= Seq::<Interaction>::empty());
    assert(apply_terms(v, xs.take(0), ds) == v);
    lemma_term_antisymmetric(v, xs[0], ds[0]);
}

} // verus!
