use vstd::prelude::*;

verus! {

/// The index of the particle that follows `i` on a closed ring of `n` particles.
pub open spec fn succ(i: nat, n: nat) -> nat {
    (i + 1) % n
}

/// The cyclic successor of particle `i` on a ring of `n` particles: `n - 1` wraps to `0`,
/// and on a ring of one particle the successor is the particle itself.
pub fn successor(i: usize, n: usize) -> (r: usize)
    requires
        i < n,
    ensures
        r == succ(i as nat, n as nat),
        r < n,
{
    proof {
        if i + 1 == n {
            vstd::arithmetic::div_mod::lemma_mod_self_0(n as int);
        } else {
            vstd::arithmetic::div_mod::lemma_small_mod((i + 1) as nat, n as nat);
        }
    }
    if i + 1 == n {
        0
    } else {
        i + 1
    }
}

/// One pairwise term of a tick. Each term hands an impulse to its first particle and
/// the opposite impulse to its second one.
#[derive(Clone, Copy, Debug, PartialEq, Eq, Structural)]
pub enum Interaction {
    /// Soft repulsion between particles `a` and `b`; the impulse points from `b` to `a`.
    Repel { a: usize, b: usize },
    /// The spring along the ring edge from particle `i` to its successor `next`.
    Tension { i: usize, next: usize },
}

impl Interaction {
    /// The particle that receives the impulse.
    pub open spec fn first(self) -> nat {
        match self {
            Interaction::Repel { a, b } => a as nat,
            Interaction::Tension { i, next } => i as nat,
        }
    }

    /// The particle that receives the opposite impulse.
    pub open spec fn second(self) -> nat {
        match self {
            Interaction::Repel { a, b } => b as nat,
            Interaction::Tension { i, next } => next as nat,
        }
    }
}

/// The terms that particle `i` opens: its repulsion against every earlier particle,
/// then the tension of its outgoing edge.
pub open spec fn row(i: nat, n: nat) -> Seq<Interaction> {
    Seq::new(i, |b: int| Interaction::Repel { a: i as usize, b: b as usize }).push(
        Interaction::Tension { i: i as usize, next: succ(i, n) as usize },
    )
}

/// The rows of the first `k` particles of a ring of `n`, in order.
pub open spec fn schedule_upto(k: nat, n: nat) -> Seq<Interaction>
    decreases k,
{
    if k == 0 {
        seq![]
    } else {
        schedule_upto((k - 1) as nat, n) + row((k - 1) as nat, n)
    }
}

/// Every pairwise term of one tick of a ring of `n` particles, in the order applied.
pub open spec fn schedule(n: nat) -> Seq<Interaction> {
    schedule_upto(n, n)
}

/// The pairwise terms of one tick on a ring of `n` particles, in the order in which the
/// integrator applies them: for each particle, repulsion against each earlier particle,
/// then the tension of the edge to its successor.
pub fn tick_schedule(n: usize) -> (r: Vec<Interaction>)
    ensures
        r@ == schedule(n as nat),
{
    let mut r: Vec<Interaction> = Vec::new();
    let mut i: usize = 0;
    while i < n
        invariant
            i <= n,
            r@ == schedule_upto(i as nat, n as nat),
        decreases n - i,
    {
        let ghost start = r@;
        let mut b: usize = 0;
        while b < i
            invariant
                b <= i,
                i < n,
                start == schedule_upto(i as nat, n as nat),
                r@ == start + Seq::new(b as nat, |k: int| Interaction::Repel { a: i, b: k as usize }),
            decreases i - b,
        {
            r.push(Interaction::Repel { a: i, b });
            proof {
                assert(Seq::new((b + 1) as nat, |k: int| Interaction::Repel { a: i, b: k as usize })
                    =~= Seq::new(b as nat, |k: int| Interaction::Repel { a: i, b: k as usize }).push(
                    Interaction::Repel { a: i, b },
                ));
            }
            b += 1;
        }
        let next = successor(i, n);
        r.push(Interaction::Tension { i, next });
        proof {
            assert(r@ =~= schedule_upto((i + 1) as nat, n as nat));
        }
        i += 1;
    }
    r
}

} // verus!
