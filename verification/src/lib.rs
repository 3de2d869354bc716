//! A collection of general math helpers and linear-algebra structures.
//!
//! The integer helpers and the Perlin permutation table are verified here;
//! the floating-point vector types built on [`linear::CoordSystem`] live in
//! the surrounding application code.

pub mod linear;

use rand::Rng;
use vstd::prelude::*;

verus! {

/// The factorial of `n` as a mathematical function.
pub open spec fn fact(n: nat) -> nat
    decreases n,
{
    if n <= 1 {
        1
    } else {
        n * fact((n - 1) as nat)
    }
}

/// Calculates and returns the factorial of the integer entered,
/// or reports `MathError::Overflow` when the result does not fit in `usize`.
pub fn factorial(fac_num: usize) -> (r: Result<usize, MathError>)
    ensures
        match r {
            Ok(v) => v == fact(fac_num as nat),
            Err(e) => e == MathError::Overflow && fact(fac_num as nat) > usize::MAX,
        },
{
    let mut acc: usize = 1;
    let mut i: usize = 1;
    while i < fac_num
        invariant
            1 <= i,
            i <= fac_num || i == 1,
            acc == fact(i as nat),
        decreases fac_num - i,
    {
        let next: usize = i + 1;
        if acc > usize::MAX / next {
            proof {
                assert(acc * next > usize::MAX) by (nonlinear_arith)
                    requires
                        acc > usize::MAX / next,
                        next >= 2,
                ;
                assert(fact(next as nat) == next * fact(i as nat));
                lemma_fact_monotonic(next as nat, fac_num as nat);
            }
            return Err(MathError::Overflow);
        }
        proof {
            assert(acc * next <= usize::MAX) by (nonlinear_arith)
                requires
                    acc <= usize::MAX / next,
                    next >= 2,
            ;
            assert(fact(next as nat) == next * fact(i as nat));
        }
        acc = acc * next;
        i = next;
    }
    proof {
        if fac_num < 1 {
            assert(fact(0) == 1);
        }
    }
    Ok(acc)
}

/// The factorial never shrinks as its argument grows.
proof fn lemma_fact_monotonic(m: nat, n: nat)
    requires
        m <= n,
    ensures
        fact(m) <= fact(n),
    decreases n - m,
{
    if m < n {
        lemma_fact_monotonic(m, (n - 1) as nat);
        assert(fact(n) >= fact((n - 1) as nat)) by (nonlinear_arith)
            requires
                n >= 1,
                fact(n) == n * fact((n - 1) as nat),
        ;
    }
}

/// Fibonacci sequence helper; it takes no input and has no observable effect.
pub fn fibonacci() {
}

/// The seed a Perlin noise generator is given when the caller has no
/// preference.
pub const DEFAULT_NOISE_SEED: usize = 0;

/// Whether the value `v` occurs somewhere in `s`.
pub open spec fn has_value(s: Seq<i16>, v: i16) -> bool {
    exists|j: int| 0 <= j < s.len() && s[j] == v
}

/// How many slots of a permutation table are still unset (hold `-1`).
spec fn count_unset(s: Seq<i16>) -> int
    decreases s.len(),
{
    if s.len() == 0 {
        0
    } else {
        count_unset(s.drop_last()) + if s.last() == -1 {
            1int
        } else {
            0int
        }
    }
}

proof fn lemma_count_unset_nonneg(s: Seq<i16>)
    ensures
        count_unset(s) >= 0,
    decreases s.len(),
{
    if s.len() > 0 {
        lemma_count_unset_nonneg(s.drop_last());
    }
}

proof fn lemma_count_unset_push(s: Seq<i16>, v: i16)
    ensures
        count_unset(s.push(v)) == count_unset(s) + if v == -1 {
            1int
        } else {
            0int
        },
{
    assert(s.push(v).drop_last() =~= s);
}

/// Overwriting one unset slot with a set value lowers the unset count by one.
proof fn lemma_count_unset_update(s: Seq<i16>, k: int, v: i16)
    requires
        0 <= k < s.len(),
        s[k] == -1,
        v != -1,
    ensures
        count_unset(s.update(k, v)) == count_unset(s) - 1,
    decreases s.len(),
{
    let t = s.update(k, v);
    if k == s.len() - 1 {
        assert(t.drop_last() =~= s.drop_last());
    } else {
        lemma_count_unset_update(s.drop_last(), k, v);
        assert(t.drop_last() =~= s.drop_last().update(k, v));
        assert(t.last() == s.last());
    }
}

/// A positive unset count yields an unset slot.
proof fn lemma_count_unset_positive(s: Seq<i16>)
    requires
        count_unset(s) > 0,
    ensures
        exists|j: int| 0 <= j < s.len() && s[j] == -1,
    decreases s.len(),
{
    if s.len() > 0 {
        if s.last() == -1 {
            assert(s[s.len() - 1] == -1);
        } else {
            lemma_count_unset_positive(s.drop_last());
            let j = choose|j: int| 0 <= j < s.len() - 1 && s.drop_last()[j] == -1;
            assert(s[j] == -1);
        }
    }
}

/// An unset count of zero means every slot is set.
proof fn lemma_count_unset_zero(s: Seq<i16>)
    requires
        count_unset(s) == 0,
    ensures
        forall|j: int| 0 <= j < s.len() ==> s[j] != -1,
    decreases s.len(),
{
    if s.len() > 0 {
        lemma_count_unset_nonneg(s.drop_last());
        lemma_count_unset_zero(s.drop_last());
        assert forall|j: int| 0 <= j < s.len() implies s[j] != -1 by {
            if j < s.len() - 1 {
                assert(s[j] == s.drop_last()[j]);
            } else {
                assert(s[j] == s.last());
            }
        }
    }
}

/// The index `k` wrapped once back into the bounds of a 256-entry table.
spec fn wrap_index(k: int) -> int {
    if k >= 256 {
        k - 256
    } else {
        k
    }
}

/// Relies on rand's `Rng::gen_range` on `0..n`: the draw always lies in that
/// half-open range, and the call panics only on an empty range, which
/// `n >= 1` rules out.
#[verifier::external_body]
fn random_index(n: usize) -> (r: usize)
    requires
        n >= 1,
    ensures
        r < n,
{
    rand::thread_rng().gen_range(0..n)
}

/// A Perlin noise generator: a seed together with a table holding the values
/// `0..256` in shuffled order.
#[derive(Debug)]
pub struct Perlin {
    /// The seed this generator was created with.
    pub seed: usize,
    permutation_table: Vec<i16>,
}

impl Perlin {
    /// The permutation table as a mathematical sequence.
    pub closed spec fn table(self) -> Seq<i16> {
        self.permutation_table@
    }

    /// The seed, as seen by specifications.
    pub closed spec fn spec_seed(self) -> usize {
        self.seed
    }

    /// A well-formed generator holds a permutation of `0..256`: 256 entries,
    /// each in range, no two alike, every value present.
    pub open spec fn wf(self) -> bool {
        &&& self.table().len() == 256
        &&& forall|j: int| 0 <= j < 256 ==> 0 <= #[trigger] self.table()[j] < 256
        &&& forall|j: int, k: int|
            #![trigger self.table()[j], self.table()[k]]
            0 <= j < 256 && 0 <= k < 256 && j != k ==> self.table()[j] != self.table()[k]
        &&& forall|v: i16| 0 <= v < 256 ==> #[trigger] has_value(self.table(), v)
    }

    /// Initializes and returns a new Perlin object; its permutation table
    /// holds each value in `0..256` exactly once, at randomly drawn slots.
    pub fn new(seed: usize) -> (r: Perlin)
        ensures
            r.spec_seed() == seed,
            r.wf(),
    {
        let mut table: Vec<i16> = Vec::new();
        let mut n: usize = 0;
        while n < 256
            invariant
                n <= 256,
                table@.len() == n,
                count_unset(table@) == n,
                forall|j: int| 0 <= j < n ==> table@[j] == -1,
            decreases 256 - n,
        {
            proof {
                lemma_count_unset_push(table@, -1i16);
            }
            table.push(-1);
            n = n + 1;
        }
        let mut i: usize = 0;
        while i < 256
            invariant
                i <= 256,
                table@.len() == 256,
                count_unset(table@) == 256 - i,
                forall|j: int|
                    0 <= j < 256 ==> (table@[j] == -1 || 0 <= #[trigger] table@[j] < i),
                forall|v: i16| 0 <= v < i ==> #[trigger] has_value(table@, v),
                forall|j: int, k: int|
                    #![trigger table@[j], table@[k]]
                    0 <= j < 256 && 0 <= k < 256 && j != k && table@[j] != -1
                        ==> table@[j] != table@[k],
            decreases 256 - i,
        {
            proof {
                lemma_count_unset_positive(table@);
            }
            let ghost prev = table@;
            Perlin::permutation_gen(&mut table, i as i16);
            proof {
                let j = choose|j: int|
                    0 <= j < 256 && prev[j] == -1 && table@ == prev.update(j, i as i16);
                lemma_count_unset_update(prev, j, i as i16);
                assert(table@[j] == i as i16);
                assert forall|v: i16| 0 <= v < i + 1 implies #[trigger] has_value(table@, v) by {
                    if v < i {
                        assert(has_value(prev, v));
                        let w = choose|w: int| 0 <= w < prev.len() && prev[w] == v;
                        assert(table@[w] == v);
                    } else {
                        assert(table@[j] == v);
                    }
                }
                assert forall|a: int|
                    0 <= a < 256 implies (table@[a] == -1 || 0 <= #[trigger] table@[a] < i
                    + 1) by {
                    if a != j {
                        assert(table@[a] == prev[a]);
                    }
                }
                assert forall|a: int, b: int|
                    #![trigger table@[a], table@[b]]
                    0 <= a < 256 && 0 <= b < 256 && a != b && table@[a] != -1 implies table@[a]
                    != table@[b] by {
                    if a != j && b != j {
                        assert(table@[a] == prev[a] && table@[b] == prev[b]);
                    } else if a == j {
                        assert(table@[b] == prev[b]);
                        assert(prev[b] == -1 || prev[b] < i);
                    } else {
                        assert(table@[a] == prev[a]);
                        assert(prev[a] != -1 && prev[a] < i);
                    }
                }
            }
            i = i + 1;
        }
        proof {
            lemma_count_unset_zero(table@);
        }
        Perlin { seed, permutation_table: table }
    }

    /// Takes `i` and writes it into the permutation table at a random slot
    /// that has not been set yet (still holds `-1`); if the randomly drawn
    /// slot is taken, the nearest free slot after it is used instead.
    fn permutation_gen(table: &mut Vec<i16>, i: i16)
        requires
            old(table)@.len() == 256,
            exists|j: int| 0 <= j < 256 && old(table)@[j] == -1,
        ensures
            exists|j: int|
                0 <= j < 256 && old(table)@[j] == -1 && final(table)@ == old(table)@.update(
                    j,
                    i,
                ),
    {
        let start: usize = random_index(256);
        let mut t: usize = 0;
        while t < 256
            invariant
                start < 256,
                t <= 256,
                table@.len() == 256,
                table@ == old(table)@,
                exists|j: int| 0 <= j < 256 && old(table)@[j] == -1,
                forall|s: int| 0 <= s < t ==> table@[#[trigger] wrap_index(start + s)] != -1,
            decreases 256 - t,
        {
            let mut idx: usize = start + t;
            if idx >= 256 {
                idx = idx - 256;
            }
            proof {
                assert(idx == wrap_index(start + t));
            }
            if table[idx] == -1 {
                table[idx] = i;
                return;
            }
            t = t + 1;
        }
        proof {
            let j = choose|j: int| 0 <= j < 256 && old(table)@[j] == -1;
            let s: int = if j >= start { j - start } else { j + 256 - start };
            assert(wrap_index(start + s) == j);
            assert(false);
        }
    }

    /// The shuffled permutation table.
    pub fn permutation(&self) -> (r: &Vec<i16>)
        ensures
            r@ == self.table(),
    {
        &self.permutation_table
    }
}

/// The ways a computation in this library can fail.
#[derive(Copy, Clone, Debug, PartialEq, Eq, Structural)]
pub enum MathError {
    /// A scalar division or remainder by exactly zero, or a zero magnitude
    /// where a direction is needed.
    DivisionByZero,
    /// A degenerate geometric or numeric input, such as a zero-width range.
    DomainError,
    /// An integer result that exceeds the representable range.
    Overflow,
}

} // verus!
