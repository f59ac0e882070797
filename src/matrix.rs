//! The interaction matrix: attraction coefficients indexed by color pair.
use vstd::prelude::*;
use crate::random::random_in;

verus! {

/// Largest magnitude of a coefficient: `1000` per-mille stands for `1.0`.
pub const COEFF_MAX: i64 = 1000;

/// Largest number of color classes. The table holds the square of this
/// many coefficients, all allocated at once; the bound keeps that allocation
/// (about a million entries) and every row-by-row index within a `usize`
/// on any platform.
pub const MAX_COLORS: usize = 1024;

/// A `k` by `k` table of per-mille coefficients, stored row by row.
///
/// Entry `(i, j)` is how strongly a particle of color `i` is drawn toward
/// (positive) or pushed from (negative) a particle of color `j`. The table
/// need not be symmetric.
pub struct InteractionMatrix {
    k: usize,
    coeffs: Vec<i64>,
}

impl InteractionMatrix {
    /// Number of color classes.
    pub closed spec fn size(&self) -> nat {
        self.k as nat
    }

    /// Entry `(i, j)`.
    pub closed spec fn coef(&self, i: int, j: int) -> int {
        self.coeffs@[i * self.k + j] as int
    }

    /// Fully populated, every entry within `[-COEFF_MAX, COEFF_MAX]`.
    pub closed spec fn wf(&self) -> bool {
        &&& 1 <= self.k <= MAX_COLORS
        &&& self.coeffs@.len() == self.k * self.k
        &&& forall|n: int| 0 <= n < self.coeffs@.len() ==>
            -COEFF_MAX <= #[trigger] self.coeffs@[n] <= COEFF_MAX
    }

    /// True when every entry lies within `[-spread, spread]`.
    pub open spec fn within(&self, spread: int) -> bool {
        forall|i: int, j: int| 0 <= i < self.size() && 0 <= j < self.size() ==>
            -spread <= #[trigger] self.coef(i, j) <= spread
    }

    proof fn lemma_index(k: int, i: int, j: int)
        requires
            0 <= i < k,
            0 <= j < k,
        ensures
            0 <= i * k + j < k * k,
            k <= MAX_COLORS ==> k * k <= MAX_COLORS * MAX_COLORS,
    {
        assert(0 <= i * k + j < k * k) by (nonlinear_arith)
            requires 0 <= i < k, 0 <= j < k;
        if k <= MAX_COLORS {
            assert(k * k <= MAX_COLORS * MAX_COLORS) by (nonlinear_arith)
                requires 0 <= k <= MAX_COLORS;
        }
    }

    proof fn lemma_entries_within(&self, spread: int)
        requires
            1 <= self.k,
            self.coeffs@.len() == self.k * self.k,
            forall|n: int| 0 <= n < self.coeffs@.len() ==>
                -spread <= #[trigger] self.coeffs@[n] <= spread,
        ensures
            self.within(spread),
    {
        assert forall|i: int, j: int| 0 <= i < self.size() && 0 <= j < self.size() implies
            -spread <= #[trigger] self.coef(i, j) <= spread by {
            Self::lemma_index(self.k as int, i, j);
        }
    }

    /// A matrix with `same` on the diagonal and `other` everywhere else.
    pub fn uniform(k: usize, same: i64, other: i64) -> (m: Self)
        requires
            1 <= k <= MAX_COLORS,
            -COEFF_MAX <= same <= COEFF_MAX,
            -COEFF_MAX <= other <= COEFF_MAX,
        ensures
            m.wf(),
            m.size() == k,
            forall|i: int, j: int| 0 <= i < k && 0 <= j < k ==>
                #[trigger] m.coef(i, j) == if i == j { same as int } else { other as int },
    {
        let mut coeffs: Vec<i64> = Vec::new();
        let mut i: usize = 0;
        while i < k
            invariant
                1 <= k <= MAX_COLORS,
                i <= k,
                coeffs@.len() == i * k,
                -COEFF_MAX <= same <= COEFF_MAX,
                -COEFF_MAX <= other <= COEFF_MAX,
                forall|n: int| 0 <= n < coeffs@.len() ==>
                    #[trigger] coeffs@[n] == if n / (k as int) == n % (k as int) { same } else { other },
            decreases k - i,
        {
            let mut j: usize = 0;
            while j < k
                invariant
                    1 <= k <= MAX_COLORS,
                    i < k,
                    j <= k,
                    coeffs@.len() == i * k + j,
                    forall|n: int| 0 <= n < coeffs@.len() ==>
                        #[trigger] coeffs@[n] == if n / (k as int) == n % (k as int) { same } else { other },
                decreases k - j,
            {
                proof {
                    let n = (i * k + j) as int;
                    vstd::arithmetic::div_mod::lemma_fundamental_div_mod_converse(n, k as int, i as int, j as int);
                }
                coeffs.push(if i == j { same } else { other });
                j = j + 1;
            }
            proof {
                assert((i + 1) * k == i * k + k) by (nonlinear_arith);
            }
            i = i + 1;
        }
        let m = InteractionMatrix { k, coeffs };
        proof {
            assert forall|i: int, j: int| 0 <= i < k && 0 <= j < k implies
                #[trigger] m.coef(i, j) == if i == j { same as int } else { other as int } by {
                Self::lemma_index(k as int, i, j);
                vstd::arithmetic::div_mod::lemma_fundamental_div_mod_converse(i * k + j, k as int, i, j);
            }
        }
        m
    }

    /// True when the entries, row by row, are exactly `draws`.
    pub open spec fn holds_draws(&self, draws: Seq<i64>) -> bool {
        &&& draws.len() == self.size() * self.size()
        &&& forall|i: int, j: int| 0 <= i < self.size() && 0 <= j < self.size() ==>
            #[trigger] self.coef(i, j) == draws[i * self.size() + j] as int
    }

    /// `n` fresh independent draws from `[-spread, spread]`.
    pub fn draw(n: usize, spread: i64) -> (draws: Vec<i64>)
        requires
            0 <= spread <= COEFF_MAX,
        ensures
            draws@.len() == n,
            forall|t: int| 0 <= t < n ==> -spread <= #[trigger] draws@[t] <= spread,
    {
        let mut draws: Vec<i64> = Vec::new();
        while draws.len() < n
            invariant
                draws@.len() <= n,
                0 <= spread <= COEFF_MAX,
                forall|t: int| 0 <= t < draws@.len() ==> -spread <= #[trigger] draws@[t] <= spread,
            decreases n - draws@.len(),
        {
            let c = random_in(-spread, spread);
            draws.push(c);
        }
        draws
    }

    /// The `k` by `k` matrix whose entries, row by row, are `draws`.
    pub fn from_draws(k: usize, draws: &Vec<i64>) -> (m: Self)
        requires
            1 <= k <= MAX_COLORS,
            draws@.len() == k * k,
            forall|t: int| 0 <= t < draws@.len() ==> -COEFF_MAX <= #[trigger] draws@[t] <= COEFF_MAX,
        ensures
            m.wf(),
            m.size() == k,
            m.holds_draws(draws@),
    {
        let mut coeffs: Vec<i64> = Vec::new();
        let mut t: usize = 0;
        while t < draws.len()
            invariant
                t <= draws@.len(),
                coeffs@ == draws@.subrange(0, t as int),
            decreases draws@.len() - t,
        {
            coeffs.push(draws[t]);
            t = t + 1;
        }
        assert(coeffs@ =~= draws@);
        InteractionMatrix { k, coeffs }
    }

    /// Replaces every entry at once with fresh draws from `[-spread, spread]`
    /// and hands back the draws, row by row.
    ///
    /// The new table is built whole before it takes the old one's place, so
    /// no reader ever sees a mix of old and new entries.
    pub fn randomize(&mut self, spread: i64) -> (draws: Vec<i64>)
        requires
            old(self).wf(),
            0 <= spread <= COEFF_MAX,
        ensures
            final(self).wf(),
            final(self).size() == old(self).size(),
            final(self).holds_draws(draws@),
            forall|t: int| 0 <= t < draws@.len() ==> -spread <= #[trigger] draws@[t] <= spread,
            final(self).within(spread as int),
    {
        proof {
            Self::lemma_index(self.k as int, 0, 0);
        }
        let draws = Self::draw(self.k * self.k, spread);
        let fresh = Self::from_draws(self.k, &draws);
        proof {
            lemma_holds_draws_within(fresh, draws@, spread as int);
        }
        *self = fresh;
        draws
    }

    /// Number of color classes.
    pub fn colors(&self) -> (r: usize)
        ensures
            r == self.size(),
    {
        self.k
    }

    /// Entry `(i, j)`.
    pub fn get(&self, i: usize, j: usize) -> (r: i64)
        requires
            self.wf(),
            i < self.size(),
            j < self.size(),
        ensures
            r == self.coef(i as int, j as int),
            -COEFF_MAX <= r <= COEFF_MAX,
    {
        proof {
            Self::lemma_index(self.k as int, i as int, j as int);
        }
        self.coeffs[i * self.k + j]
    }

    /// Sets entry `(i, j)` and leaves every other entry as it was.
    pub fn set(&mut self, i: usize, j: usize, value: i64)
        requires
            old(self).wf(),
            i < old(self).size(),
            j < old(self).size(),
            -COEFF_MAX <= value <= COEFF_MAX,
        ensures
            final(self).wf(),
            final(self).size() == old(self).size(),
            final(self).coef(i as int, j as int) == value,
            forall|a: int, b: int| 0 <= a < old(self).size() && 0 <= b < old(self).size()
                && (a != i || b != j) ==> #[trigger] final(self).coef(a, b) == old(self).coef(a, b),
    {
        proof {
            Self::lemma_index(self.k as int, i as int, j as int);
        }
        let n = i * self.k + j;
        self.coeffs.set(n, value);
        proof {
            let k = self.k as int;
            assert forall|a: int, b: int| 0 <= a < k && 0 <= b < k && (a != i || b != j) implies
                #[trigger] self.coef(a, b) == old(self).coef(a, b) by {
                Self::lemma_index(k, a, b);
                vstd::arithmetic::div_mod::lemma_fundamental_div_mod_converse(a * k + b, k, a, b);
                vstd::arithmetic::div_mod::lemma_fundamental_div_mod_converse(i * k + j, k, i as int, j as int);
            }
        }
    }
}

/// A matrix that holds draws from `[-spread, spread]` has every entry there.
pub proof fn lemma_holds_draws_within(m: InteractionMatrix, draws: Seq<i64>, spread: int)
    requires
        m.wf(),
        m.holds_draws(draws),
        forall|t: int| 0 <= t < draws.len() ==> -spread <= #[trigger] draws[t] <= spread,
    ensures
        m.within(spread),
{
    assert forall|i: int, j: int| 0 <= i < m.size() && 0 <= j < m.size() implies
        -spread <= #[trigger] m.coef(i, j) <= spread by {
        InteractionMatrix::lemma_index(m.size() as int, i, j);
        assert(-spread <= draws[i * m.size() + j] <= spread);
    }
}

/// Every entry of a well-formed matrix is a coefficient within
/// `[-COEFF_MAX, COEFF_MAX]`; randomizing keeps the matrix well formed, so
/// this holds before and after any number of re-randomizations.
pub proof fn lemma_coefficients_bounded(m: &InteractionMatrix)
    requires
        m.wf(),
    ensures
        m.within(COEFF_MAX as int),
{
    m.lemma_entries_within(COEFF_MAX as int);
}

} // verus!
