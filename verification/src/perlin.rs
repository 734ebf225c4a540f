//! Perlin noise: the shuffled tables and the lattice lookup.

use crate::vec3::Vec3;
use rand::Rng;
use vstd::prelude::*;

verus! {

/// The number of entries of each table.
pub const POINT_COUNT: usize = 256;

/// The tables of a noise function: 256 gradient vectors and one shuffled order
/// of `0, .., 255` for each axis.
pub struct Perlin {
    pub ranvec: Vec<Vec3>,
    pub perm_x: Vec<usize>,
    pub perm_y: Vec<usize>,
    pub perm_z: Vec<usize>,
}

/// The numbers `0, 1, .., n - 1` in rising order.
pub open spec fn rising(n: nat) -> Seq<usize> {
    Seq::new(n, |i: int| i as usize)
}

/// Whether `p` holds the numbers `0, .., 255`, each once, in some order.
pub open spec fn shuffled(p: Seq<usize>) -> bool {
    p.to_multiset() == rising(256).to_multiset()
}

/// The gradient that a lattice point is given: the three table entries of its
/// coordinates, combined bit by bit with exclusive or.
pub open spec fn lattice_hash(px: usize, py: usize, pz: usize) -> usize {
    ((px as u64) ^ (py as u64) ^ (pz as u64)) as usize
}

/// `rand::Rng::gen_range` over `0..=high` on the generator of the calling thread:
/// some number from 0 to `high`, both included.
#[verifier::external_body]
fn random_upto(high: usize) -> (r: usize)
    ensures
        r <= high,
{
    rand::thread_rng().gen_range(0..=high)
}

/// Swaps the entries at `i` and `j`.
fn swap_entries(p: &mut Vec<usize>, i: usize, j: usize)
    requires
        i < old(p).len(),
        j < old(p).len(),
    ensures
        final(p)@ == old(p)@.update(i as int, old(p)@[j as int]).update(j as int, old(p)@[i as int]),
        final(p)@.to_multiset() == old(p)@.to_multiset(),
{
    let a = p[i];
    let b = p[j];
    p[i] = b;
    p[j] = a;
    proof {
        broadcast use {
            vstd::multiset::group_multiset_axioms,
            vstd::multiset::group_multiset_properties,
            vstd::seq_lib::to_multiset_contains,
        };

        let s0 = old(p)@;
        let s1 = s0.update(i as int, b);
        vstd::seq_lib::to_multiset_update(s0, i as int, b);
        vstd::seq_lib::to_multiset_update(s1, j as int, a);
        assert(p@ == s1.update(j as int, a));
        assert(s1[j as int] == b);
        assert(s0.contains(a));
        assert(s0.contains(b));
        let m0 = s0.to_multiset();
        assert(m0.count(a) > 0 && m0.count(b) > 0);
        assert(s1.to_multiset() == m0.insert(b).remove(a));
        assert(p@.to_multiset() == m0.insert(b).remove(a).insert(a).remove(b));
        assert forall|x: usize| m0.insert(b).remove(a).insert(a).remove(b).count(x) == m0.count(x) by {
        }
        assert(p@.to_multiset() =~= m0);
    }
}

/// Shuffles the first `n` entries of `p`: from the last of them down, each entry
/// changes places with one chosen at random among itself and those before it.
pub fn permute(p: &mut Vec<usize>, n: usize)
    requires
        n <= old(p).len(),
    ensures
        exists|draws: Seq<usize>| #[trigger]
            drawn(draws, n as int) && final(p)@ == permuted_by(old(p)@, draws, 0),
        final(p)@.len() == old(p)@.len(),
        final(p)@.to_multiset() == old(p)@.to_multiset(),
        forall|k: int| n <= k < old(p)@.len() ==> final(p)@[k] == old(p)@[k],
{
    let ghost mut draws: Seq<usize> = Seq::new(n as nat, |k: int| 0usize);
    let mut i: usize = n;
    while i > 0
        invariant
            0 <= i <= n <= p.len(),
            draws.len() == n,
            forall|k: int| i <= k < n ==> #[trigger] draws[k] <= k,
            p@ == permuted_by(old(p)@, draws, i as int),
            p@.len() == old(p)@.len(),
            p@.to_multiset() == old(p)@.to_multiset(),
            forall|k: int| n <= k < old(p)@.len() ==> p@[k] == old(p)@[k],
        decreases i,
    {
        i -= 1;
        let target = random_upto(i);
        proof {
            let noted = draws.update(i as int, target);
            lemma_later_draws_decide(old(p)@, draws, noted, i + 1);
            draws = noted;
        }
        swap_entries(p, i, target);
    }
    assert(drawn(draws, n as int));
}

/// `s` with the entries at `i` and `j` exchanged.
pub open spec fn exchanged(s: Seq<usize>, i: int, j: int) -> Seq<usize> {
    s.update(i, s[j]).update(j, s[i])
}

/// Whether `draws` holds one draw for each of the first `n` positions, none of
/// them above its position.
pub open spec fn drawn(draws: Seq<usize>, n: int) -> bool {
    &&& draws.len() == n
    &&& forall|k: int| 0 <= k < n ==> #[trigger] draws[k] <= k
}

/// `s` after the steps of the shuffle for the positions from the last one that
/// `draws` has a draw for down to `from`: at each position the entry changes
/// places with the entry at the draw of that position.
pub open spec fn permuted_by(s: Seq<usize>, draws: Seq<usize>, from: int) -> Seq<usize>
    decreases draws.len() - from,
{
    if from >= draws.len() {
        s
    } else {
        exchanged(permuted_by(s, draws, from + 1), from, draws[from] as int)
    }
}

/// The steps from `from` on depend on the draws from `from` on alone.
pub proof fn lemma_later_draws_decide(s: Seq<usize>, a: Seq<usize>, b: Seq<usize>, from: int)
    requires
        a.len() == b.len(),
        forall|k: int| from <= k < a.len() ==> a[k] == b[k],
        0 <= from,
    ensures
        permuted_by(s, a, from) == permuted_by(s, b, from),
    decreases a.len() - from,
{
    if from < a.len() {
        lemma_later_draws_decide(s, a, b, from + 1);
    }
}

/// Shuffles the first entries of `p` by the given draws, one for each of them: from
/// the last of them down, each entry changes places with the entry at its draw.
pub fn permute_by(p: &mut Vec<usize>, draws: &Vec<usize>)
    requires
        draws.len() <= old(p).len(),
        drawn(draws@, draws@.len() as int),
    ensures
        final(p)@ == permuted_by(old(p)@, draws@, 0),
        final(p)@.len() == old(p)@.len(),
        final(p)@.to_multiset() == old(p)@.to_multiset(),
        forall|k: int| draws@.len() <= k < old(p)@.len() ==> final(p)@[k] == old(p)@[k],
{
    let n = draws.len();
    let mut i: usize = n;
    while i > 0
        invariant
            0 <= i <= n <= p.len(),
            n == draws.len(),
            drawn(draws@, n as int),
            p@ == permuted_by(old(p)@, draws@, i as int),
            p@.len() == old(p)@.len(),
            p@.to_multiset() == old(p)@.to_multiset(),
            forall|k: int| n <= k < old(p)@.len() ==> p@[k] == old(p)@[k],
        decreases i,
    {
        i -= 1;
        let target = draws[i];
        swap_entries(p, i, target);
    }
}

/// Draws that name each position itself leave everything in its place: the shuffle
/// has the unchanged order among its outcomes.
pub proof fn lemma_own_draws_change_nothing(s: Seq<usize>, n: nat, from: int)
    requires
        0 <= from,
        n <= s.len(),
        n <= usize::MAX,
    ensures
        drawn(rising(n), n as int),
        permuted_by(s, rising(n), from) == s,
    decreases n - from,
{
    if from < n {
        lemma_own_draws_change_nothing(s, n, from + 1);
        assert(rising(n)[from] as int == from);
        assert(exchanged(s, from, from) =~= s);
    }
}

/// A table for one axis: the numbers `0, .., 255` in a random order.
pub fn perlin_generate_perm() -> (p: Vec<usize>)
    ensures
        p@.len() == 256,
        shuffled(p@),
{
    let mut p: Vec<usize> = Vec::with_capacity(256);
    let mut i: usize = 0;
    while i < 256
        invariant
            0 <= i <= 256,
            p@ == rising(i as nat),
        decreases 256 - i,
    {
        p.push(i);
        assert(p@ =~= rising((i + 1) as nat));
        i += 1;
    }
    permute(&mut p, 256);
    p
}

/// Every entry of a shuffled table is below 256, and every number below 256 is an
/// entry.
pub proof fn lemma_shuffled_entries(p: Seq<usize>)
    requires
        shuffled(p),
    ensures
        p.len() == 256,
        forall|k: int| 0 <= k < p.len() ==> #[trigger] p[k] < 256,
        forall|x: usize| x < 256 ==> #[trigger] p.contains(x),
        p.no_duplicates(),
{
    broadcast use vstd::seq_lib::to_multiset_contains;

    let id = rising(256);
    vstd::seq_lib::to_multiset_len(p);
    vstd::seq_lib::to_multiset_len(id);
    assert forall|k: int| 0 <= k < p.len() implies #[trigger] p[k] < 256 by {
        assert(p.contains(p[k]));
        assert(id.to_multiset().count(p[k]) > 0);
        assert(id.contains(p[k]));
        let at = choose|at: int| 0 <= at < id.len() && id[at] == p[k];
        assert(id[at] == at as usize);
    }
    assert forall|x: usize| x < 256 implies #[trigger] p.contains(x) by {
        assert(id[x as int] == x);
        assert(id.contains(x));
        assert(id.to_multiset().count(x) > 0);
    }
    assert(id.no_duplicates());
    id.lemma_multiset_has_no_duplicates();
    p.lemma_multiset_has_no_duplicates_conv();
}

impl Perlin {
    /// Whether the tables are complete: 256 gradients, and for each axis a
    /// shuffled order of `0, .., 255`.
    pub open spec fn valid(&self) -> bool {
        &&& self.ranvec@.len() == 256
        &&& shuffled(self.perm_x@)
        &&& shuffled(self.perm_y@)
        &&& shuffled(self.perm_z@)
    }

    /// The gradient at the lattice point `(i, j, k)`.
    pub open spec fn gradient(&self, i: int, j: int, k: int) -> Vec3 {
        self.ranvec@[lattice_hash(
            self.perm_x@[i % 256],
            self.perm_y@[j % 256],
            self.perm_z@[k % 256],
        ) as int]
    }

    /// A noise function over the gradients `ranvec`, with freshly shuffled tables.
    pub fn new(ranvec: Vec<Vec3>) -> (perlin: Perlin)
        requires
            ranvec@.len() == 256,
        ensures
            perlin.valid(),
            perlin.ranvec == ranvec,
    {
        Perlin {
            ranvec,
            perm_x: perlin_generate_perm(),
            perm_y: perlin_generate_perm(),
            perm_z: perlin_generate_perm(),
        }
    }

    /// The gradient at the lattice point `(i, j, k)`.
    pub fn corner(&self, i: usize, j: usize, k: usize) -> (g: Vec3)
        requires
            self.valid(),
        ensures
            g == self.gradient(i as int, j as int, k as int),
    {
        proof {
            lemma_shuffled_entries(self.perm_x@);
            lemma_shuffled_entries(self.perm_y@);
            lemma_shuffled_entries(self.perm_z@);
        }
        let px = self.perm_x[i % 256];
        let py = self.perm_y[j % 256];
        let pz = self.perm_z[k % 256];
        let a = px as u64;
        let b = py as u64;
        let c = pz as u64;
        assert(a ^ b ^ c < 256) by (bit_vector)
            requires
                a < 256,
                b < 256,
                c < 256,
        ;
        let h = (a ^ b ^ c) as usize;
        self.ranvec[h]
    }

    /// The gradients at the eight corners of the lattice cell whose smallest
    /// corner is `(i, j, k)`: the entry for the corner `(i + di, j + dj, k + dk)`
    /// is at `4 * di + 2 * dj + dk`.
    pub fn noise(&self, i: usize, j: usize, k: usize) -> (c: Vec<Vec3>)
        requires
            self.valid(),
            i < usize::MAX,
            j < usize::MAX,
            k < usize::MAX,
        ensures
            c@.len() == 8,
            forall|di: int, dj: int, dk: int|
                0 <= di < 2 && 0 <= dj < 2 && 0 <= dk < 2 ==> #[trigger] c@[4 * di + 2 * dj + dk]
                    == self.gradient(i + di, j + dj, k + dk),
    {
        let mut c: Vec<Vec3> = Vec::with_capacity(8);
        c.push(self.corner(i, j, k));
        c.push(self.corner(i, j, k + 1));
        c.push(self.corner(i, j + 1, k));
        c.push(self.corner(i, j + 1, k + 1));
        c.push(self.corner(i + 1, j, k));
        c.push(self.corner(i + 1, j, k + 1));
        c.push(self.corner(i + 1, j + 1, k));
        c.push(self.corner(i + 1, j + 1, k + 1));
        assert forall|di: int, dj: int, dk: int|
            0 <= di < 2 && 0 <= dj < 2 && 0 <= dk < 2 implies #[trigger] c@[4 * di + 2 * dj + dk]
            == self.gradient(i + di, j + dj, k + dk) by {
            if di == 0 {
                if dj == 0 {
                    if dk == 0 {
                    } else {
                    }
                } else {
                    if dk == 0 {
                    } else {
                    }
                }
            } else {
                if dj == 0 {
                    if dk == 0 {
                    } else {
                    }
                } else {
                    if dk == 0 {
                    } else {
                    }
                }
            }
        }
        c
    }
}

} // verus!
