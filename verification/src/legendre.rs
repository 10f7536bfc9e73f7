//! Legendre sequences and the Weil codes built from them (GPS L1C and
//! BeiDou B1C primary codes).

use vstd::prelude::*;

verus! {

/// `x² mod n`.
pub open spec fn sq_mod(x: int, n: int) -> int {
    (x * x) % n
}

/// `i` is the square, modulo `n`, of some `x` in `1..n`.
pub open spec fn is_square_mod(n: int, i: int) -> bool {
    exists|x: int| 1 <= x < n && #[trigger] sq_mod(x, n) == i
}

/// Element `i` of the Legendre sequence of length `n`: 0 at `i = 0`,
/// otherwise 1 exactly when `i` is a quadratic residue modulo `n`.
pub open spec fn legendre_bit(n: int, i: int) -> u8 {
    if i != 0 && is_square_mod(n, i) {
        1
    } else {
        0
    }
}

/// The Legendre sequence of length `n`.
pub open spec fn spec_legendre(n: int) -> Seq<u8> {
    Seq::new(n as nat, |i: int| legendre_bit(n, i))
}

/// Weil code element `k` for shift `w`: `L[k] XOR L[(k + w) mod n]`.
pub open spec fn weil_bit(n: int, w: int, k: int) -> u8 {
    legendre_bit(n, k) ^ legendre_bit(n, (k + w) % n)
}

/// The XOR of two 0/1 values is 0/1.
pub proof fn lemma_xor_of_bits(a: u8, b: u8)
    requires
        a <= 1,
        b <= 1,
    ensures
        a ^ b <= 1,
        a ^ b == if a == b { 0u8 } else { 1u8 },
{
    assert(a ^ b <= 1 && a ^ b == if a == b { 0u8 } else { 1u8 }) by (bit_vector)
        requires
            a <= 1,
            b <= 1,
    ;
}

/// Generate the Legendre sequence of length `n`:
/// - L(0) = 0
/// - L(i) = 1 if i is a quadratic residue modulo n, else 0
pub fn legendre_sequence_of(n: usize) -> (seq: Vec<u8>)
    requires
        1 <= n <= 65536,
    ensures
        seq@ == spec_legendre(n as int),
{
    let mut residues: Vec<bool> = vec![false; n];
    assert forall|j: int| 0 <= j < n implies !#[trigger] residues@[j] by {
        assert(cloned(false, residues@[j]));
    }
    let mut x: usize = 1;
    while x < n
        invariant
            1 <= x <= n,
            n <= 65536,
            residues.len() == n,
            forall|j: int|
                0 <= j < n ==> (#[trigger] residues@[j] <==> exists|y: int|
                    1 <= y < x && #[trigger] sq_mod(y, n as int) == j),
        decreases n - x,
    {
        assert(x * x <= 65535 * 65535) by (nonlinear_arith)
            requires
                x < n,
                n <= 65536,
        ;
        let idx = (x * x) % n;
        assert(sq_mod(x as int, n as int) == idx);
        residues.set(idx, true);
        assert forall|j: int|
            0 <= j < n implies (#[trigger] residues@[j] <==> exists|y: int|
                1 <= y < x + 1 && #[trigger] sq_mod(y, n as int) == j) by {
            if j == idx {
                assert(sq_mod(x as int, n as int) == j);
            } else {
                if exists|y: int| 1 <= y < x + 1 && #[trigger] sq_mod(y, n as int) == j {
                    let y = choose|y: int| 1 <= y < x + 1 && #[trigger] sq_mod(y, n as int) == j;
                    assert(y != x);
                }
            }
        }
        x += 1;
    }
    let mut seq: Vec<u8> = Vec::with_capacity(n);
    seq.push(0);
    let mut i: usize = 1;
    while i < n
        invariant
            1 <= i <= n,
            residues.len() == n,
            forall|j: int|
                0 <= j < n ==> (#[trigger] residues@[j] <==> is_square_mod(n as int, j)),
            seq.len() == i,
            forall|j: int| 0 <= j < i ==> #[trigger] seq@[j] == legendre_bit(n as int, j),
        decreases n - i,
    {
        seq.push(if residues[i] { 1 } else { 0 });
        i += 1;
    }
    assert(seq@ =~= spec_legendre(n as int));
    seq
}

} // verus!
