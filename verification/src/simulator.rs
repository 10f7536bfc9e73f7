//! Simulator support: the deterministic PRNG and the packed sample format
//! that simulated observations are written in.

use vstd::prelude::*;

use crate::observation::{msb_bit, packed_row, row_count, spec_unpack};

verus! {

/// Fixed default RNG seed used when `--seed` is not supplied.
pub const DEFAULT_SEED: u64 = 0x5EED_2026;

/// One step of the xorshift64 generator (shifts 13, 7, 17).
pub open spec fn xorshift_step(x: u64) -> u64 {
    let a = x ^ (x << 13u64);
    let b = a ^ (a >> 7u64);
    b ^ (b << 17u64)
}

/// A nonzero state never steps to zero: each xorshift stage is invertible
/// and maps zero to zero.
pub proof fn lemma_xorshift_step_nonzero(x: u64)
    requires
        x != 0,
    ensures
        xorshift_step(x) != 0,
{
    let a = x ^ (x << 13u64);
    let b = a ^ (a >> 7u64);
    assert(a != 0) by (bit_vector)
        requires
            x != 0,
            a == x ^ (x << 13u64),
    ;
    assert(b != 0) by (bit_vector)
        requires
            a != 0,
            b == a ^ (a >> 7u64),
    ;
    assert(b ^ (b << 17u64) != 0) by (bit_vector)
        requires
            b != 0,
    ;
}

/// Deterministic xorshift64 PRNG (samples layout + noise).
pub struct XorShift64(u64);

impl XorShift64 {
    /// The generator's state is never zero (zero is a fixed point of the
    /// xorshift map, so a zero state would only ever produce zeros).
    #[verifier::type_invariant]
    spec fn inv(self) -> bool {
        self.0 != 0
    }

    /// The current internal state.
    pub closed spec fn state(self) -> u64 {
        self.0
    }

    /// Seed a generator; the low bit is forced so the state is nonzero.
    pub fn new(seed: u64) -> (r: XorShift64)
        ensures
            r.state() == seed | 1u64,
    {
        assert(seed | 1u64 != 0) by (bit_vector);
        XorShift64(seed | 1)
    }

    /// Advance the generator and return the new state.
    pub fn next_u64(&mut self) -> (r: u64)
        ensures
            r == xorshift_step(old(self).state()),
            final(self).state() == r,
    {
        proof {
            use_type_invariant(&*self);
            lemma_xorshift_step_nonzero(self.0);
        }
        let mut x = self.0;
        x ^= x << 13u64;
        x ^= x >> 7u64;
        x ^= x << 17u64;
        self.0 = x;
        x
    }
}


/// Sample `j` of a bit row read as a flag: 1 if it is present and equal to
/// 1, else 0 (so rows are zero-padded past their end).
pub open spec fn bit_flag(bits: Seq<u8>, j: int) -> u8 {
    if 0 <= j < bits.len() && bits[j] == 1 {
        1
    } else {
        0
    }
}

/// The byte whose bits, most significant first, are `b0` .. `b7`.
pub open spec fn byte_of_bits(b0: u8, b1: u8, b2: u8, b3: u8, b4: u8, b5: u8, b6: u8, b7: u8) -> u8 {
    (b0 * 128 + b1 * 64 + b2 * 32 + b3 * 16 + b4 * 8 + b5 * 4 + b6 * 2 + b7) as u8
}

/// Byte `i` of a packed row: samples `8i .. 8i+8`, most significant first.
pub open spec fn packed_byte(bits: Seq<u8>, i: int) -> u8 {
    byte_of_bits(
        bit_flag(bits, 8 * i),
        bit_flag(bits, 8 * i + 1),
        bit_flag(bits, 8 * i + 2),
        bit_flag(bits, 8 * i + 3),
        bit_flag(bits, 8 * i + 4),
        bit_flag(bits, 8 * i + 5),
        bit_flag(bits, 8 * i + 6),
        bit_flag(bits, 8 * i + 7),
    )
}

/// The packed form of a bit row: one byte per started group of eight.
pub open spec fn spec_pack(bits: Seq<u8>) -> Seq<u8> {
    Seq::new(((bits.len() + 7) / 8) as nat, |i: int| packed_byte(bits, i))
}

/// A byte is determined by its eight bits.
pub proof fn lemma_byte_of_own_bits(x: u8)
    ensures
        byte_of_bits(
            msb_bit(x, 0),
            msb_bit(x, 1),
            msb_bit(x, 2),
            msb_bit(x, 3),
            msb_bit(x, 4),
            msb_bit(x, 5),
            msb_bit(x, 6),
            msb_bit(x, 7),
        ) == x,
{
    assert(((((x >> 7u8) & 1u8) * 128 + ((x >> 6u8) & 1u8) * 64 + ((x >> 5u8) & 1u8) * 32
        + ((x >> 4u8) & 1u8) * 16 + ((x >> 3u8) & 1u8) * 8 + ((x >> 2u8) & 1u8) * 4 + ((x
        >> 1u8) & 1u8) * 2 + ((x >> 0u8) & 1u8)) as u8) == x) by (bit_vector);
}

/// Reading back the bits of a byte built from eight 0/1 values.
pub proof fn lemma_bits_of_byte(b0: u8, b1: u8, b2: u8, b3: u8, b4: u8, b5: u8, b6: u8, b7: u8)
    requires
        b0 <= 1 && b1 <= 1 && b2 <= 1 && b3 <= 1,
        b4 <= 1 && b5 <= 1 && b6 <= 1 && b7 <= 1,
    ensures
        ({
            let x = byte_of_bits(b0, b1, b2, b3, b4, b5, b6, b7);
            &&& msb_bit(x, 0) == b0
            &&& msb_bit(x, 1) == b1
            &&& msb_bit(x, 2) == b2
            &&& msb_bit(x, 3) == b3
            &&& msb_bit(x, 4) == b4
            &&& msb_bit(x, 5) == b5
            &&& msb_bit(x, 6) == b6
            &&& msb_bit(x, 7) == b7
        }),
{
    let x = byte_of_bits(b0, b1, b2, b3, b4, b5, b6, b7);
    assert(x == ((b0 * 128 + b1 * 64 + b2 * 32 + b3 * 16 + b4 * 8 + b5 * 4 + b6 * 2 + b7) as u8));
    assert({
        &&& (x >> 7u8) & 1u8 == b0
        &&& (x >> 6u8) & 1u8 == b1
        &&& (x >> 5u8) & 1u8 == b2
        &&& (x >> 4u8) & 1u8 == b3
        &&& (x >> 3u8) & 1u8 == b4
        &&& (x >> 2u8) & 1u8 == b5
        &&& (x >> 1u8) & 1u8 == b6
        &&& (x >> 0u8) & 1u8 == b7
    }) by (bit_vector)
        requires
            b0 <= 1 && b1 <= 1 && b2 <= 1 && b3 <= 1,
            b4 <= 1 && b5 <= 1 && b6 <= 1 && b7 <= 1,
            x == ((b0 * 128 + b1 * 64 + b2 * 32 + b3 * 16 + b4 * 8 + b5 * 4 + b6 * 2 + b7) as u8),
    ;
}

/// Setting bit `b` (most significant first) of a byte leaves its other bits.
proof fn lemma_set_msb_bit(byte: u8, b: u8, k: u8)
    requires
        b < 8,
        k < 8,
    ensures
        msb_bit(byte | (1u8 << ((7 - b) as u8)), k) == if k == b {
            1u8
        } else {
            msb_bit(byte, k)
        },
{
    let s = (7 - b) as u8;
    let t = (7 - k) as u8;
    assert((((byte | (1u8 << s)) >> t) & 1u8) == if t == s {
        1u8
    } else {
        (byte >> t) & 1u8
    }) by (bit_vector)
        requires
            s < 8,
            t < 8,
    ;
}

/// Pack 0/1 bits MSB-first into bytes (matching `observation::unpack_bits` /
/// `numpy.packbits`). Trailing bits beyond a multiple of 8 are zero-padded.
pub fn pack_row(bits: &[u8]) -> (out: Vec<u8>)
    ensures
        out@ == spec_pack(bits@),
{
    let n = bits.len();
    let n_bytes = n / 8 + if n % 8 == 0 { 0 } else { 1 };
    let mut out: Vec<u8> = Vec::with_capacity(n_bytes);
    let mut i: usize = 0;
    while i < n_bytes
        invariant
            n == bits.len(),
            n_bytes == (n + 7) / 8,
            i <= n_bytes,
            out.len() == i,
            forall|m: int| 0 <= m < i ==> #[trigger] out@[m] == packed_byte(bits@, m),
        decreases n_bytes - i,
    {
        let start = 8 * i;
        let mut byte: u8 = 0;
        let mut b: u8 = 0;
        assert forall|k: u8| k < 8 implies #[trigger] msb_bit(0u8, k) == 0 by {
            assert((0u8 >> ((7 - k) as u8)) & 1u8 == 0) by (bit_vector);
        }
        while b < 8
            invariant
                n == bits.len(),
                i < n_bytes,
                n_bytes == (n + 7) / 8,
                start == 8 * i,
                b <= 8,
                forall|k: u8|
                    k < 8 ==> #[trigger] msb_bit(byte, k) == if k < b {
                        bit_flag(bits@, start + k)
                    } else {
                        0
                    },
            decreases 8 - b,
        {
            let j = start + b as usize;
            if j < n && bits[j] == 1 {
                proof {
                    assert forall|k: u8| k < 8 implies #[trigger] msb_bit(
                        byte | (1u8 << ((7 - b) as u8)),
                        k,
                    ) == if k < b + 1 {
                        bit_flag(bits@, start + k)
                    } else {
                        0
                    } by {
                        lemma_set_msb_bit(byte, b, k);
                    }
                }
                byte = byte | (1 << (7 - b));
            }
            b += 1;
        }
        proof {
            lemma_byte_of_own_bits(byte);
            let m = i as int;
            assert(msb_bit(byte, 0) == bit_flag(bits@, 8 * m));
            assert(msb_bit(byte, 1) == bit_flag(bits@, 8 * m + 1));
            assert(msb_bit(byte, 2) == bit_flag(bits@, 8 * m + 2));
            assert(msb_bit(byte, 3) == bit_flag(bits@, 8 * m + 3));
            assert(msb_bit(byte, 4) == bit_flag(bits@, 8 * m + 4));
            assert(msb_bit(byte, 5) == bit_flag(bits@, 8 * m + 5));
            assert(msb_bit(byte, 6) == bit_flag(bits@, 8 * m + 6));
            assert(msb_bit(byte, 7) == bit_flag(bits@, 8 * m + 7));
        }
        out.push(byte);
        i += 1;
    }
    proof {
        assert(out@ =~= spec_pack(bits@));
    }
    out
}

/// Unpacking a packed row gives back the row, followed by zero samples up to
/// the next multiple of eight (the padding `pack_row` adds).
pub proof fn lemma_unpack_of_pack(bits: Seq<u8>)
    requires
        forall|j: int| 0 <= j < bits.len() ==> #[trigger] bits[j] <= 1,
    ensures
        spec_unpack(spec_pack(bits)).len() == 8 * ((bits.len() + 7) / 8),
        forall|j: int| 0 <= j < bits.len() ==> #[trigger] spec_unpack(spec_pack(bits))[j] == bits[j],
        forall|j: int|
            bits.len() <= j < spec_unpack(spec_pack(bits)).len() ==> #[trigger] spec_unpack(
                spec_pack(bits),
            )[j] == 0,
{
    let p = spec_pack(bits);
    let u = spec_unpack(p);
    assert forall|j: int| 0 <= j < u.len() implies #[trigger] u[j] == bit_flag(bits, j) by {
        let i = j / 8;
        let k = j % 8;
        lemma_bits_of_byte(
            bit_flag(bits, 8 * i),
            bit_flag(bits, 8 * i + 1),
            bit_flag(bits, 8 * i + 2),
            bit_flag(bits, 8 * i + 3),
            bit_flag(bits, 8 * i + 4),
            bit_flag(bits, 8 * i + 5),
            bit_flag(bits, 8 * i + 6),
            bit_flag(bits, 8 * i + 7),
        );
        assert(u[j] == msb_bit(p[i], k as u8));
        assert(p[i] == packed_byte(bits, i));
        assert(j == 8 * i + k);
    }
    assert forall|j: int| 0 <= j < bits.len() implies #[trigger] u[j] == bits[j] by {
        assert(u[j] == bit_flag(bits, j));
    }
    assert forall|j: int| bits.len() <= j < u.len() implies #[trigger] u[j] == 0 by {
        assert(u[j] == bit_flag(bits, j));
    }
}

/// Packing the samples of an unpacked row gives back the row's bytes.
pub proof fn lemma_pack_of_unpack(bytes: Seq<u8>)
    ensures
        spec_pack(spec_unpack(bytes)) == bytes,
{
    let u = spec_unpack(bytes);
    let p = spec_pack(u);
    assert forall|i: int| 0 <= i < bytes.len() implies #[trigger] p[i] == bytes[i] by {
        let x = bytes[i];
        assert forall|k: int| 0 <= k < 8 implies #[trigger] bit_flag(u, 8 * i + k) == msb_bit(
            x,
            k as u8,
        ) by {
            let j = 8 * i + k;
            assert(j / 8 == i && j % 8 == k);
            assert(u[j] == msb_bit(x, k as u8));
            crate::observation::lemma_msb_bit_is_bit(x, k as u8);
        }
        assert(bit_flag(u, 8 * i + 0) == msb_bit(x, 0));
        assert(bit_flag(u, 8 * i + 1) == msb_bit(x, 1));
        assert(bit_flag(u, 8 * i + 2) == msb_bit(x, 2));
        assert(bit_flag(u, 8 * i + 3) == msb_bit(x, 3));
        assert(bit_flag(u, 8 * i + 4) == msb_bit(x, 4));
        assert(bit_flag(u, 8 * i + 5) == msb_bit(x, 5));
        assert(bit_flag(u, 8 * i + 6) == msb_bit(x, 6));
        assert(bit_flag(u, 8 * i + 7) == msb_bit(x, 7));
        lemma_byte_of_own_bits(x);
    }
    assert(p =~= bytes);
}

/// The rows of a data set laid end to end.
pub open spec fn spec_flatten(rows: Seq<Vec<u8>>) -> Seq<u8>
    decreases rows.len(),
{
    if rows.len() == 0 {
        Seq::empty()
    } else {
        spec_flatten(rows.drop_last()) + rows.last()@
    }
}

/// Lay the packed rows of an observation end to end (the layout of the
/// 2-D `data` dataset), with the row length taken from the first row (0
/// when there is none).
pub fn flatten_rows(data: &[Vec<u8>]) -> (r: (usize, Vec<u8>))
    requires
        spec_flatten(data@).len() <= usize::MAX,
    ensures
        r.0 == if data.len() == 0 {
            0
        } else {
            data@[0].len()
        },
        r.1@ == spec_flatten(data@),
{
    let row_bytes = if data.len() == 0 {
        0
    } else {
        data[0].len()
    };
    let mut flat: Vec<u8> = Vec::new();
    let mut a: usize = 0;
    while a < data.len()
        invariant
            a <= data.len(),
            spec_flatten(data@).len() <= usize::MAX,
            flat@ == spec_flatten(data@.subrange(0, a as int)),
        decreases data.len() - a,
    {
        proof {
            lemma_flatten_prefix_len(data@, a as int + 1);
        }
        let row = &data[a];
        let ghost before = flat@;
        let mut k: usize = 0;
        while k < row.len()
            invariant
                k <= row.len(),
                flat@ == before + row@.subrange(0, k as int),
            decreases row.len() - k,
        {
            flat.push(row[k]);
            k += 1;
        }
        proof {
            assert(row@.subrange(0, row.len() as int) =~= row@);
            let pre = data@.subrange(0, a as int + 1);
            assert(pre.drop_last() =~= data@.subrange(0, a as int));
            assert(pre.last() == data@[a as int]);
        }
        a += 1;
    }
    assert(data@.subrange(0, data.len() as int) =~= data@);
    (row_bytes, flat)
}

/// Rows of one length laid end to end: `n` rows of `len` bytes give
/// `n * len` bytes, and row `a` occupies bytes `a * len .. a * len + len`.
proof fn lemma_flatten_uniform(rows: Seq<Vec<u8>>, len: int)
    requires
        forall|a: int| 0 <= a < rows.len() ==> (#[trigger] rows[a]).len() == len,
        len >= 0,
    ensures
        spec_flatten(rows).len() == rows.len() * len,
        forall|a: int|
            0 <= a < rows.len() ==> spec_flatten(rows).subrange(a * len, a * len + len)
                == (#[trigger] rows[a])@,
    decreases rows.len(),
{
    if rows.len() > 0 {
        let n = rows.len() - 1;
        let init = rows.drop_last();
        lemma_flatten_uniform(init, len);
        let f = spec_flatten(rows);
        assert(f == spec_flatten(init) + rows[n]@);
        assert(n * len + len == rows.len() * len) by (nonlinear_arith)
            requires
                n == rows.len() - 1,
        ;
        assert forall|a: int| 0 <= a < rows.len() implies f.subrange(a * len, a * len + len)
            == (#[trigger] rows[a])@ by {
            if a < n {
                assert(a * len + len <= n * len) by (nonlinear_arith)
                    requires
                        0 <= a < n,
                        len >= 0,
                ;
                assert(0 <= a * len) by (nonlinear_arith)
                    requires
                        0 <= a,
                        len >= 0,
                ;
                assert(init[a] == rows[a]);
                assert(f.subrange(a * len, a * len + len) =~= spec_flatten(init).subrange(
                    a * len,
                    a * len + len,
                ));
            } else {
                assert(f.subrange(a * len, a * len + len) =~= rows[n]@);
            }
        }
    }
}

/// What the simulator writes is what an observation reads back: rows of
/// one nonzero length laid end to end, then cut into rows of that length,
/// give back as many rows as were written, each one unchanged.
pub proof fn lemma_flattened_rows_read_back(rows: Seq<Vec<u8>>)
    requires
        rows.len() > 0,
        rows[0].len() > 0,
        forall|a: int| 0 <= a < rows.len() ==> (#[trigger] rows[a]).len() == rows[0].len(),
    ensures
        row_count(spec_flatten(rows).len() as int, rows[0].len() as int) == rows.len(),
        forall|a: int|
            0 <= a < rows.len() ==> packed_row(spec_flatten(rows), rows[0].len() as int, a)
                == (#[trigger] rows[a])@,
{
    let len = rows[0].len() as int;
    let n = rows.len() as int;
    lemma_flatten_uniform(rows, len);
    let f = spec_flatten(rows);
    assert((n * len + len - 1) / len == n) by (nonlinear_arith)
        requires
            n > 0,
            len > 0,
    {
        let q = (n * len + len - 1) / len;
        let r = (n * len + len - 1) % len;
        assert(q * len + r == n * len + len - 1);
        if q > n {
            assert(q * len >= (n + 1) * len);
        }
        if q < n {
            assert(q * len <= (n - 1) * len);
        }
    }
    assert forall|a: int| 0 <= a < n implies packed_row(f, len, a) == (#[trigger] rows[a])@ by {
        assert(a * len + len <= n * len) by (nonlinear_arith)
            requires
                0 <= a < n,
                len > 0,
        ;
        assert(0 <= a * len) by (nonlinear_arith)
            requires
                0 <= a,
                len > 0,
        ;
    }
}

/// A prefix of the rows flattens to no more bytes than all of them.
proof fn lemma_flatten_prefix_len(rows: Seq<Vec<u8>>, n: int)
    requires
        0 <= n <= rows.len(),
    ensures
        spec_flatten(rows.subrange(0, n)).len() <= spec_flatten(rows).len(),
    decreases rows.len(),
{
    if n < rows.len() {
        lemma_flatten_prefix_len(rows.drop_last(), n);
        assert(rows.drop_last().subrange(0, n) =~= rows.subrange(0, n));
    } else {
        assert(rows.subrange(0, n) =~= rows);
    }
}

} // verus!
