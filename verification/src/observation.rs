//! One-bit observation samples: unpacking the packed HDF5 rows and the
//! integer parts of the per-antenna statistics.

use vstd::prelude::*;

verus! {

/// Bit `k` of `byte`, counting from the most significant bit (`k = 0`).
pub open spec fn msb_bit(byte: u8, k: u8) -> u8 {
    (byte >> ((7 - k) as u8)) & 1u8
}

/// A most-significant-first bit is 0 or 1.
pub proof fn lemma_msb_bit_is_bit(byte: u8, k: u8)
    requires
        k < 8,
    ensures
        msb_bit(byte, k) <= 1,
{
    assert((byte >> ((7 - k) as u8)) & 1u8 <= 1) by (bit_vector);
}

/// The samples that a packed byte row encodes: every byte gives eight
/// samples, most significant bit first (`numpy.packbits` order).
pub open spec fn spec_unpack(packed: Seq<u8>) -> Seq<u8> {
    Seq::new(8 * packed.len(), |j: int| msb_bit(packed[j / 8], (j % 8) as u8))
}

/// Unpack a byte slice where each byte encodes 8 consecutive binary samples
/// (MSB-first, matching `numpy.packbits` default behaviour).
///
/// Returns a `Vec<u8>` of 0/1 values.
pub fn unpack_bits(packed: &[u8]) -> (out: Vec<u8>)
    requires
        packed.len() <= usize::MAX / 8,
    ensures
        out@ == spec_unpack(packed@),
        forall|j: int| 0 <= j < out.len() ==> #[trigger] out[j] <= 1,
{
    let mut out: Vec<u8> = Vec::with_capacity(packed.len() * 8);
    let mut i: usize = 0;
    while i < packed.len()
        invariant
            i <= packed.len(),
            packed.len() <= usize::MAX / 8,
            out.len() == 8 * i,
            forall|j: int|
                0 <= j < out.len() ==> #[trigger] out[j] == msb_bit(packed@[j / 8], (j % 8) as u8),
        decreases packed.len() - i,
    {
        let byte = packed[i];
        let mut k: u8 = 0;
        while k < 8
            invariant
                k <= 8,
                i < packed.len(),
                byte == packed@[i as int],
                out.len() == 8 * i + k,
                forall|j: int|
                    0 <= j < out.len() ==> #[trigger] out[j] == msb_bit(
                        packed@[j / 8],
                        (j % 8) as u8,
                    ),
            decreases 8 - k,
        {
            out.push((byte >> (7 - k)) & 1);
            k += 1;
        }
        i += 1;
    }
    proof {
        assert forall|j: int| 0 <= j < out.len() implies #[trigger] out[j] <= 1 by {
            lemma_msb_bit_is_bit(packed@[j / 8], (j % 8) as u8);
        }
        assert(out@ =~= spec_unpack(packed@));
    }
    out
}

/// Row `a` of a packed buffer cut into rows of `row_bytes` bytes (the last
/// row may be shorter).
pub open spec fn packed_row(packed: Seq<u8>, row_bytes: int, a: int) -> Seq<u8> {
    let start = if a * row_bytes <= packed.len() {
        a * row_bytes
    } else {
        packed.len() as int
    };
    let end = if a * row_bytes + row_bytes <= packed.len() {
        a * row_bytes + row_bytes
    } else {
        packed.len() as int
    };
    packed.subrange(start, end)
}

/// The number of rows of `row_bytes` bytes (the last possibly short) that a
/// buffer of `len` bytes is cut into.
pub open spec fn row_count(len: int, row_bytes: int) -> int {
    (len + row_bytes - 1) / row_bytes
}

/// Why packed sample data does not fit the dataset shape.
pub enum DataShapeError {
    /// The buffer holds `rows` rows, not the number the shape announces.
    AntennaCountMismatch { rows: usize },
}

proof fn lemma_row_count(len: int, row_bytes: int, a: int)
    requires
        row_bytes > 0,
        len >= 0,
        a >= 1,
        a * row_bytes >= len,
        (a - 1) * row_bytes < len,
    ensures
        row_count(len, row_bytes) == a,
{
    assert((len + row_bytes - 1) / row_bytes == a) by (nonlinear_arith)
        requires
            row_bytes > 0,
            len >= 0,
            a >= 1,
            a * row_bytes >= len,
            (a - 1) * row_bytes < len,
    {
        let q = (len + row_bytes - 1) / row_bytes;
        let r = (len + row_bytes - 1) % row_bytes;
        assert(q * row_bytes + r == len + row_bytes - 1);
        assert(0 <= r < row_bytes);
        if q > a {
            assert(q * row_bytes >= (a + 1) * row_bytes);
        }
        if q < a {
            assert(q * row_bytes <= (a - 1) * row_bytes);
        }
    }
}

/// Cut the packed sample buffer of an observation into rows of `row_bytes`
/// bytes, one per antenna, and unpack each row into 0/1 samples.
///
/// Fails when the number of rows is not `num_antennas`.
pub fn unpack_rows(packed: &[u8], row_bytes: usize, num_antennas: usize) -> (r: Result<
    Vec<Vec<u8>>,
    DataShapeError,
>)
    requires
        row_bytes > 0,
        packed.len() <= usize::MAX / 8,
    ensures
        r is Ok <==> num_antennas == row_count(packed.len() as int, row_bytes as int),
        r matches Ok(rows) ==> {
            &&& rows.len() == num_antennas
            &&& forall|a: int|
                0 <= a < rows.len() ==> (#[trigger] rows@[a])@ == spec_unpack(
                    packed_row(packed@, row_bytes as int, a),
                )
        },
        r matches Err(DataShapeError::AntennaCountMismatch { rows }) ==> rows as int == row_count(
            packed.len() as int,
            row_bytes as int,
        ),
{
    let len = packed.len();
    let mut data: Vec<Vec<u8>> = Vec::new();
    let mut start: usize = 0;
    assert(data.len() * row_bytes == 0) by (nonlinear_arith)
        requires
            data.len() == 0,
    ;
    while start < len
        invariant
            row_bytes > 0,
            len == packed.len(),
            len <= usize::MAX / 8,
            start <= len,
            start as int == if data.len() * row_bytes <= len {
                data.len() * row_bytes
            } else {
                len as int
            },
            data.len() == 0 || (data.len() - 1) * row_bytes < len,
            forall|a: int|
                0 <= a < data.len() ==> (#[trigger] data@[a])@ == spec_unpack(
                    packed_row(packed@, row_bytes as int, a),
                ),
        decreases len - start,
    {
        let ghost a = data.len() as int;
        let end = if row_bytes >= len - start {
            len
        } else {
            start + row_bytes
        };
        let mut chunk: Vec<u8> = Vec::with_capacity(end - start);
        let mut k: usize = start;
        while k < end
            invariant
                start <= k <= end,
                end <= len,
                len == packed.len(),
                chunk@ == packed@.subrange(start as int, k as int),
            decreases end - k,
        {
            chunk.push(packed[k]);
            k += 1;
        }
        assert(a * row_bytes == start);
        assert(chunk@ == packed_row(packed@, row_bytes as int, a)) by {
            assert((a + 1) * row_bytes == a * row_bytes + row_bytes) by (nonlinear_arith);
        }
        let row = unpack_bits(chunk.as_slice());
        let ghost prev = data@;
        data.push(row);
        proof {
            assert((a + 1) * row_bytes == a * row_bytes + row_bytes) by (nonlinear_arith);
            assert forall|b: int| 0 <= b < data.len() implies (#[trigger] data@[b])@ == spec_unpack(
                packed_row(packed@, row_bytes as int, b),
            ) by {
                if b < a {
                    assert(data@[b] == prev[b]);
                }
            }
        }
        start = end;
    }
    let rows = data.len();
    proof {
        if rows > 0 {
            assert(rows * row_bytes >= len);
            assert((rows - 1) * row_bytes < len);
            lemma_row_count(len as int, row_bytes as int, rows as int);
        } else {
            assert(len == 0);
            assert((row_bytes - 1) / (row_bytes as int) == 0) by (nonlinear_arith)
                requires
                    row_bytes > 0,
            ;
        }
    }
    assert(rows as int == row_count(len as int, row_bytes as int));
    if rows != num_antennas {
        return Err(DataShapeError::AntennaCountMismatch { rows });
    }
    Ok(data)
}

/// A 0/1 sample in bipolar form: 1 → +1, anything else → -1.
pub open spec fn bipolar_sample(b: u8) -> int {
    if b == 1 {
        1
    } else {
        -1
    }
}

/// `Σ_{i<n} bipolar(a[i]) · bipolar(b[i])`.
pub open spec fn spec_agreement(a: Seq<u8>, b: Seq<u8>, n: int) -> int
    decreases n,
{
    if n <= 0 {
        0
    } else {
        spec_agreement(a, b, n - 1) + bipolar_sample(a[n - 1]) * bipolar_sample(b[n - 1])
    }
}

/// The number of samples is an upper bound on the size of the sum.
proof fn lemma_agreement_bound(a: Seq<u8>, b: Seq<u8>, n: int)
    requires
        n >= 0,
    ensures
        -n <= spec_agreement(a, b, n) <= n,
    decreases n,
{
    if n > 0 {
        lemma_agreement_bound(a, b, n - 1);
    }
}

/// Correlation is symmetric: antenna `a` against `b` sums the same
/// products as `b` against `a`.
pub proof fn lemma_agreement_symmetric(a: Seq<u8>, b: Seq<u8>, n: int)
    ensures
        spec_agreement(a, b, n) == spec_agreement(b, a, n),
    decreases n,
{
    if n > 0 {
        lemma_agreement_symmetric(a, b, n - 1);
    }
}

/// An antenna correlated with itself agrees on every sample: the sum is the
/// sample count (correlation +1).
pub proof fn lemma_self_agreement(a: Seq<u8>, n: int)
    requires
        0 <= n,
    ensures
        spec_agreement(a, a, n) == n,
    decreases n,
{
    if n > 0 {
        lemma_self_agreement(a, n - 1);
    }
}

/// Two antennas whose bipolar samples are opposite on every sample have a
/// sum of minus the sample count (correlation -1).
pub proof fn lemma_opposite_agreement(a: Seq<u8>, b: Seq<u8>, n: int)
    requires
        0 <= n <= a.len(),
        n <= b.len(),
        forall|k: int| 0 <= k < n ==> #[trigger] bipolar_sample(a[k]) == -bipolar_sample(b[k]),
    ensures
        spec_agreement(a, b, n) == -n,
    decreases n,
{
    if n > 0 {
        lemma_opposite_agreement(a, b, n - 1);
        assert(bipolar_sample(a[n - 1]) == -bipolar_sample(b[n - 1]));
    }
}

/// Zero-lag correlation sum between two antennas: converts 0/1 samples to
/// bipolar ±1 and sums the sample-by-sample products.  Dividing by the
/// sample count gives the correlation in [-1, 1].
pub fn bipolar_correlation_sum(a: &[u8], b: &[u8]) -> (sum: i64)
    requires
        a.len() == b.len(),
        a.len() <= i64::MAX,
    ensures
        sum == spec_agreement(a@, b@, a.len() as int),
        -(a.len() as int) <= sum <= a.len(),
{
    let mut sum: i64 = 0;
    let mut i: usize = 0;
    while i < a.len()
        invariant
            a.len() == b.len(),
            a.len() <= i64::MAX,
            i <= a.len(),
            sum == spec_agreement(a@, b@, i as int),
        decreases a.len() - i,
    {
        proof {
            lemma_agreement_bound(a@, b@, i as int);
        }
        let prod: i64 = if (a[i] == 1) == (b[i] == 1) {
            1
        } else {
            -1
        };
        assert(prod == bipolar_sample(a@[i as int]) * bipolar_sample(b@[i as int])) by {
            if a@[i as int] == 1 {
                if b@[i as int] == 1 {
                    assert(1 * 1 == 1int);
                } else {
                    assert(1 * -1 == -1int);
                }
            } else {
                if b@[i as int] == 1 {
                    assert(-1 * 1 == -1int);
                } else {
                    assert(-1 * -1 == 1int);
                }
            }
        }
        sum = sum + prod;
        i += 1;
    }
    proof {
        lemma_agreement_bound(a@, b@, a.len() as int);
    }
    sum
}

/// `Σ_{i<n} s[i]`.
pub open spec fn spec_sample_sum(s: Seq<u8>, n: int) -> int
    decreases n,
{
    if n <= 0 {
        0
    } else {
        spec_sample_sum(s, n - 1) + s[n - 1]
    }
}

proof fn lemma_sample_sum_bound(s: Seq<u8>, n: int)
    requires
        n >= 0,
    ensures
        0 <= spec_sample_sum(s, n) <= 255 * n,
    decreases n,
{
    if n > 0 {
        lemma_sample_sum_bound(s, n - 1);
    }
}

/// The sum of one antenna's samples (for 0/1 samples, the number of ones),
/// from which the antenna's mean is taken.
pub fn sample_sum(samples: &[u8]) -> (sum: u64)
    requires
        samples.len() <= u64::MAX / 255,
    ensures
        sum == spec_sample_sum(samples@, samples.len() as int),
{
    let mut sum: u64 = 0;
    let mut i: usize = 0;
    while i < samples.len()
        invariant
            samples.len() <= u64::MAX / 255,
            i <= samples.len(),
            sum == spec_sample_sum(samples@, i as int),
        decreases samples.len() - i,
    {
        proof {
            lemma_sample_sum_bound(samples@, i as int);
        }
        sum = sum + samples[i] as u64;
        i += 1;
    }
    sum
}

/// One antenna's samples in bipolar form (1 → +1, anything else → -1).
pub fn bipolar_samples(samples: &[u8]) -> (out: Vec<i8>)
    ensures
        out.len() == samples.len(),
        forall|i: int| 0 <= i < out.len() ==> #[trigger] out@[i] as int == bipolar_sample(samples@[i]),
{
    let mut out: Vec<i8> = Vec::with_capacity(samples.len());
    let mut i: usize = 0;
    while i < samples.len()
        invariant
            i <= samples.len(),
            out.len() == i,
            forall|j: int| 0 <= j < i ==> #[trigger] out@[j] as int == bipolar_sample(samples@[j]),
        decreases samples.len() - i,
    {
        out.push(if samples[i] == 1 { 1 } else { -1 });
        i += 1;
    }
    out
}

} // verus!
