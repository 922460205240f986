use vstd::prelude::*;

verus! {

/// The sum of two `i32`s.
pub fn add_numbers(a: i32, b: i32) -> (sum: i32)
    requires
        i32::MIN <= a + b <= i32::MAX,
    ensures
        sum == a + b,
{
    a + b
}

/// The `i16` whose little-endian bytes are `lo`, `hi`.
pub open spec fn le_i16(lo: u8, hi: u8) -> int {
    let u = hi * 256 + lo;
    if u >= 32768 {
        u - 65536
    } else {
        u
    }
}

/// The samples that a byte stream of little-endian `i16`s holds, one per pair of bytes.
pub open spec fn decoded(bytes: Seq<u8>) -> Seq<i16> {
    Seq::new(bytes.len() / 2, |k: int| le_i16(bytes[2 * k], bytes[2 * k + 1]) as i16)
}

/// The sum of `x[k] * y[k]` over the first `n` positions.
pub open spec fn dot_upto(x: Seq<i16>, y: Seq<i16>, n: int) -> int
    decreases n,
{
    if n <= 0 {
        0
    } else {
        dot_upto(x, y, n - 1) + x[n - 1] * y[n - 1]
    }
}

/// The sum of the products of corresponding samples, over the shorter of the two signals.
pub open spec fn dot(x: Seq<i16>, y: Seq<i16>) -> int {
    dot_upto(x, y, if x.len() <= y.len() { x.len() as int } else { y.len() as int })
}

/// Decodes a stream of little-endian `i16`s.
pub fn decode_le_i16(bytes: &Vec<u8>) -> (samples: Vec<i16>)
    requires
        bytes@.len() % 2 == 0,
    ensures
        samples@ == decoded(bytes@),
{
    let mut samples: Vec<i16> = Vec::new();
    let half = bytes.len() / 2;
    let mut k: usize = 0;
    while k < half
        invariant
            half == bytes@.len() / 2,
            bytes@.len() % 2 == 0,
            bytes@.len() <= usize::MAX,
            k <= half,
            samples@ == decoded(bytes@).take(k as int),
        decreases half - k,
    {
        assert(2 * k + 1 < bytes@.len()) by (nonlinear_arith)
            requires
                k < half,
                half == bytes@.len() / 2,
        ;
        let at = k + k;
        let lo = bytes[at];
        let hi = bytes[at + 1];
        let u: i32 = (hi as i32) * 256 + (lo as i32);
        let v: i32 = if u >= 32768 {
            u - 65536
        } else {
            u
        };
        samples.push(v as i16);
        proof {
            assert(decoded(bytes@).take(k + 1) =~= decoded(bytes@).take(k as int).push(v as i16));
        }
        k = k + 1;
    }
    proof {
        assert(decoded(bytes@).take(half as int) =~= decoded(bytes@));
    }
    samples
}

proof fn lemma_product_bound(a: i16, b: i16)
    ensures
        -0x4000_0000 <= a * b <= 0x4000_0000,
{
    assert(-0x4000_0000 <= a * b <= 0x4000_0000) by (nonlinear_arith)
        requires
            -32768 <= a <= 32767,
            -32768 <= b <= 32767,
    ;
}

/// The sum of the products of corresponding samples of two equally long signals.
pub fn dot_product(x: &Vec<i16>, y: &Vec<i16>) -> (s: i128)
    requires
        x@.len() == y@.len(),
    ensures
        s == dot(x@, y@),
{
    let n = x.len();
    let mut acc: i128 = 0;
    let mut k: usize = 0;
    while k < n
        invariant
            n == x@.len(),
            n == y@.len(),
            k <= n,
            acc == dot_upto(x@, y@, k as int),
            -(k as int) * 0x4000_0000 <= acc <= (k as int) * 0x4000_0000,
        decreases n - k,
    {
        let a = x[k];
        let b = y[k];
        proof {
            lemma_product_bound(a, b);
        }
        assert((k as int) * 0x4000_0000 <= 0x1_0000_0000_0000_0000 * 0x4000_0000) by (nonlinear_arith)
            requires
                k < 0x1_0000_0000_0000_0000,
        ;
        acc = acc + (a as i128) * (b as i128);
        k = k + 1;
    }
    acc
}

/// Why two sample files cannot be compared.
pub enum SampleFileError {
    /// The files hold different numbers of bytes.
    SizesDiffer,
    /// The files hold an odd number of bytes.
    OddSize,
}

/// The three sums from which the correlation of two signals `x`, `y` follows:
/// `xy / (sqrt(xx) * sqrt(yy))`.
pub struct CorrelationTerms {
    pub xx: i128,
    pub yy: i128,
    pub xy: i128,
}

/// What comparing two byte streams yields: an error when their sizes differ or are odd, else
/// the sums `x·x`, `y·y`, `x·y` over their samples.
pub open spec fn correlation_spec(data1: Seq<u8>, data2: Seq<u8>) -> Result<(int, int, int), SampleFileError> {
    if data1.len() != data2.len() {
        Err(SampleFileError::SizesDiffer)
    } else if data1.len() % 2 != 0 {
        Err(SampleFileError::OddSize)
    } else {
        let x = decoded(data1);
        let y = decoded(data2);
        Ok((dot(x, x), dot(y, y), dot(x, y)))
    }
}

/// Checks that two byte streams hold equally many little-endian `i16` samples and computes the
/// sums `x·x`, `y·y` and `x·y` over their samples.
pub fn correlation_terms(data1: &Vec<u8>, data2: &Vec<u8>) -> (r: Result<CorrelationTerms, SampleFileError>)
    ensures
        match r {
            Ok(t) => correlation_spec(data1@, data2@) == Ok::<(int, int, int), SampleFileError>((t.xx as int, t.yy as int, t.xy as int)),
            Err(e) => correlation_spec(data1@, data2@) == Err::<(int, int, int), SampleFileError>(e),
        },
{
    if data1.len() != data2.len() {
        return Err(SampleFileError::SizesDiffer);
    }
    if data1.len() % 2 != 0 {
        return Err(SampleFileError::OddSize);
    }
    let x = decode_le_i16(data1);
    let y = decode_le_i16(data2);
    let xx = dot_product(&x, &x);
    let yy = dot_product(&y, &y);
    let xy = dot_product(&x, &y);
    Ok(CorrelationTerms { xx, yy, xy })
}


proof fn lemma_dot_upto_symmetric(x: Seq<i16>, y: Seq<i16>, n: int)
    ensures
        dot_upto(x, y, n) == dot_upto(y, x, n),
    decreases n,
{
    if n > 0 {
        lemma_dot_upto_symmetric(x, y, n - 1);
        assert(x[n - 1] * y[n - 1] == y[n - 1] * x[n - 1]) by (nonlinear_arith);
    }
}

proof fn lemma_dot_upto_self_nonneg(x: Seq<i16>, n: int)
    ensures
        dot_upto(x, x, n) >= 0,
    decreases n,
{
    if n > 0 {
        lemma_dot_upto_self_nonneg(x, n - 1);
        assert(x[n - 1] * x[n - 1] >= 0) by (nonlinear_arith);
    }
}

/// Swapping the two files swaps `xx` and `yy` and leaves `xy` as it is; the energies `xx` and
/// `yy` are never negative.
pub proof fn lemma_swapped_files(data1: Seq<u8>, data2: Seq<u8>)
    ensures
        correlation_spec(data1, data2) matches Ok(t) ==> {
            &&& correlation_spec(data2, data1) == Ok::<(int, int, int), SampleFileError>((t.1, t.0, t.2))
            &&& t.0 >= 0
            &&& t.1 >= 0
        },
{
    let x = decoded(data1);
    let y = decoded(data2);
    let n = if x.len() <= y.len() { x.len() as int } else { y.len() as int };
    lemma_dot_upto_symmetric(y, x, n);
    lemma_dot_upto_symmetric(x, y, n);
    lemma_dot_upto_self_nonneg(x, x.len() as int);
    lemma_dot_upto_self_nonneg(y, y.len() as int);
}

/// A stream of an even number of bytes compared with itself is accepted and has
/// `xy == xx == yy`: it correlates perfectly with itself.
pub proof fn lemma_self_comparison(data: Seq<u8>)
    requires
        data.len() % 2 == 0,
    ensures
        correlation_spec(data, data) matches Ok(t) && t.0 == t.1 && t.1 == t.2 && t.0 >= 0,
{
    lemma_dot_upto_self_nonneg(decoded(data), decoded(data).len() as int);
}

} // verus!
