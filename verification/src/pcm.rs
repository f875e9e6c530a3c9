//! The sample pipeline before serialization: bit-depth normalization and
//! stride-based decimation.

use vstd::prelude::*;

verus! {

/// PCM sample data, tagged with the bit depth it was stored in.
///
/// A float-tagged buffer is never read by the pipeline (it is rejected as
/// unsupported), so that variant carries no payload.
pub enum SampleData {
    Eight(Vec<u8>),
    Sixteen(Vec<i16>),
    TwentyFour(Vec<i32>),
    ThirtyTwoFloat,
    Empty,
}

/// The mathematical content of `SampleData`: the same tags over sequences.
pub enum SampleDataView {
    Eight(Seq<u8>),
    Sixteen(Seq<i16>),
    TwentyFour(Seq<i32>),
    ThirtyTwoFloat,
    Empty,
}

impl View for SampleData {
    type V = SampleDataView;

    open spec fn view(&self) -> SampleDataView {
        match self {
            SampleData::Eight(v) => SampleDataView::Eight(v@),
            SampleData::Sixteen(v) => SampleDataView::Sixteen(v@),
            SampleData::TwentyFour(v) => SampleDataView::TwentyFour(v@),
            SampleData::ThirtyTwoFloat => SampleDataView::ThirtyTwoFloat,
            SampleData::Empty => SampleDataView::Empty,
        }
    }
}

/// Why a sample buffer could not be normalized: the pipeline only supports
/// 8-bit and 16-bit PCM data, and each unsupported tag is a distinct,
/// deliberate abort condition.
#[derive(Clone, Copy, Debug, PartialEq, Eq, Structural)]
pub enum ConvertError {
    TwentyFourBit,
    ThirtyTwoBitFloat,
    EmptyData,
}

/// A 16-bit signed sample shifted into unsigned range and reduced to its
/// high byte: `((s + 32768) >> 8) & 0xFF`, which for values in range is
/// exactly `(s + 32768) / 256`.
pub open spec fn normalized_sixteen(s: i16) -> u8 {
    (((s as int) + 32768) / 256) as u8
}

/// Normalize one 16-bit signed sample to 8 bits.
pub fn normalize_sixteen(s: i16) -> (r: u8)
    ensures
        r == normalized_sixteen(s),
{
    let wide: u16 = (s as i32 + 32768) as u16;
    let r = (wide >> 8) as u8;
    proof {
        assert(wide >> 8 == wide / 256) by (bit_vector);
    }
    r
}

/// The normalized 8-bit sequence for a sample buffer, or nothing where the
/// bit depth is unsupported.
pub open spec fn convert_spec(d: SampleDataView) -> Option<Seq<u8>> {
    match d {
        SampleDataView::Eight(v) => Some(v),
        SampleDataView::Sixteen(v) => Some(Seq::new(v.len(), |i: int| normalized_sixteen(v[i]))),
        _ => None,
    }
}

/// Normalize a sample buffer to one unsigned 8-bit value per sample.
///
/// 8-bit data passes through unchanged; 16-bit data is reduced sample by
/// sample; every other bit depth is rejected with the matching error.
pub fn convert_samples(samples: SampleData) -> (r: Result<Vec<u8>, ConvertError>)
    ensures
        r is Ok <==> (samples@ is Eight || samples@ is Sixteen),
        r matches Ok(v) ==> convert_spec(samples@) == Some(v@),
        samples@ is TwentyFour ==> r == Err::<Vec<u8>, ConvertError>(ConvertError::TwentyFourBit),
        samples@ is ThirtyTwoFloat ==> r == Err::<Vec<u8>, ConvertError>(
            ConvertError::ThirtyTwoBitFloat,
        ),
        samples@ is Empty ==> r == Err::<Vec<u8>, ConvertError>(ConvertError::EmptyData),
{
    match samples {
        SampleData::Eight(v) => Ok(v),
        SampleData::Sixteen(v) => {
            let ghost source: Seq<i16> = v@;
            let mut out: Vec<u8> = Vec::new();
            let mut i: usize = 0;
            while i < v.len()
                invariant
                    i <= v.len(),
                    v@ == source,
                    out@.len() == i,
                    forall|j: int| 0 <= j < i ==> out@[j] == normalized_sixteen(source[j]),
                decreases v.len() - i,
            {
                let b = normalize_sixteen(v[i]);
                out.push(b);
                i = i + 1;
            }
            proof {
                assert(out@ =~= Seq::new(source.len(), |i: int| normalized_sixteen(source[i])));
            }
            Ok(out)
        },
        SampleData::TwentyFour(_) => Err(ConvertError::TwentyFourBit),
        SampleData::ThirtyTwoFloat => Err(ConvertError::ThirtyTwoBitFloat),
        SampleData::Empty => Err(ConvertError::EmptyData),
    }
}

/// Division rounding up: the number of groups of size `b` needed to cover
/// `a` elements, a trailing partial group counted.
pub open spec fn ceil_div(a: int, b: int) -> int {
    (a + b - 1) / b
}

/// Every `stride`-th element of `s`, starting at index zero.  The element
/// count is `ceil_div(s.len(), stride)`: a trailing group shorter than the
/// stride still contributes its first element.
pub open spec fn decimate_spec(s: Seq<u8>, stride: int) -> Seq<u8> {
    Seq::new(ceil_div(s.len() as int, stride) as nat, |i: int| s[i * stride])
}

/// Keep the first channel of every `downsample`-th sample-frame: of each
/// consecutive group of `downsample * channel_count` samples, only the first
/// survives, and a trailing partial group still contributes its first
/// sample.
pub fn decimate(samples: &Vec<u8>, downsample: u32, channel_count: u16) -> (r: Vec<u8>)
    requires
        downsample >= 1,
        channel_count >= 1,
        downsample as int * channel_count as int <= usize::MAX as int,
    ensures
        r@ == decimate_spec(samples@, downsample as int * channel_count as int),
{
    proof {
        assert(downsample as int * channel_count as int >= 1) by (nonlinear_arith)
            requires
                downsample >= 1,
                channel_count >= 1,
        ;
    }
    let stride: usize = (downsample as u64 * channel_count as u64) as usize;
    let ghost stride_int: int = stride as int;
    proof {
        assert(stride_int == downsample as int * channel_count as int);
    }
    let n = samples.len();
    let mut out: Vec<u8> = Vec::new();
    if n == 0 {
        proof {
            vstd::arithmetic::div_mod::lemma_basic_div(stride_int - 1, stride_int);
            assert(decimate_spec(samples@, stride_int) =~= out@);
        }
        return out;
    }
    let count: usize = 1 + (n - 1) / stride;
    proof {
        let a: int = (n - 1) as int / stride_int;
        let r: int = (n - 1) as int % stride_int;
        vstd::arithmetic::div_mod::lemma_fundamental_div_mod((n - 1) as int, stride_int);
        vstd::arithmetic::div_mod::lemma_mod_division_less_than_divisor((n - 1) as int, stride_int);
        assert((n + stride - 1) as int == (1 + a) * stride_int + r) by (nonlinear_arith)
            requires
                (n - 1) as int == stride_int * a + r,
                stride == stride_int,
        ;
        vstd::arithmetic::div_mod::lemma_fundamental_div_mod_converse_div(
            (n + stride - 1) as int,
            stride_int,
            1 + a,
            r,
        );
        assert(count == ceil_div(n as int, stride_int));
        assert(a * stride_int <= (n - 1) as int) by (nonlinear_arith)
            requires
                (n - 1) as int == stride_int * a + r,
                r >= 0,
        ;
    }
    let mut i: usize = 0;
    while i < count
        invariant
            stride == stride_int,
            1 <= stride,
            count == ceil_div(samples@.len() as int, stride_int),
            n == samples@.len(),
            1 <= count,
            (count - 1) * stride_int <= n - 1,
            i <= count,
            out@.len() == i,
            forall|j: int| 0 <= j < i ==> out@[j] == samples@[j * stride_int],
        decreases count - i,
    {
        proof {
            vstd::arithmetic::mul::lemma_mul_inequality(i as int, count - 1, stride_int);
        }
        out.push(samples[i * stride]);
        i = i + 1;
    }
    proof {
        assert(out@ =~= decimate_spec(samples@, stride_int));
    }
    out
}

/// Normalize a sample buffer and then decimate it in one step: the compute
/// part of a whole run, up to the gain stage.
pub fn prepare_samples(samples: SampleData, downsample: u32, channel_count: u16) -> (r: Result<
    Vec<u8>,
    ConvertError,
>)
    requires
        downsample >= 1,
        channel_count >= 1,
        downsample as int * channel_count as int <= usize::MAX as int,
    ensures
        r is Ok <==> (samples@ is Eight || samples@ is Sixteen),
        r matches Ok(v) ==> convert_spec(samples@) matches Some(n) && v@ == decimate_spec(
            n,
            downsample as int * channel_count as int,
        ),
        r matches Err(e) ==> convert_samples_err(samples@) == e,
{
    let converted = convert_samples(samples)?;
    Ok(decimate(&converted, downsample, channel_count))
}

/// The error that normalization returns for each unsupported tag.
pub open spec fn convert_samples_err(d: SampleDataView) -> ConvertError
    recommends
        !(d is Eight || d is Sixteen),
{
    match d {
        SampleDataView::TwentyFour(_) => ConvertError::TwentyFourBit,
        SampleDataView::ThirtyTwoFloat => ConvertError::ThirtyTwoBitFloat,
        _ => ConvertError::EmptyData,
    }
}

/// Law: with a unit stride, decimation keeps every sample, and an 8-bit
/// buffer passes through normalization unchanged; together, a run with
/// neutral settings reproduces its input.
pub proof fn lemma_pass_through(v: Seq<u8>)
    ensures
        convert_spec(SampleDataView::Eight(v)) == Some(v),
        decimate_spec(v, 1) == v,
{
    assert(decimate_spec(v, 1) =~= v);
}

/// Law: decimating a buffer of `n` sample-frames of `c` channels each with
/// stride factor `d` emits exactly `ceil_div(n, d)` samples: one per group
/// of `d` frames, a trailing partial group included.
pub proof fn lemma_decimation_count(v: Seq<u8>, n: int, c: int, d: int)
    requires
        n >= 0,
        c >= 1,
        d >= 1,
        v.len() == n * c,
    ensures
        decimate_spec(v, d * c).len() == ceil_div(n, d),
{
    let q = ceil_div(n, d);
    vstd::arithmetic::div_mod::lemma_fundamental_div_mod(n + d - 1, d);
    vstd::arithmetic::div_mod::lemma_mod_division_less_than_divisor(n + d - 1, d);
    assert(n * c + d * c - 1 == q * (d * c) + ((n + d - 1) % d) * c + c - 1) by (nonlinear_arith)
        requires
            n + d - 1 == d * q + (n + d - 1) % d,
    ;
    assert(0 <= ((n + d - 1) % d) * c + c - 1 < d * c) by (nonlinear_arith)
        requires
            0 <= (n + d - 1) % d < d,
            c >= 1,
    ;
    vstd::arithmetic::div_mod::lemma_fundamental_div_mod_converse_div(
        n * c + d * c - 1,
        d * c,
        q,
        ((n + d - 1) % d) * c + c - 1,
    );
    assert(ceil_div(n * c, d * c) == q);
}

} // verus!
