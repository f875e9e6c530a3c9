//! Serialization of the converted samples as C header source text.

use vstd::prelude::*;

verus! {

/// The digit character for a value below ten.
pub open spec fn dec_digit(d: int) -> char {
    if d == 0 {
        '0'
    } else if d == 1 {
        '1'
    } else if d == 2 {
        '2'
    } else if d == 3 {
        '3'
    } else if d == 4 {
        '4'
    } else if d == 5 {
        '5'
    } else if d == 6 {
        '6'
    } else if d == 7 {
        '7'
    } else if d == 8 {
        '8'
    } else {
        '9'
    }
}

/// The decimal representation of a non-negative number, most significant
/// digit first, without a sign and without leading zeros (except for zero
/// itself).
pub open spec fn dec_rep(n: int) -> Seq<char>
    decreases n,
{
    if n < 10 {
        seq![dec_digit(n)]
    } else {
        dec_rep(n / 10).push(dec_digit(n % 10))
    }
}

fn digit_str(d: u8) -> (s: &'static str)
    requires
        d < 10,
    ensures
        s@ == seq![dec_digit(d as int)],
{
    proof {
        reveal_strlit("0");
        reveal_strlit("1");
        reveal_strlit("2");
        reveal_strlit("3");
        reveal_strlit("4");
        reveal_strlit("5");
        reveal_strlit("6");
        reveal_strlit("7");
        reveal_strlit("8");
        reveal_strlit("9");
    }
    let s = match d {
        0 => "0",
        1 => "1",
        2 => "2",
        3 => "3",
        4 => "4",
        5 => "5",
        6 => "6",
        7 => "7",
        8 => "8",
        _ => "9",
    };
    proof {
        assert(s@ =~= seq![dec_digit(d as int)]);
    }
    s
}

/// Render a number as decimal text.
pub fn u64_to_string(n: u64) -> (s: String)
    ensures
        s@ == dec_rep(n as int),
    decreases n,
{
    if n < 10 {
        String::from_str(digit_str(n as u8))
    } else {
        let mut s = u64_to_string(n / 10);
        s.append(digit_str((n % 10) as u8));
        proof {
            assert(s@ =~= dec_rep(n as int));
        }
        s
    }
}

/// Metadata taken from the source audio header, echoed into the generated
/// macros.
#[derive(Clone, Copy, Debug, PartialEq, Eq, Structural)]
pub struct HeaderInfo {
    pub sampling_rate: u32,
    pub channel_count: u16,
    pub bytes_per_second: u32,
    pub bytes_per_sample: u16,
    pub bits_per_sample: u16,
}

/// The text before the sample array: the fixed-width-integer directive and
/// one macro per metadata field.  `SAMPLE_RATE` is the source rate
/// integer-divided by the stride factor; `count` is the number of samples
/// the array itself holds, so the declared `SAMPLES_COUNT` always agrees
/// with the emitted array length.
pub open spec fn header_text(h: HeaderInfo, downsample: int, count: int) -> Seq<char> {
    "#in"@ + "clude <stdint.h>\n#define SAMPLE_RATE "@ + dec_rep(
        h.sampling_rate as int / downsample,
    ) + "\n#define CHANNEL_COUNT "@ + dec_rep(h.channel_count as int)
        + "\n#define BYTES_PER_SECOND "@ + dec_rep(h.bytes_per_second as int)
        + "\n#define BYTES_PER_SAMPLE "@ + dec_rep(h.bytes_per_sample as int)
        + "\n#define BITS_PER_SAMPLE "@ + dec_rep(h.bits_per_sample as int)
        + "\n#define SAMPLES_COUNT "@ + dec_rep(count)
        + "\nconst uint8_t samples[] PROGMEM = {\n"@
}

/// One line of the array body: an indented decimal literal, comma-terminated.
pub open spec fn sample_line(b: u8) -> Seq<char> {
    "    "@ + dec_rep(b as int) + ",\n"@
}

/// The whole array body: one line per sample, in order.
pub open spec fn sample_lines(s: Seq<u8>) -> Seq<char>
    decreases s.len(),
{
    if s.len() == 0 {
        Seq::<char>::empty()
    } else {
        sample_lines(s.drop_last()) + sample_line(s.last())
    }
}

/// The complete generated file: header text, array body, array terminator.
/// The declared sample count is the array body's own length.
pub open spec fn render_spec(h: HeaderInfo, downsample: int, samples: Seq<u8>) -> Seq<char> {
    header_text(h, downsample, samples.len() as int) + sample_lines(samples) + "};\n"@
}

proof fn lemma_sample_lines_snoc(s: Seq<u8>, i: int)
    requires
        0 <= i < s.len(),
    ensures
        sample_lines(s.take(i + 1)) == sample_lines(s.take(i)) + sample_line(s[i]),
{
    assert(s.take(i + 1).drop_last() =~= s.take(i));
}

/// Serialize the header metadata and the gain-adjusted samples as C source
/// text.  The `SAMPLES_COUNT` macro is computed from the sample vector
/// itself, so it matches the emitted array length.
pub fn render_output(h: &HeaderInfo, downsample: u32, samples: &Vec<u8>) -> (out: String)
    requires
        downsample >= 1,
    ensures
        out@ == render_spec(*h, downsample as int, samples@),
{
    let mut out = String::from_str("#in");
    out.append("clude <stdint.h>\n#define SAMPLE_RATE ");
    let rate = u64_to_string((h.sampling_rate / downsample) as u64);
    out.append(rate.as_str());
    out.append("\n#define CHANNEL_COUNT ");
    let channels = u64_to_string(h.channel_count as u64);
    out.append(channels.as_str());
    out.append("\n#define BYTES_PER_SECOND ");
    let byte_rate = u64_to_string(h.bytes_per_second as u64);
    out.append(byte_rate.as_str());
    out.append("\n#define BYTES_PER_SAMPLE ");
    let sample_bytes = u64_to_string(h.bytes_per_sample as u64);
    out.append(sample_bytes.as_str());
    out.append("\n#define BITS_PER_SAMPLE ");
    let bits = u64_to_string(h.bits_per_sample as u64);
    out.append(bits.as_str());
    out.append("\n#define SAMPLES_COUNT ");
    let count = u64_to_string(samples.len() as u64);
    out.append(count.as_str());
    out.append("\nconst uint8_t samples[] PROGMEM = {\n");
    let ghost head: Seq<char> = out@;
    proof {
        assert(head == header_text(*h, downsample as int, samples@.len() as int));
        assert(out@ =~= head + sample_lines(samples@.take(0)));
    }
    let mut i: usize = 0;
    while i < samples.len()
        invariant
            i <= samples@.len(),
            out@ == head + sample_lines(samples@.take(i as int)),
        decreases samples@.len() - i,
    {
        out.append("    ");
        let digits = u64_to_string(samples[i] as u64);
        out.append(digits.as_str());
        out.append(",\n");
        proof {
            lemma_sample_lines_snoc(samples@, i as int);
            assert(out@ =~= head + sample_lines(samples@.take(i as int + 1)));
        }
        i = i + 1;
    }
    out.append("};\n");
    proof {
        assert(samples@.take(samples@.len() as int) =~= samples@);
    }
    out
}

} // verus!
