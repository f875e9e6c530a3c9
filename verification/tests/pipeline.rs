use wav2c::pcm::{convert_samples, decimate, prepare_samples, ConvertError, SampleData};
use wav2c::text::{render_output, u64_to_string, HeaderInfo};

fn small_header() -> HeaderInfo {
    HeaderInfo {
        sampling_rate: 44100,
        channel_count: 1,
        bytes_per_second: 44100,
        bytes_per_sample: 1,
        bits_per_sample: 8,
    }
}

#[test]
fn eight_bit_passes_through_unchanged() {
    let input = vec![0u8, 17, 128, 200, 255];
    let converted = convert_samples(SampleData::Eight(input.clone())).unwrap();
    assert_eq!(converted, input);
    let kept = decimate(&converted, 1, 1);
    assert_eq!(kept, input);
}

#[test]
fn sixteen_bit_normalization_endpoints() {
    let converted = convert_samples(SampleData::Sixteen(vec![-32768, 0, 32767])).unwrap();
    assert_eq!(converted, vec![0u8, 128, 255]);
}

#[test]
fn sixteen_bit_normalization_nearby_values() {
    let converted =
        convert_samples(SampleData::Sixteen(vec![-32767, -256, -1, 1, 255, 256])).unwrap();
    assert_eq!(converted, vec![0u8, 127, 127, 128, 128, 129]);
}

#[test]
fn decimation_counts_trailing_partial_group() {
    // Ten mono sample-frames with stride 3: frames 0, 3, 6 and 9 survive,
    // the last one out of a partial group.
    let input: Vec<u8> = (0u8..10).collect();
    let kept = decimate(&input, 3, 1);
    assert_eq!(kept, vec![0u8, 3, 6, 9]);
    assert_eq!(kept.len(), 4);
}

#[test]
fn decimation_keeps_first_channel_only() {
    // Five stereo frames, stride 2: every second frame's left channel.
    let input = vec![10u8, 11, 20, 21, 30, 31, 40, 41, 50, 51];
    let kept = decimate(&input, 2, 2);
    assert_eq!(kept, vec![10u8, 30, 50]);
}

#[test]
fn decimation_of_exact_groups() {
    let input = vec![1u8, 2, 3, 4, 5, 6];
    let kept = decimate(&input, 3, 1);
    assert_eq!(kept, vec![1u8, 4]);
}

#[test]
fn decimation_of_empty_input() {
    let kept = decimate(&Vec::new(), 4, 2);
    assert!(kept.is_empty());
}

#[test]
fn unsupported_depths_are_rejected() {
    assert_eq!(
        convert_samples(SampleData::TwentyFour(vec![1, 2, 3])),
        Err(ConvertError::TwentyFourBit)
    );
    assert_eq!(
        convert_samples(SampleData::ThirtyTwoFloat),
        Err(ConvertError::ThirtyTwoBitFloat)
    );
    assert_eq!(convert_samples(SampleData::Empty), Err(ConvertError::EmptyData));
}

#[test]
fn prepare_samples_combines_both_stages() {
    let prepared = prepare_samples(SampleData::Sixteen(vec![-32768, 0, 0, 0, 32767]), 2, 2)
        .unwrap();
    // Normalized to [0, 128, 128, 128, 255], stride 4: indices 0 and 4.
    assert_eq!(prepared, vec![0u8, 255]);
}

#[test]
fn prepare_samples_propagates_rejection() {
    assert_eq!(
        prepare_samples(SampleData::ThirtyTwoFloat, 1, 1),
        Err(ConvertError::ThirtyTwoBitFloat)
    );
}

#[test]
fn decimal_rendering() {
    assert_eq!(u64_to_string(0), "0");
    assert_eq!(u64_to_string(7), "7");
    assert_eq!(u64_to_string(10), "10");
    assert_eq!(u64_to_string(255), "255");
    assert_eq!(u64_to_string(44100), "44100");
    assert_eq!(u64_to_string(u64::MAX), "18446744073709551615");
}

#[test]
fn sample_rate_macro_uses_integer_division() {
    let out = render_output(&small_header(), 4, &Vec::new());
    assert!(out.contains("#define SAMPLE_RATE 11025\n"));
}

#[test]
fn rendered_output_matches_expected_text() {
    let header = HeaderInfo {
        sampling_rate: 8000,
        channel_count: 2,
        bytes_per_second: 32000,
        bytes_per_sample: 2,
        bits_per_sample: 16,
    };
    let out = render_output(&header, 2, &vec![128u8, 0, 255]);
    let expected = format!(
        "{}{}",
        "#in",
        "clude <stdint.h>\n\
         #define SAMPLE_RATE 4000\n\
         #define CHANNEL_COUNT 2\n\
         #define BYTES_PER_SECOND 32000\n\
         #define BYTES_PER_SAMPLE 2\n\
         #define BITS_PER_SAMPLE 16\n\
         #define SAMPLES_COUNT 3\n\
         const uint8_t samples[] PROGMEM = {\n\
         \x20   128,\n\
         \x20   0,\n\
         \x20   255,\n\
         };\n"
    );
    assert_eq!(out, expected);
}

#[test]
fn declared_count_matches_array_length_for_stereo_input() {
    // Five stereo frames with stride 2: ceil(5 / 2) = 3 samples are
    // emitted, and the macro declares 3, not the ten input samples halved.
    let input = vec![10u8, 11, 20, 21, 30, 31, 40, 41, 50, 51];
    let kept = decimate(&input, 2, 2);
    assert_eq!(kept, vec![10u8, 30, 50]);
    let header = HeaderInfo {
        sampling_rate: 44100,
        channel_count: 2,
        bytes_per_second: 88200,
        bytes_per_sample: 1,
        bits_per_sample: 8,
    };
    let out = render_output(&header, 2, &kept);
    assert!(out.contains("#define SAMPLES_COUNT 3\n"));
}

#[test]
fn declared_count_matches_array_length_at_a_partial_group() {
    // Ten mono frames with stride 3: four samples survive, one of them out
    // of the trailing partial group, and the macro declares exactly four.
    let input: Vec<u8> = (0u8..10).collect();
    let kept = decimate(&input, 3, 1);
    assert_eq!(kept.len(), 4);
    let out = render_output(&small_header(), 3, &kept);
    assert!(out.contains("#define SAMPLES_COUNT 4\n"));
    let lines = out.lines().filter(|l| l.ends_with(',')).count();
    assert_eq!(lines, 4);
}
