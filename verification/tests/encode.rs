use pictura::capture::{CaptureError, RawImage};
use pictura::encode::{
    encode, encode_all, level_of, partition_encoded, CompressionLevel, EncodedResult,
};

const PNG_SIGNATURE: [u8; 8] = [137, 80, 78, 71, 13, 10, 26, 10];

fn sample_image() -> RawImage {
    RawImage {
        width: 2,
        height: 2,
        rgba: vec![
            255, 0, 0, 255, 0, 255, 0, 255, 0, 0, 255, 255, 255, 255, 255, 255,
        ],
    }
}

#[test]
fn level_matching_is_case_insensitive() {
    assert_eq!(level_of("BEST"), level_of("best"));
    assert_eq!(level_of("best"), CompressionLevel::Best);
    assert_eq!(level_of("BeSt"), CompressionLevel::Best);
    assert_eq!(level_of("fast"), CompressionLevel::Fast);
    assert_eq!(level_of("FAST"), CompressionLevel::Fast);
}

#[test]
fn unrecognized_level_falls_back_to_baseline() {
    assert_eq!(level_of("bogus"), CompressionLevel::Baseline);
    assert_eq!(level_of(""), CompressionLevel::Baseline);
    assert_eq!(level_of("best "), CompressionLevel::Baseline);
    assert_eq!(level_of("fastest"), CompressionLevel::Baseline);
}

#[test]
fn encode_produces_a_png_stream() {
    let img = sample_image();
    let bytes = encode(&img, "best").unwrap();
    assert!(bytes.len() >= 8);
    assert_eq!(&bytes[..8], &PNG_SIGNATURE);
    assert_ne!(bytes, img.rgba);
}

#[test]
fn equal_profiles_encode_identically() {
    let img = sample_image();
    let upper = encode(&img, "BEST").unwrap();
    let lower = encode(&img, "best").unwrap();
    assert_eq!(upper, lower);
    let fallback = encode(&img, "bogus").unwrap();
    let baseline = encode(&img, "").unwrap();
    assert_eq!(fallback, baseline);
}

#[test]
fn encode_rejects_a_malformed_buffer() {
    // Three bytes cannot be a 2x2 RGBA image: the backend refuses it.
    let img = RawImage { width: 2, height: 2, rgba: vec![1, 2, 3] };
    assert_eq!(encode(&img, "fast"), Err(CaptureError::EncodeFailed));
}

#[test]
fn encode_all_keeps_capture_order() {
    let images = vec![(4u32, sample_image()), (2u32, sample_image())];
    let results = encode_all(images, "fast");
    assert_eq!(results.len(), 2);
    assert_eq!(results[0].display_id, 4);
    assert_eq!(results[1].display_id, 2);
    for r in &results {
        let bytes = r.bytes.as_ref().unwrap();
        assert_eq!(&bytes[..8], &PNG_SIGNATURE);
    }
}

#[test]
fn partition_encoded_reports_failures_per_display() {
    let results = vec![
        EncodedResult { display_id: 1, bytes: Some(vec![9, 9, 9]) },
        EncodedResult { display_id: 2, bytes: None },
        EncodedResult { display_id: 3, bytes: Some(vec![7]) },
    ];
    let report = partition_encoded(results);
    assert_eq!(report.outputs.len(), 2);
    assert_eq!(report.outputs[0], (1, vec![9, 9, 9]));
    assert_eq!(report.outputs[1], (3, vec![7]));
    assert_eq!(report.failed, vec![2]);
}

#[test]
fn mixed_encode_run_yields_a_partial_result() {
    let bad = RawImage { width: 3, height: 3, rgba: vec![0; 4] };
    let images = vec![(10u32, sample_image()), (11u32, bad), (12u32, sample_image())];
    let report = partition_encoded(encode_all(images, "best"));
    assert_eq!(report.outputs.len(), 2);
    assert_eq!(report.outputs[0].0, 10);
    assert_eq!(report.outputs[1].0, 12);
    assert_eq!(report.failed, vec![11]);
}
