use scope_waveform::error::ErrorKind;
use scope_waveform::metadata::{parse_metadata, Binary32, WaveformMetadata};
use scope_waveform::samples::{
    decode_codes, decode_values, decode_waveform, extract_waveform, SampleData, Waveform,
};
use scope_waveform::transfer::TransferType;

fn raw_body(
    time_delta: f32,
    start_time: f32,
    end_time: f32,
    sample_start: u32,
    sample_length: u32,
    vertical_start: f32,
    vertical_step: f32,
    sample_count: u32,
    codes: &[u16],
) -> Vec<u8> {
    let mut body = Vec::new();
    body.extend_from_slice(&time_delta.to_le_bytes());
    body.extend_from_slice(&start_time.to_le_bytes());
    body.extend_from_slice(&end_time.to_le_bytes());
    body.extend_from_slice(&sample_start.to_le_bytes());
    body.extend_from_slice(&sample_length.to_le_bytes());
    body.extend_from_slice(&vertical_start.to_le_bytes());
    body.extend_from_slice(&vertical_step.to_le_bytes());
    body.extend_from_slice(&sample_count.to_le_bytes());
    for code in codes {
        body.extend_from_slice(&code.to_le_bytes());
    }
    body
}

fn value_body(
    time_delta: f32,
    start_time: f32,
    end_time: f32,
    sample_count: u32,
    values: &[f32],
) -> Vec<u8> {
    let mut body = Vec::new();
    body.extend_from_slice(&time_delta.to_le_bytes());
    body.extend_from_slice(&start_time.to_le_bytes());
    body.extend_from_slice(&end_time.to_le_bytes());
    body.extend_from_slice(&sample_count.to_le_bytes());
    for value in values {
        body.extend_from_slice(&value.to_le_bytes());
    }
    body
}

fn number(b: Binary32) -> f32 {
    f32::from_bits(b.bits)
}

fn voltages(waveform: &Waveform) -> Vec<f32> {
    match &waveform.samples {
        SampleData::Codes(codes) => codes
            .iter()
            .map(|&code| {
                number(waveform.metadata.vertical_start)
                    + (code as f32) * number(waveform.metadata.vertical_step) / 65536.0
            })
            .collect(),
        SampleData::Values(values) => values.iter().map(|&v| number(v)).collect(),
    }
}

fn times(waveform: &Waveform) -> Vec<f32> {
    (0..waveform.len())
        .map(|i| {
            number(waveform.metadata.start_time) + (i as f32) * number(waveform.metadata.time_delta)
        })
        .collect()
}

#[test]
fn raw_round_trip_maps_codes_onto_the_vertical_span() {
    let body = raw_body(1e-6, 0.0, 2e-6, 0, 3, -1.0, 2.0, 3, &[0, 32768, 65535]);
    let waveform = decode_waveform(&body, TransferType::Raw).unwrap();
    assert_eq!(waveform.samples, SampleData::Codes(vec![0, 32768, 65535]));
    let v = voltages(&waveform);
    assert_eq!(v.len(), 3);
    assert_eq!(v[0], -1.0);
    assert_eq!(v[1], 0.0);
    assert!((v[2] - (1.0 - 2.0 / 65536.0)).abs() < 1e-6);
    let t = times(&waveform);
    assert_eq!(t.len(), v.len());
    assert!(t[0] < t[1] && t[1] < t[2]);
    assert!((t[1] - t[0] - 1e-6).abs() < 1e-9);
    assert!((t[2] - t[1] - 1e-6).abs() < 1e-9);
}

#[test]
fn raw_body_decodes_to_times_and_volts() {
    let body = raw_body(1.0, 0.0, 2.0, 0, 3, 0.0, 10.0, 3, &[0, 32768, 65535]);
    let waveform = decode_waveform(&body, TransferType::Raw).unwrap();
    assert_eq!(times(&waveform), vec![0.0, 1.0, 2.0]);
    let v = voltages(&waveform);
    assert_eq!(v[0], 0.0);
    assert_eq!(v[1], 5.0);
    assert!((v[2] - 9.9998).abs() < 1e-4);
    assert_eq!(v.len(), 3);
}

#[test]
fn value_body_decodes_to_times_and_volts() {
    let body = value_body(0.5, 10.0, 11.0, 3, &[1.0, 2.0, 3.0]);
    let waveform = decode_waveform(&body, TransferType::NonRaw).unwrap();
    assert_eq!(times(&waveform), vec![10.0, 10.5, 11.0]);
    assert_eq!(voltages(&waveform), vec![1.0, 2.0, 3.0]);
}

#[test]
fn raw_metadata_fields_come_from_their_offsets() {
    let body = raw_body(0.25, -3.5, 8.0, 7, 9, -0.5, 4.0, 11, &[]);
    let m = parse_metadata(&body, TransferType::Raw).unwrap();
    assert_eq!(number(m.time_delta), 0.25);
    assert_eq!(number(m.start_time), -3.5);
    assert_eq!(number(m.end_time), 8.0);
    assert_eq!(m.sample_start, 7);
    assert_eq!(m.sample_length, 9);
    assert_eq!(number(m.vertical_start), -0.5);
    assert_eq!(number(m.vertical_step), 4.0);
    assert_eq!(m.sample_count, 11);
}

#[test]
fn value_metadata_leaves_raw_fields_at_zero() {
    let body = value_body(0.5, 10.0, 11.0, 0x01020304, &[]);
    let m = parse_metadata(&body, TransferType::NonRaw).unwrap();
    assert_eq!(
        m,
        WaveformMetadata {
            time_delta: Binary32 { bits: 0.5f32.to_bits() },
            start_time: Binary32 { bits: 10.0f32.to_bits() },
            end_time: Binary32 { bits: 11.0f32.to_bits() },
            sample_start: 0,
            sample_length: 0,
            vertical_start: Binary32 { bits: 0 },
            vertical_step: Binary32 { bits: 0 },
            sample_count: 0x01020304,
        }
    );
}

#[test]
fn metadata_is_little_endian() {
    let mut body = vec![0u8; 32];
    body[12] = 0x78;
    body[13] = 0x56;
    body[14] = 0x34;
    body[15] = 0x12;
    body[28] = 0x01;
    body[31] = 0x80;
    let m = parse_metadata(&body, TransferType::Raw).unwrap();
    assert_eq!(m.sample_start, 0x12345678);
    assert_eq!(m.sample_count, 0x80000001);
    let m = parse_metadata(&body, TransferType::NonRaw).unwrap();
    assert_eq!(m.sample_count, 0x12345678);
}

#[test]
fn short_raw_body_is_a_framing_error() {
    for len in [0usize, 1, 16, 31] {
        let body = vec![0u8; len];
        assert_eq!(parse_metadata(&body, TransferType::Raw), Err(ErrorKind::Framing));
        assert_eq!(extract_waveform(&body, TransferType::Raw), Err(ErrorKind::Framing));
        assert_eq!(decode_waveform(&body, TransferType::Raw), Err(ErrorKind::Framing));
    }
    assert!(decode_waveform(&vec![0u8; 32], TransferType::Raw).is_ok());
}

#[test]
fn short_value_body_is_a_framing_error() {
    for len in [0usize, 1, 15] {
        let body = vec![0u8; len];
        assert_eq!(parse_metadata(&body, TransferType::NonRaw), Err(ErrorKind::Framing));
        assert_eq!(extract_waveform(&body, TransferType::NonRaw), Err(ErrorKind::Framing));
        assert_eq!(decode_waveform(&body, TransferType::NonRaw), Err(ErrorKind::Framing));
    }
    assert!(decode_waveform(&vec![0u8; 16], TransferType::NonRaw).is_ok());
}

#[test]
fn sample_count_is_payload_length_over_width_rounded_down() {
    for extra in 0usize..=9 {
        let raw = vec![0u8; 32 + extra];
        assert_eq!(decode_waveform(&raw, TransferType::Raw).unwrap().len(), extra / 2);
        assert_eq!(extract_waveform(&raw, TransferType::Raw).unwrap().len(), extra / 2);
        let values = vec![0u8; 16 + extra];
        assert_eq!(decode_waveform(&values, TransferType::NonRaw).unwrap().len(), extra / 4);
    }
}

#[test]
fn payload_decides_the_count_not_the_metadata() {
    let body = value_body(0.5, 0.0, 0.0, 100, &[1.5, 2.5]);
    let waveform = decode_waveform(&body, TransferType::NonRaw).unwrap();
    assert_eq!(waveform.metadata.sample_count, 100);
    assert_eq!(waveform.len(), 2);
    assert_eq!(voltages(&waveform), vec![1.5, 2.5]);
}

#[test]
fn trailing_bytes_are_ignored() {
    assert_eq!(decode_codes(&[0x34, 0x12, 0xff]), vec![0x1234]);
    assert_eq!(
        decode_values(&[0x00, 0x00, 0x80, 0x3f, 1, 2, 3]),
        vec![Binary32 { bits: 0x3f800000 }]
    );
    assert_eq!(decode_codes(&[]), Vec::<u16>::new());
    assert_eq!(decode_codes(&[7]), Vec::<u16>::new());
    assert_eq!(decode_values(&[1, 2, 3]), Vec::<Binary32>::new());
}

#[test]
fn codes_are_little_endian() {
    assert_eq!(decode_codes(&[0x01, 0x00, 0x00, 0x01, 0xff, 0xff]), vec![1, 256, 65535]);
    assert_eq!(
        decode_values(&[0x04, 0x03, 0x02, 0x01]),
        vec![Binary32 { bits: 0x01020304 }]
    );
}

#[test]
fn decoding_twice_gives_the_same() {
    let body = raw_body(1.0, 0.0, 2.0, 0, 3, 0.0, 10.0, 3, &[5, 50000, 123]);
    let first = decode_waveform(&body, TransferType::Raw);
    let second = decode_waveform(&body, TransferType::Raw);
    assert_eq!(first, second);
    let first = decode_waveform(&body, TransferType::NonRaw);
    let second = decode_waveform(&body, TransferType::NonRaw);
    assert_eq!(first, second);
}

#[test]
fn transfer_type_goes_by_the_token() {
    assert_eq!(TransferType::from_token(b"RAW"), TransferType::Raw);
    assert_eq!(TransferType::from_token(b"ALL"), TransferType::NonRaw);
    assert_eq!(TransferType::from_token(b"MAX"), TransferType::NonRaw);
    assert_eq!(TransferType::from_token(b"raw"), TransferType::NonRaw);
    assert_eq!(TransferType::from_token(b"RAW "), TransferType::NonRaw);
    assert_eq!(TransferType::from_token(b""), TransferType::NonRaw);
    assert_eq!(TransferType::Raw.metadata_size(), 32);
    assert_eq!(TransferType::NonRaw.metadata_size(), 16);
    assert_eq!(TransferType::Raw.sample_width(), 2);
    assert_eq!(TransferType::NonRaw.sample_width(), 4);
}
