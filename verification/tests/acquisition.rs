use scope_waveform::acquisition::{decode_reply, Acquisition, ExchangeEvent, ExchangeRequest};
use scope_waveform::error::ErrorKind;
use scope_waveform::metadata::Binary32;
use scope_waveform::samples::SampleData;
use scope_waveform::transfer::TransferType;

fn value_reply() -> Vec<u8> {
    let mut body = Vec::new();
    for field in [0.5f32, 10.0, 11.0] {
        body.extend_from_slice(&field.to_le_bytes());
    }
    body.extend_from_slice(&3u32.to_le_bytes());
    for value in [1.0f32, 2.0, 3.0] {
        body.extend_from_slice(&value.to_le_bytes());
    }
    let mut stream = format!("#2{}", body.len()).into_bytes();
    stream.extend_from_slice(&body);
    stream.push(b'\n');
    stream
}

/// Serves an acquisition from `stream` and returns it with what was written.
fn serve(mut acquisition: Acquisition, stream: &[u8]) -> (Acquisition, Vec<Vec<u8>>) {
    let mut written = Vec::new();
    let mut at = 0;
    loop {
        let event = match acquisition.request() {
            ExchangeRequest::Write(bytes) => {
                written.push(bytes);
                ExchangeEvent::Written
            }
            ExchangeRequest::ReadLine => ExchangeEvent::Line(b"1\n".to_vec()),
            ExchangeRequest::ReadExact(count) => {
                if at + count <= stream.len() {
                    at += count;
                    ExchangeEvent::Bytes(stream[at - count..at].to_vec())
                } else {
                    ExchangeEvent::Failed
                }
            }
            ExchangeRequest::Finished => return (acquisition, written),
        };
        acquisition = acquisition.advance(event);
    }
}

#[test]
fn acquisition_writes_the_script_and_decodes_the_block() {
    let acquisition = Acquisition::start(2, b"ALL", b"MAX").unwrap();
    assert_eq!(acquisition.transfer_type(), TransferType::NonRaw);
    let (acquisition, written) = serve(acquisition, &value_reply());
    let lines: Vec<String> =
        written.into_iter().map(|w| String::from_utf8(w).unwrap()).collect();
    assert_eq!(
        lines,
        vec![
            "CHAN2:STATe 1\n",
            "CHAN1:STATe 0\n",
            "CHAN3:STATe 0\n",
            "CHAN4:STATe 0\n",
            "RUN\n",
            "ACQuire:MDEPth 1000000\n",
            "ACQuire:MDEPth?\n",
            "CHAN2:DATa:TYPE MAX\n",
            "SEQuence:WAIT? 1\n",
            "CHAN2:DATa:PACK? ALL, MAX\n",
        ]
    );
    assert!(acquisition.is_finished());
    let waveform = acquisition.finish().unwrap();
    assert_eq!(waveform.metadata.sample_count, 3);
    assert_eq!(
        waveform.samples,
        SampleData::Values(vec![
            Binary32 { bits: 1.0f32.to_bits() },
            Binary32 { bits: 2.0f32.to_bits() },
            Binary32 { bits: 3.0f32.to_bits() },
        ])
    );
}

#[test]
fn acquisition_asks_for_each_answer_in_turn() {
    let mut acquisition = Acquisition::start(1, b"ALL", b"RAW").unwrap();
    assert_eq!(acquisition.transfer_type(), TransferType::Raw);
    for _ in 0..6 {
        assert!(matches!(acquisition.request(), ExchangeRequest::Write(_)));
        acquisition = acquisition.advance(ExchangeEvent::Written);
    }
    assert_eq!(acquisition.request(), ExchangeRequest::Write(b"ACQuire:MDEPth?\n".to_vec()));
    acquisition = acquisition.advance(ExchangeEvent::Written);
    assert_eq!(acquisition.request(), ExchangeRequest::ReadLine);
    acquisition = acquisition.advance(ExchangeEvent::Line(b"1000000\n".to_vec()));
    assert_eq!(acquisition.request(), ExchangeRequest::Write(b"CHAN1:DATa:TYPE RAW\n".to_vec()));
    acquisition = acquisition.advance(ExchangeEvent::Written);
    assert_eq!(acquisition.request(), ExchangeRequest::Write(b"SEQuence:WAIT? 1\n".to_vec()));
    acquisition = acquisition.advance(ExchangeEvent::Written);
    assert_eq!(acquisition.request(), ExchangeRequest::ReadLine);
    acquisition = acquisition.advance(ExchangeEvent::Line(b"\n".to_vec()));
    assert_eq!(
        acquisition.request(),
        ExchangeRequest::Write(b"CHAN1:DATa:PACK? ALL, RAW\n".to_vec())
    );
    acquisition = acquisition.advance(ExchangeEvent::Written);
    assert_eq!(acquisition.request(), ExchangeRequest::ReadExact(2));
    acquisition = acquisition.advance(ExchangeEvent::Bytes(b"#2".to_vec()));
    assert_eq!(acquisition.request(), ExchangeRequest::ReadExact(2));
    acquisition = acquisition.advance(ExchangeEvent::Bytes(b"34".to_vec()));
    assert_eq!(acquisition.request(), ExchangeRequest::ReadExact(34));
    let mut body = vec![0u8; 32];
    body.extend_from_slice(&[0x10, 0x20]);
    acquisition = acquisition.advance(ExchangeEvent::Bytes(body));
    assert_eq!(acquisition.request(), ExchangeRequest::ReadExact(1));
    assert!(!acquisition.is_finished());
    acquisition = acquisition.advance(ExchangeEvent::Bytes(b"\n".to_vec()));
    assert!(acquisition.is_finished());
    assert_eq!(acquisition.request(), ExchangeRequest::Finished);
    let waveform = acquisition.finish().unwrap();
    assert_eq!(waveform.samples, SampleData::Codes(vec![0x2010]));
}

#[test]
fn invalid_channel_starts_nothing() {
    assert_eq!(Acquisition::start(5, b"ALL", b"RAW").err(), Some(ErrorKind::InvalidArgument));
    assert_eq!(Acquisition::start(0, b"ALL", b"RAW").err(), Some(ErrorKind::InvalidArgument));
    assert!(Acquisition::start(4, b"ALL", b"RAW").is_ok());
}

#[test]
fn failed_write_is_a_transport_error() {
    let acquisition = Acquisition::start(1, b"ALL", b"RAW").unwrap();
    let acquisition = acquisition.advance(ExchangeEvent::Written).advance(ExchangeEvent::Failed);
    assert!(acquisition.is_finished());
    assert_eq!(acquisition.request(), ExchangeRequest::Finished);
    assert_eq!(acquisition.finish().err(), Some(ErrorKind::Transport));
}

#[test]
fn failed_line_is_a_transport_error() {
    let mut acquisition = Acquisition::start(1, b"ALL", b"RAW").unwrap();
    for _ in 0..7 {
        acquisition = acquisition.advance(ExchangeEvent::Written);
    }
    assert_eq!(acquisition.request(), ExchangeRequest::ReadLine);
    let acquisition = acquisition.advance(ExchangeEvent::Failed);
    assert_eq!(acquisition.finish().err(), Some(ErrorKind::Transport));
}

#[test]
fn event_that_does_not_answer_the_request_is_a_transport_error() {
    let acquisition = Acquisition::start(1, b"ALL", b"RAW").unwrap();
    let acquisition = acquisition.advance(ExchangeEvent::Line(b"x\n".to_vec()));
    assert_eq!(acquisition.finish().err(), Some(ErrorKind::Transport));
}

#[test]
fn stream_that_ends_in_the_block_is_a_transport_error() {
    let stream = value_reply();
    let acquisition = Acquisition::start(3, b"ALL", b"ALL").unwrap();
    let (acquisition, written) = serve(acquisition, &stream[..stream.len() - 1]);
    assert_eq!(written.len(), 10);
    assert_eq!(acquisition.finish().err(), Some(ErrorKind::Transport));
}

#[test]
fn malformed_block_is_a_framing_error() {
    let acquisition = Acquisition::start(3, b"ALL", b"ALL").unwrap();
    let (acquisition, _) = serve(acquisition, b"!210abcdefghij\n");
    assert_eq!(acquisition.finish().err(), Some(ErrorKind::Framing));
    let acquisition = Acquisition::start(3, b"ALL", b"RAW").unwrap();
    let (acquisition, _) = serve(acquisition, &value_reply());
    assert_eq!(acquisition.finish().err(), Some(ErrorKind::Framing));
}

#[test]
fn acquisition_given_up_counts_as_transport_error() {
    let acquisition = Acquisition::start(1, b"ALL", b"RAW").unwrap();
    assert!(!acquisition.is_finished());
    assert_eq!(acquisition.finish().err(), Some(ErrorKind::Transport));
}

#[test]
fn reply_in_memory_decodes_like_the_exchange() {
    let stream = value_reply();
    let direct = decode_reply(&stream, TransferType::NonRaw);
    let (acquisition, _) = serve(Acquisition::start(1, b"ALL", b"ALL").unwrap(), &stream);
    assert_eq!(direct, acquisition.finish());
    assert_eq!(decode_reply(b"#0", TransferType::Raw), Err(ErrorKind::Framing));
    assert_eq!(decode_reply(b"#10\n", TransferType::Raw), Err(ErrorKind::Framing));
    assert_eq!(decode_reply(b"#15abc", TransferType::Raw), Err(ErrorKind::Transport));
}
