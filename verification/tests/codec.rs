use origami::protocol::{
    encode_frame, split_frame, DecodeError, DecodeResult, EncodeError, EncodeResult,
    ProtocolCodec,
};
use origami::structs::{
    get_from_jvm, get_io_error, get_to_jvm, put_from_jvm, put_io_error, put_to_jvm, Close,
    CloseResult, Duration, ErrorKind, Exec, ExecError, ExecResult, FromJvm, IoError, Read,
    ReadResult, TaskInfo, ToJvm, Wait, WaitResult, Write, WriteResult,
};
use origami::wire::{get_bool, get_string, get_u32, get_u64, put_bool, put_string, put_u32, put_u64};

fn to_jvm_bytes(m: &ToJvm) -> Vec<u8> {
    let mut out = Vec::new();
    put_to_jvm(&mut out, m);
    out
}

fn from_jvm_bytes(m: &FromJvm) -> Vec<u8> {
    let mut out = Vec::new();
    put_from_jvm(&mut out, m);
    out
}

fn frame_of(payload: &Vec<u8>) -> Vec<u8> {
    let mut buf = vec![0u8; payload.len() + 4];
    assert_eq!(encode_frame(payload, &mut buf), EncodeResult::Written(payload.len() + 4));
    buf
}

fn io_error(kind: ErrorKind, message: &str) -> IoError {
    IoError { kind, message: message.to_string() }
}

#[test]
fn integers_are_little_endian() {
    let mut out = Vec::new();
    put_u32(&mut out, 0x0403_0201);
    put_u64(&mut out, 0x0807_0605_0403_0201);
    assert_eq!(out, vec![1, 2, 3, 4, 1, 2, 3, 4, 5, 6, 7, 8]);
    assert_eq!(get_u32(&out, 0), Some((0x0403_0201, 4)));
    assert_eq!(get_u64(&out, 4), Some((0x0807_0605_0403_0201, 12)));
    assert_eq!(get_u32(&out, 10), None);
    assert_eq!(get_u64(&out, 5), None);
}

#[test]
fn bool_is_ff_and_any_nonzero_reads_true() {
    let mut out = Vec::new();
    put_bool(&mut out, true);
    put_bool(&mut out, false);
    assert_eq!(out, vec![0xFF, 0x00]);
    assert_eq!(get_bool(&[7], 0), Some((true, 1)));
    assert_eq!(get_bool(&[0], 0), Some((false, 1)));
    assert_eq!(get_bool(&[], 0), None);
}

#[test]
fn string_carries_its_byte_length_in_eight_bytes() {
    let mut out = Vec::new();
    put_string(&mut out, "h\u{e9}");
    assert_eq!(out, vec![3, 0, 0, 0, 0, 0, 0, 0, b'h', 0xC3, 0xA9]);
    assert_eq!(get_string(&out, 0), Some(("h\u{e9}".to_string(), 11)));
}

#[test]
fn invalid_utf8_is_rejected() {
    let bytes = vec![2, 0, 0, 0, 0, 0, 0, 0, 0xFF, 0xFE];
    assert_eq!(get_string(&bytes, 0), None);
}

#[test]
fn string_longer_than_the_buffer_is_rejected() {
    let bytes = vec![9, 0, 0, 0, 0, 0, 0, 0, b'a'];
    assert_eq!(get_string(&bytes, 0), None);
}

#[test]
fn wait_has_the_documented_layout() {
    let m = ToJvm::Wait(Wait {
        tag: 5,
        task: 3,
        timeout: Some(Duration { secs: 0, nanos: 100_000_000 }),
    });
    let mut expected: Vec<u8> = vec![3, 0, 0, 0, 0, 0, 0, 0];
    expected.extend_from_slice(&[5, 0, 0, 0]);
    expected.extend_from_slice(&[3, 0, 0, 0]);
    expected.push(1);
    expected.extend_from_slice(&[0; 8]);
    expected.extend_from_slice(&100_000_000u32.to_le_bytes());
    assert_eq!(to_jvm_bytes(&m), expected);
}

#[test]
fn exec_has_the_documented_layout() {
    let m = ToJvm::Exec(Exec {
        tag: 1,
        main_class: "X".to_string(),
        params: vec!["a".to_string()],
        stdout: Some(2),
        stderr: None,
        stdin: None,
    });
    let mut expected: Vec<u8> = vec![0; 8];
    expected.extend_from_slice(&[1, 0, 0, 0]);
    expected.extend_from_slice(&[1, 0, 0, 0, 0, 0, 0, 0, b'X']);
    expected.extend_from_slice(&[1, 0, 0, 0, 0, 0, 0, 0]);
    expected.extend_from_slice(&[1, 0, 0, 0, 0, 0, 0, 0, b'a']);
    expected.extend_from_slice(&[1, 2, 0, 0, 0]);
    expected.push(0);
    expected.push(0);
    assert_eq!(to_jvm_bytes(&m), expected);
}

#[test]
fn every_message_to_the_worker_round_trips() {
    let messages = vec![
        ToJvm::Exec(Exec {
            tag: 9,
            main_class: "net.example.Main".to_string(),
            params: vec!["foo".to_string(), "".to_string(), "b\u{e4}r".to_string()],
            stdout: Some(0),
            stderr: Some(u32::MAX),
            stdin: None,
        }),
        ToJvm::WriteResult(WriteResult { tag: 1, result: Ok(4096) }),
        ToJvm::WriteResult(WriteResult {
            tag: 2,
            result: Err(io_error(ErrorKind::BrokenPipe, "broken")),
        }),
        ToJvm::ReadResult(ReadResult { tag: 3, result: Ok(vec![1, 2, 3]) }),
        ToJvm::ReadResult(ReadResult { tag: 3, result: Ok(vec![]) }),
        ToJvm::ReadResult(ReadResult {
            tag: 4,
            result: Err(io_error(ErrorKind::Other, "invalid stream id 7")),
        }),
        ToJvm::Wait(Wait { tag: 5, task: 7, timeout: None }),
        ToJvm::Wait(Wait {
            tag: 6,
            task: 7,
            timeout: Some(Duration { secs: u64::MAX, nanos: 999_999_999 }),
        }),
        ToJvm::CloseResult(CloseResult { tag: 7, result: Ok(()) }),
        ToJvm::CloseResult(CloseResult {
            tag: 8,
            result: Err(io_error(ErrorKind::UnexpectedEof, "")),
        }),
    ];
    for m in messages {
        let bytes = to_jvm_bytes(&m);
        let (back, next) = get_to_jvm(&bytes, 0).expect("decodes");
        assert_eq!(next, bytes.len());
        assert_eq!(back, m);
        let mut longer = bytes.clone();
        longer.extend_from_slice(&[0xAA, 0xBB]);
        let (again, at) = get_to_jvm(&longer, 0).expect("decodes with a tail");
        assert_eq!(at, bytes.len());
        assert_eq!(again, m);
    }
}

#[test]
fn every_message_from_the_worker_round_trips() {
    let messages = vec![
        FromJvm::ExecResult(ExecResult { tag: 1, result: Ok(TaskInfo { task_id: 7 }) }),
        FromJvm::ExecResult(ExecResult {
            tag: 2,
            result: Err(ExecError::Failure("boom".to_string())),
        }),
        FromJvm::ExecResult(ExecResult {
            tag: 3,
            result: Err(ExecError::InvalidClass("no.such.Class".to_string())),
        }),
        FromJvm::ExecResult(ExecResult {
            tag: 4,
            result: Err(ExecError::NoMainFn("X".to_string())),
        }),
        FromJvm::Write(Write { tag: 5, stream: 1, data: b"hello\n".to_vec() }),
        FromJvm::Read(Read { tag: 6, stream: 2, size: 512 }),
        FromJvm::WaitResult(WaitResult { tag: 7, timeout: true }),
        FromJvm::WaitResult(WaitResult { tag: 8, timeout: false }),
        FromJvm::Close(Close { tag: 9, stream: 3 }),
    ];
    for m in messages {
        let bytes = from_jvm_bytes(&m);
        let (back, next) = get_from_jvm(&bytes, 0).expect("decodes");
        assert_eq!(next, bytes.len());
        assert_eq!(back, m);
    }
}

#[test]
fn every_error_kind_round_trips_by_its_number() {
    let kinds = [
        ErrorKind::Other,
        ErrorKind::NotFound,
        ErrorKind::PermissionDenied,
        ErrorKind::ConnectionRefused,
        ErrorKind::ConnectionReset,
        ErrorKind::ConnectionAborted,
        ErrorKind::NotConnected,
        ErrorKind::AddrInUse,
        ErrorKind::AddrNotAvailable,
        ErrorKind::BrokenPipe,
        ErrorKind::AlreadyExists,
        ErrorKind::WouldBlock,
        ErrorKind::InvalidInput,
        ErrorKind::InvalidData,
        ErrorKind::TimedOut,
        ErrorKind::WriteZero,
        ErrorKind::Interrupted,
        ErrorKind::UnexpectedEof,
    ];
    for (number, kind) in kinds.iter().enumerate() {
        assert_eq!(kind.code(), number);
        assert_eq!(ErrorKind::from_code(number), *kind);
        let e = io_error(*kind, "m");
        let mut out = Vec::new();
        put_io_error(&mut out, &e);
        assert_eq!(out[0] as usize, number);
        assert_eq!(get_io_error(&out, 0), Some((e, out.len())));
    }
}

#[test]
fn unknown_error_kind_decodes_as_other() {
    assert_eq!(ErrorKind::from_code(18), ErrorKind::Other);
    assert_eq!(ErrorKind::from_code(usize::MAX), ErrorKind::Other);
    let mut bytes: Vec<u8> = vec![200, 0, 0, 0, 0, 0, 0, 0];
    put_string(&mut bytes, "odd");
    let (e, next) = get_io_error(&bytes, 0).expect("decodes");
    assert_eq!(next, bytes.len());
    assert_eq!(e, io_error(ErrorKind::Other, "odd"));
}

#[test]
fn unknown_variant_index_is_malformed() {
    let mut bytes: Vec<u8> = vec![5, 0, 0, 0, 0, 0, 0, 0];
    bytes.extend_from_slice(&[0; 16]);
    assert_eq!(get_from_jvm(&bytes, 0), None);
    assert_eq!(get_to_jvm(&bytes, 0), None);
}

#[test]
fn bad_result_tag_is_malformed() {
    let mut bytes: Vec<u8> = vec![1, 0, 0, 0, 0, 0, 0, 0];
    bytes.extend_from_slice(&[1, 0, 0, 0]);
    bytes.push(2);
    bytes.extend_from_slice(&[0; 8]);
    assert_eq!(get_to_jvm(&bytes, 0), None);
}

#[test]
fn frame_is_length_prefixed() {
    let payload = vec![9u8, 8, 7];
    assert_eq!(frame_of(&payload), vec![3, 0, 0, 0, 9, 8, 7]);
    assert_eq!(split_frame(&[3, 0, 0, 0, 9, 8, 7, 1]), Some((4, 7)));
    assert_eq!(split_frame(&[3, 0, 0, 0, 9, 8]), None);
    assert_eq!(split_frame(&[3, 0, 0]), None);
    assert_eq!(split_frame(&[0, 0, 0, 0]), Some((4, 4)));
}

#[test]
fn encode_reports_overflow_with_the_size_needed() {
    let mut codec = ProtocolCodec;
    let m = ToJvm::Wait(Wait { tag: 5, task: 3, timeout: None });
    let needed = 4 + 8 + 4 + 4 + 1;
    let mut small = vec![0xEEu8; needed - 1];
    assert_eq!(codec.encode(&m, &mut small), EncodeResult::Overflow(needed));
    assert_eq!(small, vec![0xEEu8; needed - 1]);
    let mut exact = vec![0xEEu8; needed];
    assert_eq!(codec.encode(&m, &mut exact), EncodeResult::Written(needed));
    assert_eq!(&exact[..4], &[17, 0, 0, 0]);
    let mut large = vec![0xEEu8; needed + 3];
    assert_eq!(codec.encode(&m, &mut large), EncodeResult::Written(needed));
    assert_eq!(&large[..needed], &exact[..]);
    assert_eq!(&large[needed..], &[0xEE, 0xEE, 0xEE]);
}

#[test]
fn encode_errors_are_distinct_from_overflow() {
    assert_ne!(EncodeResult::Failed(EncodeError::TooLong), EncodeResult::Overflow(0));
    assert_ne!(EncodeResult::Failed(EncodeError::TooLong), EncodeResult::Written(0));
}

#[test]
fn decode_consumes_exactly_one_frame() {
    let mut codec = ProtocolCodec;
    let first = FromJvm::Write(Write { tag: 1, stream: 4, data: b"hel".to_vec() });
    let second = FromJvm::WaitResult(WaitResult { tag: 2, timeout: false });
    let mut buffer = frame_of(&from_jvm_bytes(&first));
    let first_len = buffer.len();
    buffer.extend_from_slice(&frame_of(&from_jvm_bytes(&second)));
    let (n, r) = codec.decode(&buffer);
    assert_eq!(n, first_len);
    assert_eq!(r, DecodeResult::Message(first));
    let (m, s) = codec.decode(&buffer[n..]);
    assert_eq!(n + m, buffer.len());
    assert_eq!(s, DecodeResult::Message(second));
}

#[test]
fn decode_of_an_incomplete_frame_consumes_nothing() {
    let mut codec = ProtocolCodec;
    let m = FromJvm::Read(Read { tag: 1, stream: 4, size: 16 });
    let buffer = frame_of(&from_jvm_bytes(&m));
    for cut in 0..buffer.len() {
        assert_eq!(codec.decode(&buffer[..cut]), (0, DecodeResult::UnexpectedEnd));
    }
    assert_eq!(codec.decode(&buffer), (buffer.len(), DecodeResult::Message(m)));
}

#[test]
fn decode_of_a_malformed_payload_is_an_error() {
    let mut codec = ProtocolCodec;
    let garbage = frame_of(&vec![0xFFu8; 12]);
    assert_eq!(codec.decode(&garbage), (0, DecodeResult::Failed(DecodeError::Malformed)));
    let m = FromJvm::Close(Close { tag: 1, stream: 4 });
    let mut payload = from_jvm_bytes(&m);
    payload.push(0);
    let padded = frame_of(&payload);
    assert_eq!(codec.decode(&padded), (0, DecodeResult::Failed(DecodeError::Malformed)));
    let mut short = from_jvm_bytes(&m);
    short.pop();
    let truncated = frame_of(&short);
    assert_eq!(codec.decode(&truncated), (0, DecodeResult::Failed(DecodeError::Malformed)));
}
