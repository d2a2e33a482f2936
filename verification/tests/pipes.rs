use origami::streams::{Inherit, PollRead, PollWrite, Streams, MAX_LEN};

fn write_n(streams: &mut Streams<u32>, id: u32, token: u32, data: &[u8]) -> Option<usize> {
    match streams.poll_write(id, token, data).expect("known stream") {
        PollWrite::Ready { written, .. } => Some(written),
        PollWrite::Pending => None,
        PollWrite::Host(_) => panic!("not a proxy"),
    }
}

fn read_n(streams: &mut Streams<u32>, id: u32, token: u32, max: usize) -> Option<Vec<u8>> {
    match streams.poll_read(id, token, max).expect("known stream") {
        PollRead::Ready { data, .. } => Some(data),
        PollRead::Pending => None,
        PollRead::Host(_) => panic!("not a proxy"),
    }
}

#[test]
fn ids_are_strictly_increasing() {
    let mut streams: Streams<u32> = Streams::new();
    let a = streams.allocate(None);
    let b = streams.allocate(Some(Inherit::Stdout));
    streams.free(a.id());
    let c = streams.allocate(None);
    assert_eq!(a.id(), 0);
    assert_eq!(b.id(), 1);
    assert_eq!(c.id(), 2);
    assert!(a.is_normal());
    assert!(!b.is_normal());
    assert!(streams.by_id(0).is_none());
    assert_eq!(streams.by_id(1).map(|p| p.id()), Some(1));
}

#[test]
fn write_then_read_returns_the_bytes_in_order() {
    let mut streams: Streams<u32> = Streams::new();
    let p = streams.allocate(None);
    assert_eq!(write_n(&mut streams, p.id(), 1, b"hello\n"), Some(6));
    assert_eq!(read_n(&mut streams, p.id(), 2, 4), Some(b"hell".to_vec()));
    assert_eq!(read_n(&mut streams, p.id(), 2, 4), Some(b"o\n".to_vec()));
    assert_eq!(read_n(&mut streams, p.id(), 2, 4), None);
}

#[test]
fn buffer_never_exceeds_the_limit() {
    let mut streams: Streams<u32> = Streams::new();
    let p = streams.allocate(None);
    let data = vec![7u8; 8192];
    assert_eq!(write_n(&mut streams, p.id(), 1, &data), Some(MAX_LEN));
    assert_eq!(write_n(&mut streams, p.id(), 1, &data[MAX_LEN..]), None);
    assert_eq!(read_n(&mut streams, p.id(), 2, 10000).map(|d| d.len()), Some(4096));
}

#[test]
fn write_to_closed_pipe_returns_zero() {
    let mut streams: Streams<u32> = Streams::new();
    let p = streams.allocate(None);
    streams.close(p.id()).expect("known stream");
    assert_eq!(write_n(&mut streams, p.id(), 1, b"abc"), Some(0));
}

#[test]
fn read_from_empty_closed_pipe_is_eof() {
    let mut streams: Streams<u32> = Streams::new();
    let p = streams.allocate(None);
    assert_eq!(write_n(&mut streams, p.id(), 1, b"ab"), Some(2));
    streams.close(p.id()).expect("known stream");
    assert_eq!(read_n(&mut streams, p.id(), 2, 16), Some(b"ab".to_vec()));
    assert_eq!(read_n(&mut streams, p.id(), 2, 16), Some(Vec::new()));
}

#[test]
fn read_from_output_proxy_is_eof() {
    let mut streams: Streams<u32> = Streams::new();
    let out = streams.allocate(Some(Inherit::Stdout));
    let err = streams.allocate(Some(Inherit::Stderr));
    assert_eq!(read_n(&mut streams, out.id(), 1, 64), Some(Vec::new()));
    assert_eq!(read_n(&mut streams, err.id(), 1, 64), Some(Vec::new()));
    streams.close(out.id()).expect("known stream");
    assert_eq!(read_n(&mut streams, out.id(), 1, 64), Some(Vec::new()));
}

#[test]
fn write_to_input_proxy_returns_zero() {
    let mut streams: Streams<u32> = Streams::new();
    let inp = streams.allocate(Some(Inherit::Stdin));
    assert_eq!(write_n(&mut streams, inp.id(), 1, b"abc"), Some(0));
}

#[test]
fn proxies_hand_the_right_direction_to_the_host() {
    let mut streams: Streams<u32> = Streams::new();
    let out = streams.allocate(Some(Inherit::Stdout));
    let err = streams.allocate(Some(Inherit::Stderr));
    let inp = streams.allocate(Some(Inherit::Stdin));
    assert!(matches!(
        streams.poll_write(out.id(), 1, b"x"),
        Some(PollWrite::Host(Inherit::Stdout))
    ));
    assert!(matches!(
        streams.poll_write(err.id(), 1, b"x"),
        Some(PollWrite::Host(Inherit::Stderr))
    ));
    assert!(matches!(
        streams.poll_read(inp.id(), 1, 8),
        Some(PollRead::Host(Inherit::Stdin))
    ));
    assert_eq!(streams.poll_flush(out.id()), Some(Some(Inherit::Stdout)));
    assert_eq!(streams.poll_flush(inp.id()), Some(None));
    assert_eq!(streams.poll_flush(99), None);
}

#[test]
fn parked_reader_is_woken_by_a_write() {
    let mut streams: Streams<u32> = Streams::new();
    let p = streams.allocate(None);
    assert!(matches!(streams.poll_read(p.id(), 41, 8), Some(PollRead::Pending)));
    match streams.poll_write(p.id(), 42, b"hi") {
        Some(PollWrite::Ready { written, wake }) => {
            assert_eq!(written, 2);
            assert_eq!(wake, Some(41));
        }
        _ => panic!("write must be accepted"),
    }
    match streams.poll_write(p.id(), 42, b"again") {
        Some(PollWrite::Ready { written, wake }) => {
            assert_eq!(written, 5);
            assert_eq!(wake, None);
        }
        _ => panic!("write must be accepted"),
    }
}

#[test]
fn parked_writer_is_woken_by_a_read() {
    let mut streams: Streams<u32> = Streams::new();
    let p = streams.allocate(None);
    let full = vec![1u8; MAX_LEN];
    assert_eq!(write_n(&mut streams, p.id(), 7, &full), Some(MAX_LEN));
    assert!(matches!(streams.poll_write(p.id(), 7, b"more"), Some(PollWrite::Pending)));
    match streams.poll_read(p.id(), 8, 16) {
        Some(PollRead::Ready { data, wake }) => {
            assert_eq!(data.len(), 16);
            assert_eq!(wake, Some(7));
        }
        _ => panic!("read must hand out bytes"),
    }
}

#[test]
fn empty_write_to_open_pipe_parks_the_writer() {
    let mut streams: Streams<u32> = Streams::new();
    let p = streams.allocate(None);
    assert!(matches!(streams.poll_write(p.id(), 3, b""), Some(PollWrite::Pending)));
}

#[test]
fn close_wakes_both_parties_and_is_idempotent() {
    let mut streams: Streams<u32> = Streams::new();
    let p = streams.allocate(None);
    assert!(matches!(streams.poll_read(p.id(), 5, 8), Some(PollRead::Pending)));
    assert!(matches!(streams.poll_write(p.id(), 6, b""), Some(PollWrite::Pending)));
    let woken = streams.close(p.id()).expect("known stream");
    assert_eq!(woken.reader, Some(5));
    assert_eq!(woken.writer, Some(6));
    let again = streams.close(p.id()).expect("known stream");
    assert_eq!(again.reader, None);
    assert_eq!(again.writer, None);
}

#[test]
fn free_removes_the_pipe_and_hands_back_the_parked() {
    let mut streams: Streams<u32> = Streams::new();
    let p = streams.allocate(None);
    assert!(matches!(streams.poll_read(p.id(), 5, 8), Some(PollRead::Pending)));
    let woken = streams.free(p.id());
    assert_eq!(woken.reader, Some(5));
    assert_eq!(woken.writer, None);
    assert!(streams.by_id(p.id()).is_none());
    assert!(streams.poll_write(p.id(), 1, b"x").is_none());
    let nothing = streams.free(p.id());
    assert_eq!(nothing.reader, None);
}

#[test]
fn unknown_stream_changes_nothing() {
    let mut streams: Streams<u32> = Streams::new();
    let p = streams.allocate(None);
    assert_eq!(write_n(&mut streams, p.id(), 1, b"keep"), Some(4));
    assert!(streams.poll_read(77, 1, 8).is_none());
    assert!(streams.close(77).is_none());
    assert_eq!(read_n(&mut streams, p.id(), 2, 8), Some(b"keep".to_vec()));
}

#[test]
fn conservation_over_a_mixed_history() {
    let mut streams: Streams<u32> = Streams::new();
    let p = streams.allocate(None);
    let input: Vec<u8> = (0..10000u32).map(|i| (i % 251) as u8).collect();
    let mut written = 0usize;
    let mut received: Vec<u8> = Vec::new();
    let mut step = 0usize;
    while written < input.len() {
        if let Some(n) = write_n(&mut streams, p.id(), 1, &input[written..]) {
            written += n;
        }
        step += 1;
        if let Some(d) = read_n(&mut streams, p.id(), 2, 100 + 37 * (step % 5)) {
            received.extend_from_slice(&d);
        }
    }
    streams.close(p.id()).expect("known stream");
    loop {
        let d = read_n(&mut streams, p.id(), 2, 512).expect("closed pipe never parks");
        if d.is_empty() {
            break;
        }
        received.extend_from_slice(&d);
    }
    assert_eq!(written, input.len());
    assert_eq!(received, input);
}

#[test]
fn backpressure_suspends_at_the_limit_and_resumes() {
    let mut streams: Streams<u32> = Streams::new();
    let stdin = streams.allocate(None);
    let data: Vec<u8> = (0..8192u32).map(|i| (i % 256) as u8).collect();
    let mut sent = 0usize;
    sent += write_n(&mut streams, stdin.id(), 1, &data[sent..]).expect("room at first");
    assert_eq!(sent, 4096);
    assert!(matches!(
        streams.poll_write(stdin.id(), 1, &data[sent..]),
        Some(PollWrite::Pending)
    ));
    let mut got: Vec<u8> = Vec::new();
    for round in 0..8 {
        match streams.poll_read(stdin.id(), 2, 512) {
            Some(PollRead::Ready { data: d, wake }) => {
                assert_eq!(d.len(), 512);
                assert_eq!(wake, if round == 0 { Some(1) } else { None });
                got.extend_from_slice(&d);
            }
            _ => panic!("buffer holds bytes"),
        }
    }
    sent += write_n(&mut streams, stdin.id(), 1, &data[sent..]).expect("room again");
    assert_eq!(sent, 8192);
    loop {
        match read_n(&mut streams, stdin.id(), 2, 512) {
            Some(d) => got.extend_from_slice(&d),
            None => break,
        }
    }
    assert_eq!(got, data);
}
