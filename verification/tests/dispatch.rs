use origami::fncall::{
    create, exec_answer, exec_result, wait_answer, CallError, get_stream, invalid_stream, serve_close, serve_read, serve_write,
    wait_result, AsyncQueue, JvmInterface, PacketHandler, Reaction, Served,
};
use origami::jvm::async_command::JvmCommand as AsyncJvmCommand;
use origami::jvm::command::Stdio;
use origami::jvm::direct::{call_error, DirectJvm, Task, MAIN_CLASS};
use origami::jvm::process::ProcessJvm;
use origami::protocol::{encode_frame, DecodeResult, EncodeResult, ProtocolCodec};
use origami::streams::{Inherit, PollRead, PollWrite, Streams};
use origami::structs::{
    get_to_jvm, put_from_jvm, Close, Duration, ErrorKind, ExecError, ExecResult, FromJvm, Read,
    TaskInfo, ToJvm, Wait, WaitResult, Write,
};

type Session = JvmInterface<u32, u32, u32>;

fn session() -> (Session, PacketHandler) {
    create()
}

/// Sends a frame of the host through the codec, as the worker would read it.
fn through_the_wire(m: &ToJvm) -> ToJvm {
    let mut codec = ProtocolCodec;
    let mut buf = vec![0u8; 1 << 16];
    let n = match codec.encode(m, &mut buf) {
        EncodeResult::Written(n) => n,
        other => panic!("encode failed: {:?}", other),
    };
    let (back, next) = get_to_jvm(&buf[..n], 4).expect("decodes");
    assert_eq!(next, n);
    back
}

/// Brings a frame of the worker to the host through the codec.
fn from_the_wire(m: &FromJvm) -> FromJvm {
    let mut payload = Vec::new();
    put_from_jvm(&mut payload, m);
    let mut buf = vec![0u8; payload.len() + 4];
    assert_eq!(encode_frame(&payload, &mut buf), EncodeResult::Written(payload.len() + 4));
    let mut codec = ProtocolCodec;
    match codec.decode(&buf) {
        (n, DecodeResult::Message(back)) => {
            assert_eq!(n, buf.len());
            back
        }
        other => panic!("decode failed: {:?}", other),
    }
}

#[test]
fn callback_registry_hands_each_waiter_back_once() {
    let mut q: AsyncQueue<&'static str> = AsyncQueue::new();
    q.start_callback(1, "one");
    q.start_callback(2, "two");
    assert_eq!(q.finish_callback(1), Some("one"));
    assert_eq!(q.finish_callback(1), None);
    assert_eq!(q.finish_callback(3), None);
    assert_eq!(q.finish_callback(2), Some("two"));
}

#[test]
fn callback_registry_replaces_a_waiter_under_the_same_tag() {
    let mut q: AsyncQueue<u8> = AsyncQueue::new();
    q.start_callback(1, 10);
    q.start_callback(1, 11);
    assert_eq!(q.finish_callback(1), Some(11));
    assert_eq!(q.finish_callback(1), None);
}

#[test]
fn invalid_stream_error_names_the_id() {
    let e = invalid_stream(3735928559);
    assert_eq!(e.kind, ErrorKind::Other);
    assert_eq!(e.message, "invalid stream id 3735928559");
    assert_eq!(invalid_stream(0).message, "invalid stream id 0");
}

#[test]
fn get_stream_finds_pipes_and_reports_others() {
    let mut streams: Streams<u32> = Streams::new();
    let p = streams.allocate(Some(Inherit::Stderr));
    let found = get_stream(&streams, p.id()).expect("known");
    assert_eq!(found.id(), p.id());
    assert!(!found.is_normal());
    let e = get_stream(&streams, 5).expect_err("unknown");
    assert_eq!(e.message, "invalid stream id 5");
}

#[test]
fn exec_allocates_pipes_in_order_and_registers_the_waiter() {
    let (mut s, handler) = session();
    let params = vec!["a".to_string(), "b".to_string()];
    let call = s.exec(77, "X", &params, Stdio::Piped, Stdio::Inherit, Stdio::Null);
    match &call.packet {
        ToJvm::Exec(e) => {
            assert_eq!(e.tag, 0);
            assert_eq!(e.main_class, "X");
            assert_eq!(e.params, params);
            assert_eq!(e.stdout, Some(0));
            assert_eq!(e.stderr, Some(1));
            assert_eq!(e.stdin, None);
        }
        other => panic!("not an exec frame: {:?}", other),
    }
    assert!(call.pipes.stdout.expect("piped").is_normal());
    assert!(!call.pipes.stderr.expect("inherited").is_normal());
    assert!(call.pipes.stdin.is_none());
    assert_eq!(s.free_stream_ids(), u32::MAX - 2);
    let r = handler.run(
        &mut s,
        FromJvm::ExecResult(ExecResult { tag: 0, result: Ok(TaskInfo { task_id: 7 }) }),
    );
    match r {
        Reaction::FinishExec { waiter, result } => {
            assert_eq!(waiter, Some(77));
            let data = exec_result(&call.pipes, result).expect("launched");
            assert_eq!(data.task_id, 7);
            assert_eq!(data.stdout.map(|p| p.id()), Some(0));
            assert!(data.stderr.is_none());
            assert!(data.stdin.is_none());
        }
        _ => panic!("an exec result finishes an exec"),
    }
}

#[test]
fn exec_errors_are_handed_on() {
    let (mut s, _handler) = session();
    let call = s.exec(1, "X", &[], Stdio::Null, Stdio::Null, Stdio::Null);
    for e in [
        ExecError::Failure("f".to_string()),
        ExecError::InvalidClass("c".to_string()),
        ExecError::NoMainFn("m".to_string()),
    ] {
        let r = exec_result(&call.pipes, ExecResult { tag: 0, result: Err(e.clone()) });
        assert_eq!(r.err(), Some(e));
    }
}

#[test]
fn launch_maps_worker_errors_to_facade_errors() {
    let (mut s, _handler) = session();
    let call = s.exec(1, "X", &[], Stdio::Null, Stdio::Null, Stdio::Null);
    let e = DirectJvm::launch(
        &call.pipes,
        ExecResult { tag: 0, result: Err(ExecError::InvalidClass("no.Such".to_string())) },
    )
    .expect_err("error");
    assert_eq!(e.to_string(), "Invalid main class: no.Such");
    let e = DirectJvm::launch(
        &call.pipes,
        ExecResult { tag: 0, result: Err(ExecError::NoMainFn("X".to_string())) },
    )
    .expect_err("error");
    assert_eq!(e.to_string(), "Class does not have a main function: X");
    let e = DirectJvm::launch(
        &call.pipes,
        ExecResult { tag: 0, result: Err(ExecError::Failure("bad".to_string())) },
    )
    .expect_err("error");
    assert_eq!(e.to_string(), "General error: bad");
}

#[test]
fn unknown_tag_is_silently_ignored() {
    let (mut s, handler) = session();
    let _ = s.wait(5, 3, None);
    let r = handler.run(
        &mut s,
        FromJvm::ExecResult(ExecResult { tag: 0, result: Ok(TaskInfo { task_id: 1 }) }),
    );
    assert!(matches!(r, Reaction::FinishExec { waiter: None, .. }));
    let r = handler.run(&mut s, FromJvm::WaitResult(WaitResult { tag: 9, timeout: false }));
    assert!(matches!(r, Reaction::FinishWait { waiter: None, .. }));
    let r = handler.run(&mut s, FromJvm::WaitResult(WaitResult { tag: 0, timeout: false }));
    assert!(matches!(r, Reaction::FinishWait { waiter: Some(5), .. }));
    let r = handler.run(&mut s, FromJvm::WaitResult(WaitResult { tag: 0, timeout: false }));
    assert!(matches!(r, Reaction::FinishWait { waiter: None, .. }));
}

#[test]
fn tags_wrap_around() {
    let (mut s, _handler) = session();
    let first = s.wait(1, 0, None);
    let second = s.wait(2, 0, None);
    assert!(matches!(first, ToJvm::Wait(Wait { tag: 0, .. })));
    assert!(matches!(second, ToJvm::Wait(Wait { tag: 1, .. })));
}

#[test]
fn single_task_with_captured_output() {
    let (mut s, handler) = session();
    let call = s.exec(100, "X", &[], Stdio::Piped, Stdio::Null, Stdio::Null);
    let sent = through_the_wire(&call.packet);
    let out_id = match sent {
        ToJvm::Exec(e) => {
            assert_eq!(e.main_class, "X");
            assert!(e.params.is_empty());
            assert_eq!(e.stderr, None);
            assert_eq!(e.stdin, None);
            e.stdout.expect("piped")
        }
        other => panic!("not an exec frame: {:?}", other),
    };
    let answer = from_the_wire(&FromJvm::ExecResult(ExecResult {
        tag: 0,
        result: Ok(TaskInfo { task_id: 7 }),
    }));
    let task = match handler.run(&mut s, answer) {
        Reaction::FinishExec { waiter: Some(100), result } => {
            DirectJvm::launch(&call.pipes, result).expect("launched")
        }
        _ => panic!("the waiter of the launch is handed back"),
    };
    assert_eq!(task.id, 7);
    let stdout = task.stdout.expect("piped");
    assert!(task.stderr.is_none());
    assert!(task.stdin.is_none());
    let mut tag = 0;
    for chunk in [&b"hel"[..], &b"lo"[..], &b"\n"[..]] {
        let frame = from_the_wire(&FromJvm::Write(Write {
            tag,
            stream: out_id,
            data: chunk.to_vec(),
        }));
        let request = match handler.run(&mut s, frame) {
            Reaction::Write(w) => w,
            _ => panic!("a write is handed on"),
        };
        match s.write(9, &request) {
            Served::Respond { frame, .. } => match through_the_wire(&frame) {
                ToJvm::WriteResult(r) => {
                    assert_eq!(r.tag, tag);
                    assert_eq!(r.result, Ok(chunk.len()));
                }
                other => panic!("not a write result: {:?}", other),
            },
            _ => panic!("the pipe has room"),
        }
        tag += 1;
    }
    let closing = from_the_wire(&FromJvm::Close(Close { tag, stream: out_id }));
    let request = match handler.run(&mut s, closing) {
        Reaction::Close(c) => c,
        _ => panic!("a close is handed on"),
    };
    let (frame, _woken) = s.close(&request);
    assert!(matches!(through_the_wire(&frame), ToJvm::CloseResult(r) if r.result == Ok(())));
    let mut collected: Vec<u8> = Vec::new();
    loop {
        match stdout.read(&mut s, 1, 4) {
            Some(PollRead::Ready { data, .. }) => {
                if data.is_empty() {
                    break;
                }
                collected.extend_from_slice(&data);
            }
            _ => panic!("a closed pipe never parks"),
        }
    }
    assert_eq!(collected, b"hello\n");
    let wait = task.wait(&mut s, 200);
    assert_eq!(
        through_the_wire(&wait),
        ToJvm::Wait(Wait { tag: 1, task: 7, timeout: None })
    );
    let done = from_the_wire(&FromJvm::WaitResult(WaitResult { tag: 1, timeout: false }));
    match handler.run(&mut s, done) {
        Reaction::FinishWait { waiter: Some(200), result } => {
            assert!(!wait_result(result));
        }
        _ => panic!("the waiter of the wait is handed back"),
    }
}

#[test]
fn twenty_concurrent_launches_get_their_own_results() {
    let (mut s, handler) = session();
    let mut calls = Vec::new();
    let mut tags = Vec::new();
    for caller in 0..20u32 {
        let call = s.exec(1000 + caller, "X", &[], Stdio::Null, Stdio::Null, Stdio::Null);
        let tag = match &call.packet {
            ToJvm::Exec(e) => e.tag,
            _ => panic!("not an exec frame"),
        };
        assert!(!tags.contains(&tag));
        tags.push(tag);
        calls.push(call);
    }
    let mut order: Vec<usize> = (0..20).collect();
    order.reverse();
    order.swap(3, 11);
    order.swap(0, 19);
    let mut seen = Vec::new();
    for i in order {
        let frame = FromJvm::ExecResult(ExecResult {
            tag: tags[i],
            result: Ok(TaskInfo { task_id: 500 + i as u32 }),
        });
        match handler.run(&mut s, frame) {
            Reaction::FinishExec { waiter, result } => {
                assert_eq!(waiter, Some(1000 + i as u32));
                let data = exec_result(&calls[i].pipes, result).expect("launched");
                assert_eq!(data.task_id, 500 + i as u32);
                seen.push(data.task_id);
            }
            _ => panic!("an exec result finishes an exec"),
        }
    }
    assert_eq!(seen.len(), 20);
    let mut wait_tags = Vec::new();
    for id in seen.iter() {
        match s.wait(*id, *id, None) {
            ToJvm::Wait(w) => wait_tags.push((w.tag, *id)),
            _ => panic!("not a wait frame"),
        }
    }
    for (tag, id) in wait_tags.into_iter().rev() {
        match handler.run(&mut s, FromJvm::WaitResult(WaitResult { tag, timeout: false })) {
            Reaction::FinishWait { waiter, result } => {
                assert_eq!(waiter, Some(id));
                assert!(!wait_result(result));
            }
            _ => panic!("a wait result finishes a wait"),
        }
    }
}

#[test]
fn wait_timeout_is_reported() {
    let (mut s, handler) = session();
    let packet = s.wait(1, 3, Some(Duration { secs: 0, nanos: 100_000_000 }));
    assert_eq!(
        through_the_wire(&packet),
        ToJvm::Wait(Wait {
            tag: 0,
            task: 3,
            timeout: Some(Duration { secs: 0, nanos: 100_000_000 })
        })
    );
    let answer = from_the_wire(&FromJvm::WaitResult(WaitResult { tag: 0, timeout: true }));
    match handler.run(&mut s, answer) {
        Reaction::FinishWait { waiter: Some(1), result } => assert!(wait_result(result)),
        _ => panic!("the waiter of the wait is handed back"),
    }
}

#[test]
fn bad_stream_id_is_answered_and_the_reactor_goes_on() {
    let (mut s, handler) = session();
    let call = s.exec(1, "X", &[], Stdio::Piped, Stdio::Null, Stdio::Null);
    let out = call.pipes.stdout.expect("piped");
    let bad = from_the_wire(&FromJvm::Write(Write {
        tag: 40,
        stream: 0xDEADBEEF,
        data: vec![1, 2, 3],
    }));
    let request = match handler.run(&mut s, bad) {
        Reaction::Write(w) => w,
        _ => panic!("a write is handed on"),
    };
    match s.write(1, &request) {
        Served::Respond { frame, wake } => {
            assert_eq!(wake, None);
            match through_the_wire(&frame) {
                ToJvm::WriteResult(r) => {
                    assert_eq!(r.tag, 40);
                    let e = r.result.expect_err("invalid stream");
                    assert_eq!(e.kind, ErrorKind::Other);
                    assert_eq!(e.message, "invalid stream id 3735928559");
                }
                other => panic!("not a write result: {:?}", other),
            }
        }
        _ => panic!("an unknown stream is answered at once"),
    }
    let good = Write { tag: 41, stream: out.id(), data: vec![4, 5] };
    match s.write(1, &good) {
        Served::Respond { frame, .. } => {
            assert!(matches!(frame, ToJvm::WriteResult(r) if r.tag == 41 && r.result == Ok(2)));
        }
        _ => panic!("the pipe has room"),
    }
}

#[test]
fn read_of_an_unknown_stream_is_an_error_and_disturbs_nothing() {
    let mut streams: Streams<u32> = Streams::new();
    let p = streams.allocate(None);
    assert!(matches!(
        streams.poll_write(p.id(), 1, b"data"),
        Some(PollWrite::Ready { written: 4, .. })
    ));
    match serve_read(&mut streams, 1, &Read { tag: 3, stream: 12, size: 8 }) {
        Served::Respond { frame: ToJvm::ReadResult(r), wake: None } => {
            assert_eq!(r.tag, 3);
            let e = r.result.expect_err("invalid stream");
            assert_eq!(e.kind, ErrorKind::Other);
            assert_eq!(e.message, "invalid stream id 12");
        }
        _ => panic!("an unknown stream is answered at once"),
    }
    match serve_read(&mut streams, 1, &Read { tag: 4, stream: p.id(), size: 8 }) {
        Served::Respond { frame: ToJvm::ReadResult(r), .. } => {
            assert_eq!(r.result, Ok(b"data".to_vec()));
        }
        _ => panic!("the pipe holds bytes"),
    }
}

#[test]
fn serving_reads_the_prefix_that_was_asked_for() {
    let mut streams: Streams<u32> = Streams::new();
    let p = streams.allocate(None);
    let _ = serve_write(&mut streams, 1, &Write { tag: 1, stream: p.id(), data: b"abcdef".to_vec() });
    match serve_read(&mut streams, 2, &Read { tag: 2, stream: p.id(), size: 4 }) {
        Served::Respond { frame: ToJvm::ReadResult(r), .. } => {
            assert_eq!(r.result, Ok(b"abcd".to_vec()))
        }
        _ => panic!("the pipe holds bytes"),
    }
    assert!(matches!(
        serve_read(&mut streams, 2, &Read { tag: 3, stream: p.id(), size: 0 }),
        Served::Respond { .. }
    ));
}

#[test]
fn serving_parks_and_hands_host_streams_on() {
    let mut streams: Streams<u32> = Streams::new();
    let pipe = streams.allocate(None);
    let out = streams.allocate(Some(Inherit::Stdout));
    let inp = streams.allocate(Some(Inherit::Stdin));
    assert!(matches!(
        serve_read(&mut streams, 1, &Read { tag: 1, stream: pipe.id(), size: 8 }),
        Served::Pending
    ));
    assert!(matches!(
        serve_write(&mut streams, 1, &Write { tag: 2, stream: out.id(), data: vec![1] }),
        Served::Host(Inherit::Stdout)
    ));
    assert!(matches!(
        serve_read(&mut streams, 1, &Read { tag: 3, stream: inp.id(), size: 8 }),
        Served::Host(Inherit::Stdin)
    ));
    let (frame, woken) = serve_close(&mut streams, &Close { tag: 4, stream: pipe.id() });
    assert!(matches!(frame, ToJvm::CloseResult(r) if r.tag == 4 && r.result == Ok(())));
    assert_eq!(woken.reader, Some(1));
    let (frame, _) = serve_close(&mut streams, &Close { tag: 5, stream: 99 });
    match frame {
        ToJvm::CloseResult(r) => {
            assert_eq!(r.result.expect_err("invalid").message, "invalid stream id 99")
        }
        _ => panic!("not a close result"),
    }
}

#[test]
fn dispatcher_command_is_as_documented() {
    let c: AsyncJvmCommand<ProcessJvm> = DirectJvm::spawn(ProcessJvm::new(), "/tmp/d.jar");
    assert_eq!(MAIN_CLASS, "net.dblsaiko.origami.taskdispatcher.Main");
    assert_eq!(c.inner().main_class(), MAIN_CLASS);
    assert!(c.inner().args().is_empty());
    assert_eq!(c.inner().stdin(), Some(Stdio::Piped));
    assert_eq!(c.inner().stdout(), Some(Stdio::Piped));
    assert_eq!(c.inner().stderr(), Some(Stdio::Inherit));
    let launch = c.jvm().command_line(c.inner(), Stdio::Inherit, ":");
    assert_eq!(launch.program, "java");
    assert_eq!(
        launch.args,
        vec!["--enable-preview", "-classpath", "/tmp/d.jar", MAIN_CLASS]
    );
    assert_eq!(launch.stdin, Stdio::Piped);
    assert_eq!(launch.stdout, Stdio::Piped);
    assert_eq!(launch.stderr, Stdio::Inherit);
}

#[test]
fn spawn_jvm() {
    let jvm = ProcessJvm::new();
    let worker = DirectJvm::spawn(jvm, "task-dispatcher.jar");
    assert_eq!(worker.inner().main_class(), MAIN_CLASS);
    let (mut s, handler) = session();
    let mut cmd = AsyncJvmCommand::new((), "net.dblsaiko.origami.TestService");
    cmd.arg("arg1");
    let call = DirectJvm::exec(&mut s, 1, cmd.inner(), Stdio::Inherit);
    match &call.packet {
        ToJvm::Exec(e) => {
            assert_eq!(e.main_class, "net.dblsaiko.origami.TestService");
            assert_eq!(e.params, vec!["arg1".to_string()]);
        }
        _ => panic!("not an exec frame"),
    }
    let started = handler.run(
        &mut s,
        FromJvm::ExecResult(ExecResult { tag: 0, result: Ok(TaskInfo { task_id: 1 }) }),
    );
    let task: Task = match started {
        Reaction::FinishExec { waiter: Some(1), result } => {
            DirectJvm::launch(&call.pipes, result).expect("Failed to spawn task")
        }
        _ => panic!("Failed to spawn task"),
    };
    let wait = task.wait(&mut s, 2);
    assert!(matches!(wait, ToJvm::Wait(Wait { task: 1, timeout: None, .. })));
    match handler.run(&mut s, FromJvm::WaitResult(WaitResult { tag: 1, timeout: false })) {
        Reaction::FinishWait { waiter: Some(2), .. } => {}
        _ => panic!("Failed to wait for task to exit"),
    }
}

#[test]
fn abort_drops_every_waiter() {
    let (mut s, handler) = session();
    let call = s.exec(1, "X", &[], Stdio::Piped, Stdio::Null, Stdio::Null);
    let _ = s.wait(2, 9, None);
    s.abort();
    let r = handler.run(
        &mut s,
        FromJvm::ExecResult(ExecResult { tag: 0, result: Ok(TaskInfo { task_id: 1 }) }),
    );
    assert!(matches!(r, Reaction::FinishExec { waiter: None, .. }));
    let r = handler.run(&mut s, FromJvm::WaitResult(WaitResult { tag: 1, timeout: false }));
    assert!(matches!(r, Reaction::FinishWait { waiter: None, .. }));
    let out = call.pipes.stdout.expect("piped");
    assert!(matches!(
        s.poll_write(&out, 1, b"still there"),
        Some(PollWrite::Ready { written: 11, .. })
    ));
    assert!(matches!(s.wait(3, 9, None), ToJvm::Wait(Wait { tag: 2, .. })));
}

#[test]
fn an_abandoned_call_is_a_transport_error() {
    let (mut s, _handler) = session();
    let call = s.exec(1, "X", &[], Stdio::Null, Stdio::Null, Stdio::Null);
    assert_eq!(exec_answer(&call.pipes, None).err(), Some(CallError::Transport));
    assert_eq!(wait_answer(None), Err(CallError::Transport));
    assert_eq!(wait_answer(Some(WaitResult { tag: 0, timeout: true })), Ok(true));
    let ok = exec_answer(
        &call.pipes,
        Some(ExecResult { tag: 0, result: Ok(TaskInfo { task_id: 4 }) }),
    )
    .expect("launched");
    assert_eq!(ok.task_id, 4);
    let failed = exec_answer(
        &call.pipes,
        Some(ExecResult { tag: 0, result: Err(ExecError::Failure("f".to_string())) }),
    );
    assert_eq!(failed.err(), Some(CallError::Exec(ExecError::Failure("f".to_string()))));
    assert_eq!(call_error(CallError::Transport).to_string(), "I/O error: transport closed");
    assert_eq!(
        call_error(CallError::Exec(ExecError::NoMainFn("X".to_string()))).to_string(),
        "Class does not have a main function: X"
    );
}

#[test]
fn host_can_flush_and_close_its_end() {
    let (mut s, _handler) = session();
    let call = s.exec(1, "X", &[], Stdio::Piped, Stdio::Inherit, Stdio::Piped);
    let stdin = call.pipes.stdin.expect("piped");
    let stderr = call.pipes.stderr.expect("inherited");
    assert_eq!(s.poll_flush(&stdin), Some(None));
    assert_eq!(s.poll_flush(&stderr), Some(Some(Inherit::Stderr)));
    assert!(matches!(s.poll_read(&stdin, 5, 8), Some(PollRead::Pending)));
    let woken = s.poll_close(&stdin).expect("known");
    assert_eq!(woken.reader, Some(5));
    assert!(matches!(
        s.poll_write(&stdin, 1, b"x"),
        Some(PollWrite::Ready { written: 0, .. })
    ));
}
