use pangpang::async_ssh2::error::{Error, ErrorCode, IoErrorKind, IoFailure, Ssh2Failure};
use pangpang::async_ssh2::{
    after_probe, after_wait, interest, poll_ssh2_fn, poll_ssh2_io_fn, AfterProbe, BlockDirections,
    Interest, Next, Probe,
};

fn would_block() -> Ssh2Failure {
    Ssh2Failure { code: ErrorCode::Session(-37), message: "would block".to_string() }
}

fn io(kind: IoErrorKind, message: &str) -> IoFailure {
    IoFailure { kind, message: message.to_string() }
}

/// An engine that answers each call with the next entry of its script, and
/// a scheduler that notes each suspension.
fn drive(
    mut script: Vec<(Result<u32, Ssh2Failure>, BlockDirections)>,
) -> (Option<Result<u32, Error>>, Vec<Interest>, usize) {
    script.reverse();
    let mut suspensions = Vec::new();
    let mut calls = 0;
    loop {
        let (attempt, directions) = script.pop().expect("the engine was called once too often");
        calls += 1;
        match poll_ssh2_fn(attempt, directions) {
            Next::Done(r) => return (Some(r), suspensions, calls),
            Next::Await(i) => {
                suspensions.push(i);
                assert_eq!(after_wait(i, Ok(()), Ok(())), Ok(()));
            }
            Next::Inconsistent => return (None, suspensions, calls),
        }
    }
}

#[test]
fn blocked_inbound_once_suspends_once_on_read_readiness() {
    let (result, suspensions, calls) = drive(vec![
        (Err(would_block()), BlockDirections::Inbound),
        (Ok(42), BlockDirections::Neither),
    ]);
    assert_eq!(result, Some(Ok(42)));
    assert_eq!(suspensions, vec![Interest::Readable]);
    assert_eq!(calls, 2);
}

#[test]
fn blocked_without_direction_fails_fast() {
    let (result, suspensions, calls) = drive(vec![
        (Err(would_block()), BlockDirections::Neither),
        (Ok(42), BlockDirections::Neither),
    ]);
    assert_eq!(result, None);
    assert!(suspensions.is_empty());
    assert_eq!(calls, 1);
}

#[test]
fn each_direction_has_its_readiness() {
    assert_eq!(interest(BlockDirections::Neither), None);
    assert_eq!(interest(BlockDirections::Inbound), Some(Interest::Readable));
    assert_eq!(interest(BlockDirections::Outbound), Some(Interest::Writable));
    assert_eq!(interest(BlockDirections::Both), Some(Interest::Both));
    let (result, suspensions, _) = drive(vec![
        (Err(would_block()), BlockDirections::Outbound),
        (Err(would_block()), BlockDirections::Both),
        (Err(would_block()), BlockDirections::Inbound),
        (Ok(1), BlockDirections::Neither),
    ]);
    assert_eq!(result, Some(Ok(1)));
    assert_eq!(suspensions, vec![Interest::Writable, Interest::Both, Interest::Readable]);
}

#[test]
fn other_engine_errors_are_passed_on_at_once() {
    let failure = Ssh2Failure { code: ErrorCode::Session(-18), message: "auth failed".to_string() };
    let (result, suspensions, calls) =
        drive(vec![(Err(failure.clone()), BlockDirections::Inbound)]);
    assert_eq!(result, Some(Err(Error::SSH2(failure))));
    assert!(suspensions.is_empty());
    assert_eq!(calls, 1);
    // The code of the file-transfer subsystem with the same number is no
    // would-block.
    let sftp = Ssh2Failure { code: ErrorCode::SFTP(-37), message: "x".to_string() };
    assert!(!sftp.would_block());
    assert!(would_block().would_block());
}

#[test]
fn engine_codes_have_the_kinds_of_the_engine_crate() {
    let kind = |code| Ssh2Failure { code, message: String::new() }.io_kind();
    assert_eq!(kind(ErrorCode::Session(-37)), IoErrorKind::WouldBlock);
    assert_eq!(kind(ErrorCode::Session(-9)), IoErrorKind::TimedOut);
    assert_eq!(kind(ErrorCode::Session(-1)), IoErrorKind::Other);
    assert_eq!(kind(ErrorCode::Session(0)), IoErrorKind::Other);
    assert_eq!(kind(ErrorCode::SFTP(2)), IoErrorKind::NotFound);
    assert_eq!(kind(ErrorCode::SFTP(10)), IoErrorKind::NotFound);
    assert_eq!(kind(ErrorCode::SFTP(11)), IoErrorKind::AlreadyExists);
    assert_eq!(kind(ErrorCode::SFTP(4)), IoErrorKind::Other);
    assert_eq!(kind(ErrorCode::SFTP(-9)), IoErrorKind::Other);
}

#[test]
fn engine_kinds_agree_with_the_engine_crate_itself() {
    for c in [-50, -37, -36, -9, -1, 0, 2, 10, 11, 12] {
        for code in [ErrorCode::Session(c), ErrorCode::SFTP(c)] {
            let theirs = match code {
                ErrorCode::Session(c) => ssh2::ErrorCode::Session(c),
                ErrorCode::SFTP(c) => ssh2::ErrorCode::SFTP(c),
            };
            let expected = match std::io::Error::from(ssh2::Error::from_errno(theirs)).kind() {
                std::io::ErrorKind::WouldBlock => IoErrorKind::WouldBlock,
                std::io::ErrorKind::TimedOut => IoErrorKind::TimedOut,
                std::io::ErrorKind::NotFound => IoErrorKind::NotFound,
                std::io::ErrorKind::AlreadyExists => IoErrorKind::AlreadyExists,
                _ => IoErrorKind::Other,
            };
            assert_eq!(Ssh2Failure { code, message: String::new() }.io_kind(), expected);
        }
    }
}

#[test]
fn adapter_error_turns_into_a_socket_error() {
    let e = Error::SSH2(Ssh2Failure { code: ErrorCode::Session(-9), message: "slow".to_string() });
    assert_eq!(e.into_io(), io(IoErrorKind::TimedOut, "slow"));
    let e = Error::IO(io(IoErrorKind::UnexpectedEof, "eof"));
    assert_eq!(e.into_io(), io(IoErrorKind::UnexpectedEof, "eof"));
}

#[test]
fn stream_calls_wait_on_would_block_only() {
    let blocked: Result<usize, IoFailure> = Err(io(IoErrorKind::WouldBlock, "again"));
    assert_eq!(poll_ssh2_io_fn(blocked, BlockDirections::Outbound), Next::Await(Interest::Writable));
    let blocked: Result<usize, IoFailure> = Err(io(IoErrorKind::WouldBlock, "again"));
    assert_eq!(poll_ssh2_io_fn(blocked, BlockDirections::Neither), Next::Inconsistent);
    let broken: Result<usize, IoFailure> = Err(io(IoErrorKind::Other, "broken pipe"));
    assert_eq!(
        poll_ssh2_io_fn(broken, BlockDirections::Outbound),
        Next::Done(Err(io(IoErrorKind::Other, "broken pipe")))
    );
    assert_eq!(poll_ssh2_io_fn(Ok(17usize), BlockDirections::Both), Next::Done(Ok(17)));
}

#[test]
fn probe_of_both_looks_at_writing_after_reading() {
    assert_eq!(after_probe(Interest::Both, Probe::Pending), AfterProbe::Pending);
    assert_eq!(after_probe(Interest::Both, Probe::Ready(Ok(()))), AfterProbe::ProbeWritable);
    assert_eq!(after_probe(Interest::Writable, Probe::Ready(Ok(()))), AfterProbe::Retry);
    assert_eq!(after_probe(Interest::Readable, Probe::Ready(Ok(()))), AfterProbe::Retry);
    assert_eq!(after_probe(Interest::Readable, Probe::Pending), AfterProbe::Pending);
    assert_eq!(
        after_probe(Interest::Both, Probe::Ready(Err(io(IoErrorKind::Other, "reset")))),
        AfterProbe::Fail(io(IoErrorKind::Other, "reset"))
    );
}

#[test]
fn wait_fails_with_the_error_of_the_awaited_direction() {
    let bad = |m: &str| Err(io(IoErrorKind::Other, m));
    assert_eq!(after_wait(Interest::Readable, Ok(()), bad("w")), Ok(()));
    assert_eq!(after_wait(Interest::Writable, bad("r"), Ok(())), Ok(()));
    assert_eq!(
        after_wait(Interest::Readable, bad("r"), Ok(())),
        Err(Error::IO(io(IoErrorKind::Other, "r")))
    );
    assert_eq!(
        after_wait(Interest::Writable, Ok(()), bad("w")),
        Err(Error::IO(io(IoErrorKind::Other, "w")))
    );
    assert_eq!(
        after_wait(Interest::Both, bad("r"), bad("w")),
        Err(Error::IO(io(IoErrorKind::Other, "r")))
    );
    assert_eq!(
        after_wait(Interest::Both, Ok(()), bad("w")),
        Err(Error::IO(io(IoErrorKind::Other, "w")))
    );
    assert_eq!(after_wait(Interest::Both, Ok(()), Ok(())), Ok(()));
}
