use xv6fs_client::errno::Failure;
use xv6fs_client::request::encode_write;
use xv6fs_client::write::{WriteSession, WriteStep};

fn expect_send(step: WriteStep) -> Vec<u8> {
    match step {
        WriteStep::Send(req) => req,
        WriteStep::Done(r) => panic!("expected a request, got {:?}", r),
    }
}

fn expect_done(step: WriteStep) -> Result<u32, Failure> {
    match step {
        WriteStep::Send(req) => panic!("expected the end, got {:?}", req),
        WriteStep::Done(r) => r,
    }
}

#[test]
fn large_write_is_chunked_at_running_cursor() {
    let data: Vec<u8> = (0..9000u32).map(|i| b'a' + (i % 26) as u8).collect();
    let mut s = WriteSession::new(7, 100, data.clone());
    let mut requests = Vec::new();
    let mut step = s.next_step();
    loop {
        match step {
            WriteStep::Send(req) => {
                let n = req.len() - requests_prefix_len(&req);
                requests.push(req);
                step = s.on_response(format!("Ok {}", n).as_bytes());
            }
            WriteStep::Done(r) => {
                assert_eq!(r, Ok(9000));
                break;
            }
        }
    }
    // ceil(9000 / 4000) requests
    assert_eq!(requests.len(), 3);
    assert_eq!(requests[0], encode_write(7, 100, &data[0..4000]));
    assert_eq!(requests[1], encode_write(7, 4100, &data[4000..8000]));
    assert_eq!(requests[2], encode_write(7, 8100, &data[8000..9000]));
}

/// Length of `write <ino> <offset> ` at the start of a request.
fn requests_prefix_len(req: &[u8]) -> usize {
    let mut spaces = 0;
    for (i, b) in req.iter().enumerate() {
        if *b == b' ' {
            spaces += 1;
            if spaces == 3 {
                return i + 1;
            }
        }
    }
    req.len()
}

#[test]
fn whole_chunks_of_an_exact_multiple() {
    let data = vec![b'z'; 8000];
    let mut s = WriteSession::new(2, 0, data.clone());
    let first = expect_send(s.next_step());
    assert_eq!(first, encode_write(2, 0, &data[0..4000]));
    let second = expect_send(s.on_response(b"Ok 4000"));
    assert_eq!(second, encode_write(2, 4000, &data[4000..8000]));
    assert_eq!(expect_done(s.on_response(b"Ok 4000")), Ok(8000));
}

#[test]
fn partial_write_resumes_at_reported_length() {
    let data = b"0123456789".to_vec();
    let mut s = WriteSession::new(3, 0, data);
    assert_eq!(expect_send(s.next_step()), b"write 3 0 0123456789".to_vec());
    let req = expect_send(s.on_response(b"Ok 4"));
    assert_eq!(req, b"write 3 4 456789".to_vec());
    assert_eq!(expect_done(s.on_response(b"Ok 6")), Ok(10));
}

#[test]
fn error_stops_the_write() {
    let data = vec![b'x'; 10000];
    let mut s = WriteSession::new(3, 0, data);
    let _ = expect_send(s.next_step());
    let _ = expect_send(s.on_response(b"Ok 4000"));
    assert_eq!(expect_done(s.on_response(b"Err 28")), Err(Failure::Server(28)));
}

#[test]
fn overlong_acknowledgement_is_malformed() {
    let mut s = WriteSession::new(3, 0, b"abc".to_vec());
    let _ = expect_send(s.next_step());
    assert_eq!(expect_done(s.on_response(b"Ok 4")), Err(Failure::Malformed));
}

#[test]
fn empty_write_sends_nothing() {
    let s = WriteSession::new(3, 0, Vec::new());
    assert_eq!(expect_done(s.next_step()), Ok(0));
}
