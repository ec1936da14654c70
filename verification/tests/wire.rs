use flipper::args::{Args, EncodingError, Scalar};
use flipper::model::ArgumentType;
use flipper::session::{Session, SessionError};
use flipper::wire::{
    decode_response, encode_request, DeviceErrorKind, Invocation, InvokeError, ProtocolError, Reply, Transfer,
    WIRE_VERSION,
};

fn rgb_args() -> Args {
    Args::new().append(Scalar::U8(10)).unwrap().append(Scalar::U8(20)).unwrap().append(Scalar::U8(30)).unwrap()
}

/// A transport that answers every request with the same bytes.
fn stub(session: &mut Session, request: Result<Vec<u8>, SessionError>, answer: &[u8]) -> Result<Reply, SessionError> {
    assert!(request.is_ok());
    session.complete(answer)
}

#[test]
fn requests_open_with_the_version() {
    assert_eq!(WIRE_VERSION, 1);
    let inv = Invocation { module: vec![], index: 0, args: vec![], transfer: Transfer::Call };
    assert_eq!(encode_request(&inv), Ok(vec![WIRE_VERSION, 0, 0, 0, 0, 0]));
}

#[test]
fn request_of_a_call() {
    let inv = Invocation { module: b"led".to_vec(), index: 0, args: vec![10, 20, 30], transfer: Transfer::Call };
    assert_eq!(encode_request(&inv), Ok(vec![1, 0, 3, b'l', b'e', b'd', 0, 3, 0, 10, 20, 30]));
}

#[test]
fn request_of_a_push() {
    let inv =
        Invocation { module: b"uart0".to_vec(), index: 2, args: vec![], transfer: Transfer::Push(vec![0xaa, 0xbb]) };
    assert_eq!(
        encode_request(&inv),
        Ok(vec![1, 1, 5, b'u', b'a', b'r', b't', b'0', 2, 0, 0, 2, 0, 0, 0, 0xaa, 0xbb])
    );
}

#[test]
fn request_of_a_pull() {
    let inv = Invocation { module: b"uart0".to_vec(), index: 3, args: vec![7], transfer: Transfer::Pull(0x0102) };
    assert_eq!(encode_request(&inv), Ok(vec![1, 2, 5, b'u', b'a', b'r', b't', b'0', 3, 1, 0, 7, 2, 1, 0, 0]));
}

#[test]
fn request_with_a_long_argument_buffer() {
    let inv = Invocation { module: vec![], index: 9, args: vec![1; 0x0201], transfer: Transfer::Call };
    let bytes = encode_request(&inv).unwrap();
    assert_eq!(&bytes[..6], &[1, 0, 0, 9, 0x01, 0x02]);
    assert_eq!(bytes.len(), 6 + 0x0201);
}

#[test]
fn request_that_does_not_fit() {
    let inv = Invocation { module: vec![b'x'; 256], index: 0, args: vec![], transfer: Transfer::Call };
    assert_eq!(encode_request(&inv), Err(EncodingError::TooLarge));
    let inv = Invocation { module: vec![], index: 0, args: vec![0; 65536], transfer: Transfer::Call };
    assert_eq!(encode_request(&inv), Err(EncodingError::TooLarge));
    let inv = Invocation { module: vec![], index: 0, args: vec![0; 65535], transfer: Transfer::Call };
    assert!(encode_request(&inv).is_ok());
}

#[test]
fn response_with_a_value() {
    assert_eq!(
        decode_response(&[0, 0x2a], Some(ArgumentType::U8), 0),
        Ok(Reply { value: Some(Scalar::U8(0x2a)), bulk: vec![] })
    );
    assert_eq!(
        decode_response(&[0, 0xfe, 0xff, 0xff, 0xff], Some(ArgumentType::I32), 0),
        Ok(Reply { value: Some(Scalar::I32(-2)), bulk: vec![] })
    );
    assert_eq!(
        decode_response(&[0, 0xfe, 0xff, 0xff, 0xff], Some(ArgumentType::U32), 0),
        Ok(Reply { value: Some(Scalar::U32(0xfffffffe)), bulk: vec![] })
    );
}

#[test]
fn response_without_a_value() {
    assert_eq!(decode_response(&[0], None, 0), Ok(Reply { value: None, bulk: vec![] }));
    assert_eq!(decode_response(&[0, 1, 2], Some(ArgumentType::Bytes), 2), Ok(Reply { value: None, bulk: vec![1, 2] }));
}

#[test]
fn response_with_pulled_bytes() {
    assert_eq!(
        decode_response(&[0, 5, 0, 7, 8, 9], Some(ArgumentType::U16), 3),
        Ok(Reply { value: Some(Scalar::U16(5)), bulk: vec![7, 8, 9] })
    );
}

#[test]
fn truncated_responses() {
    let truncated = Err(InvokeError::Protocol(ProtocolError::Truncated));
    assert_eq!(decode_response(&[], None, 0), truncated);
    assert_eq!(decode_response(&[0], Some(ArgumentType::U8), 0), truncated);
    assert_eq!(decode_response(&[0, 1, 2, 3], Some(ArgumentType::U32), 0), truncated);
    assert_eq!(decode_response(&[0, 5, 0, 7, 8], Some(ArgumentType::U16), 3), truncated);
    assert_eq!(decode_response(&[0], None, usize::MAX), truncated);
}

#[test]
fn device_failures() {
    assert_eq!(decode_response(&[4], Some(ArgumentType::U32), 0), Err(InvokeError::Device(DeviceErrorKind::NoDevice)));
    assert_eq!(decode_response(&[1, 0, 0], None, 0), Err(InvokeError::Device(DeviceErrorKind::Malloc)));
    assert_eq!(decode_response(&[25], None, 9), Err(InvokeError::Device(DeviceErrorKind::Timeout)));
    assert_eq!(decode_response(&[29], None, 0), Err(InvokeError::Device(DeviceErrorKind::Unimplemented)));
}

#[test]
fn unknown_status_keeps_the_byte() {
    assert_eq!(decode_response(&[30], None, 0), Err(InvokeError::Protocol(ProtocolError::UnknownStatus(30))));
    assert_eq!(
        decode_response(&[200, 1, 2], Some(ArgumentType::U8), 0),
        Err(InvokeError::Protocol(ProtocolError::UnknownStatus(200)))
    );
}

#[test]
fn every_failure_has_its_status() {
    let mut seen = 0;
    for status in 0..=255u8 {
        match DeviceErrorKind::from_status(status) {
            Some(kind) => {
                assert_eq!(kind.status(), status);
                seen += 1;
            }
            None => assert!(status == 0 || status > 29),
        }
    }
    assert_eq!(seen, 29);
    assert_eq!(DeviceErrorKind::NoDevice.status(), 4);
    assert_eq!(DeviceErrorKind::Malloc.status(), 1);
    assert_eq!(DeviceErrorKind::Checksum.status(), 18);
}

#[test]
fn invocation_round_trip_over_a_stub() {
    let mut session = Session::new();
    let request = session.invoke("led", 0, &rgb_args(), Some(ArgumentType::U32));
    assert_eq!(request, Ok(vec![1, 0, 3, b'l', b'e', b'd', 0, 3, 0, 10, 20, 30]));
    assert!(session.is_busy());
    let reply = stub(&mut session, request, &[0, 0x78, 0x56, 0x34, 0x12]);
    assert_eq!(reply, Ok(Reply { value: Some(Scalar::U32(0x12345678)), bulk: vec![] }));
    assert!(!session.is_busy());
}

#[test]
fn no_device_surfaces_over_a_stub() {
    let mut session = Session::new();
    let request = session.invoke("led", 0, &rgb_args(), Some(ArgumentType::U32));
    let reply = stub(&mut session, request, &[4]);
    assert_eq!(reply, Err(SessionError::Invoke(InvokeError::Device(DeviceErrorKind::NoDevice))));
    assert!(!session.is_busy());
}

#[test]
fn one_call_at_a_time() {
    let mut session = Session::new();
    assert!(session.invoke("led", 1, &Args::new(), None).is_ok());
    assert_eq!(session.invoke("led", 1, &Args::new(), None), Err(SessionError::Busy));
    assert_eq!(session.push("uart0", 2, &[1], &Args::new(), None), Err(SessionError::Busy));
    assert_eq!(session.pull("uart0", 3, 1, &Args::new(), None), Err(SessionError::Busy));
    assert!(session.is_busy());
    assert_eq!(session.complete(&[0]), Ok(Reply { value: None, bulk: vec![] }));
    assert!(session.invoke("led", 1, &Args::new(), None).is_ok());
}

#[test]
fn no_response_without_a_call() {
    let mut session = Session::new();
    assert_eq!(session.complete(&[0]), Err(SessionError::Idle));
    assert!(!session.is_busy());
}

#[test]
fn refused_call_leaves_the_session_idle() {
    let mut session = Session::new();
    let long = "x".repeat(256);
    assert_eq!(
        session.invoke(&long, 0, &Args::new(), None),
        Err(SessionError::Encoding(EncodingError::TooLarge))
    );
    assert!(!session.is_busy());
}

#[test]
fn push_sends_the_buffer() {
    let mut session = Session::new();
    let request = session.push("uart0", 2, &[0xaa, 0xbb], &Args::new(), None);
    assert_eq!(request, Ok(vec![1, 1, 5, b'u', b'a', b'r', b't', b'0', 2, 0, 0, 2, 0, 0, 0, 0xaa, 0xbb]));
    assert_eq!(session.complete(&[0]), Ok(Reply { value: None, bulk: vec![] }));
}

#[test]
fn pull_fills_the_buffer() {
    let mut session = Session::new();
    let request = session.pull("uart0", 3, 4, &Args::new(), Some(ArgumentType::U8));
    assert_eq!(request, Ok(vec![1, 2, 5, b'u', b'a', b'r', b't', b'0', 3, 0, 0, 4, 0, 0, 0]));
    assert_eq!(
        session.complete(&[0, 1, 9, 8, 7, 6]),
        Ok(Reply { value: Some(Scalar::U8(1)), bulk: vec![9, 8, 7, 6] })
    );
    let request = session.pull("uart0", 3, 4, &Args::new(), Some(ArgumentType::U8));
    assert!(request.is_ok());
    assert_eq!(
        session.complete(&[0, 1, 9, 8, 7]),
        Err(SessionError::Invoke(InvokeError::Protocol(ProtocolError::Truncated)))
    );
    assert!(!session.is_busy());
}

#[test]
fn begin_takes_an_invocation() {
    let mut session = Session::new();
    let inv = Invocation { module: b"m".to_vec(), index: 3, args: vec![1], transfer: Transfer::Pull(2) };
    assert_eq!(session.begin(&inv, None), Ok(vec![1, 2, 1, b'm', 3, 1, 0, 1, 2, 0, 0, 0]));
    assert_eq!(session.complete(&[0, 5, 6, 7]), Ok(Reply { value: None, bulk: vec![5, 6] }));
}
