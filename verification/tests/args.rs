use flipper::args::{Args, EncodingError, Scalar, DEFAULT_ARGS_LIMIT, MAX_ARGS_SIZE};
use flipper::model::ArgumentType;

#[test]
fn argument_order_is_preserved() {
    let args = Args::new()
        .append(Scalar::U8(1))
        .unwrap()
        .append(Scalar::U16(2))
        .unwrap()
        .append(Scalar::U32(3))
        .unwrap();
    let bytes = args.to_bytes();
    assert_eq!(bytes, vec![1, 2, 0, 3, 0, 0, 0]);
    let kinds = [ArgumentType::U8, ArgumentType::U16, ArgumentType::U32];
    assert_eq!(
        Args::decode(&bytes, &kinds),
        Some(vec![Scalar::U8(1), Scalar::U16(2), Scalar::U32(3)])
    );
}

#[test]
fn new_list_is_empty() {
    let args = Args::new();
    assert_eq!(args.len(), 0);
    assert_eq!(args.size(), 0);
    assert_eq!(args.to_bytes(), Vec::<u8>::new());
}

#[test]
fn bytes_are_least_significant_first() {
    let args = Args::new().append(Scalar::U16(0x1234)).unwrap().append(Scalar::U32(0x89abcdef)).unwrap();
    assert_eq!(args.to_bytes(), vec![0x34, 0x12, 0xef, 0xcd, 0xab, 0x89]);
    assert_eq!(args.len(), 2);
    assert_eq!(args.size(), 6);
}

#[test]
fn negative_values_are_twos_complement() {
    let args = Args::new()
        .append(Scalar::I8(-1))
        .unwrap()
        .append(Scalar::I16(-2))
        .unwrap()
        .append(Scalar::I32(-3))
        .unwrap()
        .append(Scalar::I8(i8::MIN))
        .unwrap()
        .append(Scalar::I16(i16::MAX))
        .unwrap()
        .append(Scalar::I32(i32::MIN))
        .unwrap();
    assert_eq!(
        args.to_bytes(),
        vec![0xff, 0xfe, 0xff, 0xfd, 0xff, 0xff, 0xff, 0x80, 0xff, 0x7f, 0, 0, 0, 0x80]
    );
}

#[test]
fn every_shape_reads_back() {
    let values = vec![
        Scalar::U8(0),
        Scalar::U8(255),
        Scalar::U16(65535),
        Scalar::U32(u32::MAX),
        Scalar::I8(-128),
        Scalar::I8(127),
        Scalar::I16(-32768),
        Scalar::I16(-1),
        Scalar::I32(i32::MAX),
        Scalar::I32(-7),
    ];
    let mut args = Args::new();
    let mut kinds = Vec::new();
    for v in &values {
        args = args.append(*v).unwrap();
        kinds.push(v.kind());
    }
    assert_eq!(Args::decode(&args.to_bytes(), &kinds), Some(values));
}

#[test]
fn append_fails_past_the_limit() {
    let args = Args::with_limit(2).unwrap();
    let args = args.append(Scalar::U16(7)).unwrap();
    assert_eq!(args.to_bytes(), vec![7, 0]);
    assert_eq!(args.append(Scalar::U8(1)), Err(EncodingError::TooLarge));
    let args = Args::with_limit(3).unwrap();
    assert_eq!(args.append(Scalar::U32(1)), Err(EncodingError::TooLarge));
}

#[test]
fn default_limit_holds_255_bytes() {
    assert_eq!(DEFAULT_ARGS_LIMIT, 255);
    let mut args = Args::new();
    for i in 0..255u32 {
        args = args.append(Scalar::U8(i as u8)).unwrap();
    }
    assert_eq!(args.size(), 255);
    assert_eq!(args.append(Scalar::U8(0)), Err(EncodingError::TooLarge));
}

#[test]
fn limit_above_the_envelope_is_refused() {
    assert_eq!(MAX_ARGS_SIZE, 65535);
    assert!(Args::with_limit(MAX_ARGS_SIZE).is_ok());
    assert_eq!(Args::with_limit(MAX_ARGS_SIZE + 1), Err(EncodingError::TooLarge));
}

#[test]
fn decode_wants_the_widths_to_add_up() {
    assert_eq!(Args::decode(&[1, 2, 3], &[ArgumentType::U16]), None);
    assert_eq!(Args::decode(&[1], &[ArgumentType::U16]), None);
    assert_eq!(Args::decode(&[1, 2], &[ArgumentType::Bytes]), None);
    assert_eq!(Args::decode(&[], &[]), Some(vec![]));
    assert_eq!(Args::decode(&[1], &[]), None);
}

#[test]
fn scalar_reads_and_writes() {
    let mut out = vec![9u8];
    Scalar::I16(-2).write(&mut out);
    assert_eq!(out, vec![9, 0xfe, 0xff]);
    assert_eq!(Scalar::read(&[0xfe, 0xff], ArgumentType::I16), Some(Scalar::I16(-2)));
    assert_eq!(Scalar::read(&[0xfe, 0xff], ArgumentType::U16), Some(Scalar::U16(0xfffe)));
    assert_eq!(Scalar::read(&[0x80], ArgumentType::I8), Some(Scalar::I8(-128)));
    assert_eq!(Scalar::read(&[0, 0, 0, 0x80], ArgumentType::I32), Some(Scalar::I32(i32::MIN)));
    assert_eq!(Scalar::read(&[1, 2, 3, 4], ArgumentType::U32), Some(Scalar::U32(0x04030201)));
    assert_eq!(Scalar::read(&[1, 2, 3], ArgumentType::U32), None);
    assert_eq!(Scalar::read(&[], ArgumentType::Bytes), None);
    assert_eq!(Scalar::U32(1).width(), 4);
    assert_eq!(Scalar::I8(1).kind(), ArgumentType::I8);
}
