use flipper::descriptor::{DescribeError, ParseError, FORMAT_VERSION};
use flipper::model::{has_duplicate_index, ArgumentType, FunctionSignature, Module};

fn function(name: &[u8], index: u8, args: Vec<ArgumentType>, ret: Option<ArgumentType>) -> FunctionSignature {
    FunctionSignature { name: name.to_vec(), index, args, ret }
}

fn led() -> Module {
    Module {
        name: b"led".to_vec(),
        functions: vec![
            function(b"rgb", 0, vec![ArgumentType::U8, ArgumentType::U8, ArgumentType::U8], None),
            function(b"configure", 1, vec![], Some(ArgumentType::I32)),
        ],
    }
}

fn uart() -> Module {
    Module {
        name: b"uart0".to_vec(),
        functions: vec![
            function(b"configure", 0, vec![ArgumentType::U8, ArgumentType::U8], None),
            function(b"ready", 1, vec![], Some(ArgumentType::U8)),
            function(b"write", 2, vec![ArgumentType::Bytes, ArgumentType::U32], Some(ArgumentType::U16)),
            function(b"read", 7, vec![ArgumentType::I8, ArgumentType::I16], Some(ArgumentType::Bytes)),
        ],
    }
}

fn led_bytes() -> Vec<u8> {
    let mut b: Vec<u8> = vec![FORMAT_VERSION, 1];
    b.push(3);
    b.extend_from_slice(b"led");
    b.push(2);
    b.push(3);
    b.extend_from_slice(b"rgb");
    b.extend_from_slice(&[0, 3, 1, 1, 1, 0]);
    b.push(9);
    b.extend_from_slice(b"configure");
    b.extend_from_slice(&[1, 0, 6]);
    b
}

#[test]
fn parses_a_written_out_descriptor() {
    assert_eq!(Module::parse(&led_bytes()), Ok(vec![led()]));
}

#[test]
fn describes_byte_for_byte() {
    assert_eq!(Module::describe(&vec![led()]), Ok(led_bytes()));
}

#[test]
fn version_is_one() {
    assert_eq!(FORMAT_VERSION, 1);
}

#[test]
fn round_trip_of_two_modules() {
    let modules = vec![led(), uart()];
    let bytes = Module::describe(&modules).unwrap();
    assert_eq!(Module::parse(&bytes), Ok(modules));
}

#[test]
fn round_trip_of_no_module() {
    let bytes = Module::describe(&vec![]).unwrap();
    assert_eq!(bytes, vec![FORMAT_VERSION, 0]);
    assert_eq!(Module::parse(&bytes), Ok(vec![]));
}

#[test]
fn round_trip_of_a_module_without_functions() {
    let modules = vec![Module { name: vec![], functions: vec![] }];
    let bytes = Module::describe(&modules).unwrap();
    assert_eq!(bytes, vec![FORMAT_VERSION, 1, 0, 0]);
    assert_eq!(Module::parse(&bytes), Ok(modules));
}

#[test]
fn every_truncation_is_refused_as_truncated() {
    let bytes = Module::describe(&vec![led(), uart()]).unwrap();
    for k in 0..bytes.len() {
        assert_eq!(Module::parse(&bytes[..k]), Err(ParseError::Truncated));
    }
}

#[test]
fn empty_input_is_truncated() {
    assert_eq!(Module::parse(&[]), Err(ParseError::Truncated));
}

#[test]
fn bytes_behind_the_last_module_are_ignored() {
    let mut bytes = led_bytes();
    bytes.extend_from_slice(&[0xde, 0xad]);
    assert_eq!(Module::parse(&bytes), Ok(vec![led()]));
}

#[test]
fn parsing_twice_gives_the_same() {
    let bytes = Module::describe(&vec![uart()]).unwrap();
    assert_eq!(Module::parse(&bytes), Module::parse(&bytes));
}

#[test]
fn duplicate_index_is_refused() {
    // one module "m" with functions "a" and "b", both with index 5
    let bytes = vec![FORMAT_VERSION, 1, 1, b'm', 2, 1, b'a', 5, 0, 0, 1, b'b', 5, 0, 0];
    assert_eq!(Module::parse(&bytes), Err(ParseError::DuplicateIndex));
}

#[test]
fn same_index_in_two_modules_is_accepted() {
    let bytes = vec![FORMAT_VERSION, 2, 1, b'm', 1, 1, b'a', 5, 0, 0, 1, b'n', 1, 1, b'b', 5, 0, 0];
    let modules = Module::parse(&bytes).unwrap();
    assert_eq!(modules.len(), 2);
    assert_eq!(modules[0].functions[0].index, 5);
    assert_eq!(modules[1].functions[0].index, 5);
}

#[test]
fn truncation_is_reported_before_an_earlier_duplicate() {
    // the third function is cut short: the module is never complete
    let bytes = vec![FORMAT_VERSION, 1, 1, b'm', 3, 1, b'a', 5, 0, 0, 1, b'b', 5, 0, 0, 1];
    assert_eq!(Module::parse(&bytes), Err(ParseError::Truncated));
}

#[test]
fn unknown_argument_tag_is_refused() {
    let bytes = vec![FORMAT_VERSION, 1, 1, b'm', 1, 1, b'a', 0, 1, 8, 0];
    assert_eq!(Module::parse(&bytes), Err(ParseError::UnknownType));
    let bytes = vec![FORMAT_VERSION, 1, 1, b'm', 1, 1, b'a', 0, 1, 0, 0];
    assert_eq!(Module::parse(&bytes), Err(ParseError::UnknownType));
}

#[test]
fn unknown_return_tag_is_refused() {
    let bytes = vec![FORMAT_VERSION, 1, 1, b'm', 1, 1, b'a', 0, 0, 0xff];
    assert_eq!(Module::parse(&bytes), Err(ParseError::UnknownType));
}

#[test]
fn other_version_is_refused() {
    assert_eq!(Module::parse(&[2, 0]), Err(ParseError::UnsupportedVersion));
    assert_eq!(Module::parse(&[0]), Err(ParseError::UnsupportedVersion));
}

#[test]
fn version_alone_is_truncated() {
    assert_eq!(Module::parse(&[FORMAT_VERSION]), Err(ParseError::Truncated));
}

#[test]
fn describe_refuses_a_long_name() {
    let modules = vec![Module { name: vec![b'x'; 256], functions: vec![] }];
    assert_eq!(Module::describe(&modules), Err(DescribeError::TooLong));
    let modules = vec![Module { name: vec![b'x'; 255], functions: vec![] }];
    assert_eq!(Module::parse(&Module::describe(&modules).unwrap()), Ok(modules));
}

#[test]
fn describe_refuses_too_many_arguments() {
    let f = function(b"f", 0, vec![ArgumentType::U8; 256], None);
    let modules = vec![Module { name: b"m".to_vec(), functions: vec![f] }];
    assert_eq!(Module::describe(&modules), Err(DescribeError::TooLong));
}

#[test]
fn describe_refuses_a_duplicate_index() {
    let modules = vec![Module {
        name: b"m".to_vec(),
        functions: vec![function(b"a", 5, vec![], None), function(b"b", 5, vec![], None)],
    }];
    assert_eq!(Module::describe(&modules), Err(DescribeError::DuplicateIndex));
}

#[test]
fn describe_looks_at_length_first() {
    let modules = vec![
        Module {
            name: b"m".to_vec(),
            functions: vec![function(b"a", 5, vec![], None), function(b"b", 5, vec![], None)],
        },
        Module { name: vec![b'x'; 300], functions: vec![] },
    ];
    assert_eq!(Module::describe(&modules), Err(DescribeError::TooLong));
}

#[test]
fn all_255_indices_round_trip() {
    let mut functions = Vec::new();
    for i in 0..255u8 {
        functions.push(function(&[b'f', i], 254 - i, vec![ArgumentType::U16], Some(ArgumentType::U8)));
    }
    let modules = vec![Module { name: b"big".to_vec(), functions }];
    let bytes = Module::describe(&modules).unwrap();
    assert_eq!(Module::parse(&bytes), Ok(modules));
}

#[test]
fn duplicate_indices_are_found() {
    assert!(!has_duplicate_index(&led().functions));
    assert!(!has_duplicate_index(&vec![]));
    let twice = vec![
        function(b"a", 1, vec![], None),
        function(b"b", 2, vec![], None),
        function(b"c", 1, vec![], None),
    ];
    assert!(has_duplicate_index(&twice));
}

#[test]
fn tags_and_widths() {
    let all = [
        (ArgumentType::U8, 1u8, Some(1usize)),
        (ArgumentType::U16, 2, Some(2)),
        (ArgumentType::U32, 3, Some(4)),
        (ArgumentType::I8, 4, Some(1)),
        (ArgumentType::I16, 5, Some(2)),
        (ArgumentType::I32, 6, Some(4)),
        (ArgumentType::Bytes, 7, None),
    ];
    for (t, tag, width) in all {
        assert_eq!(t.tag(), tag);
        assert_eq!(ArgumentType::from_tag(tag), Some(t));
        assert_eq!(t.width(), width);
    }
    assert_eq!(ArgumentType::from_tag(0), None);
    assert_eq!(ArgumentType::from_tag(8), None);
}
