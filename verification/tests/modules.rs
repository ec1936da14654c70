use std::cell::RefCell;
use flipper::generator::generate;
use flipper::led::Led;
use flipper::model::{ArgumentType, FunctionSignature, Module};
use flipper::uart0::{Uart0, UartBaud};
use flipper::wire::{Invocation, Transfer};

fn module(n: u8) -> Module {
    let mut functions = Vec::new();
    for i in 0..n {
        functions.push(FunctionSignature {
            name: vec![b'f', b'0' + i],
            index: 10 + i,
            args: vec![ArgumentType::U8; i as usize],
            ret: if i % 2 == 0 { None } else { Some(ArgumentType::U16) },
        });
    }
    Module { name: b"m".to_vec(), functions }
}

/// A backend that keeps the index of each function it is handed and
/// refuses the function with index `refused`.
fn log(refused: u8) -> impl Fn(Vec<u8>, &FunctionSignature) -> Result<Vec<u8>, String> {
    move |mut seen: Vec<u8>, f: &FunctionSignature| {
        if f.index == refused {
            return Err(format!("no binding for {}", f.index));
        }
        seen.push(f.index);
        Ok(seen)
    }
}

/// A backend that writes one line per function.
fn lines(mut text: String, f: &FunctionSignature) -> Result<String, String> {
    text.push_str(&format!("{}#{}/{}\n", String::from_utf8_lossy(&f.name), f.index, f.args.len()));
    Ok(text)
}

#[test]
fn generate_emits_every_function_once_in_order() {
    assert_eq!(generate(&module(5), Vec::new(), &log(99)), Ok(vec![10, 11, 12, 13, 14]));
}

#[test]
fn generate_on_an_empty_module_emits_nothing() {
    assert_eq!(generate(&module(0), Vec::new(), &log(99)), Ok(vec![]));
    assert_eq!(generate(&module(0), String::new(), &lines), Ok(String::new()));
}

#[test]
fn generate_appends_to_what_was_emitted() {
    assert_eq!(generate(&module(2), vec![1, 2], &log(99)), Ok(vec![1, 2, 10, 11]));
}

#[test]
fn generate_stops_at_the_first_refusal() {
    let calls: RefCell<Vec<u8>> = RefCell::new(Vec::new());
    let picky = |n: u32, f: &FunctionSignature| -> Result<u32, u8> {
        calls.borrow_mut().push(f.index);
        if f.index == 12 {
            Err(f.index)
        } else {
            Ok(n + 1)
        }
    };
    assert_eq!(generate(&module(5), 0, &picky), Err(12));
    assert_eq!(*calls.borrow(), vec![10, 11, 12]);
}

#[test]
fn generate_hands_the_failure_of_the_backend_on() {
    assert_eq!(generate(&module(5), Vec::new(), &log(13)), Err("no binding for 13".to_string()));
}

#[test]
fn generate_writes_text_in_descriptor_order() {
    assert_eq!(generate(&module(3), String::from("m\n"), &lines), Ok("m\nf0#10/0\nf1#11/1\nf2#12/2\n".to_string()));
}

#[test]
fn baud_bytes() {
    assert_eq!(UartBaud::FMR.to_baud(), 0x00);
    assert_eq!(UartBaud::DFU.to_baud(), 0x10);
}

#[test]
fn uart_configure() {
    let uart = Uart0::new();
    assert_eq!(
        uart.configure(&UartBaud::DFU, true),
        Invocation { module: b"uart0".to_vec(), index: 0, args: vec![0x10, 1], transfer: Transfer::Call }
    );
    assert_eq!(
        uart.configure(&UartBaud::FMR, false),
        Invocation { module: b"uart0".to_vec(), index: 0, args: vec![0, 0], transfer: Transfer::Call }
    );
}

#[test]
fn uart_ready() {
    let uart = Uart0::new();
    assert_eq!(
        uart.ready_call(),
        Invocation { module: b"uart0".to_vec(), index: 1, args: vec![], transfer: Transfer::Call }
    );
    assert!(!uart.ready(0));
    assert!(uart.ready(1));
    assert!(uart.ready(255));
}

#[test]
fn uart_write_and_read() {
    let uart = Uart0::new();
    assert_eq!(
        uart.write_call(&[1, 2, 3]),
        Invocation { module: b"uart0".to_vec(), index: 2, args: vec![], transfer: Transfer::Push(vec![1, 2, 3]) }
    );
    assert_eq!(
        uart.read_call(16),
        Invocation { module: b"uart0".to_vec(), index: 3, args: vec![], transfer: Transfer::Pull(16) }
    );
}

#[test]
fn led_calls() {
    let led = Led::new();
    assert_eq!(
        led.configure(),
        Invocation { module: b"led".to_vec(), index: 1, args: vec![], transfer: Transfer::Call }
    );
    assert_eq!(
        led.rgb(1, 2, 3),
        Invocation { module: b"led".to_vec(), index: 0, args: vec![1, 2, 3], transfer: Transfer::Call }
    );
}
