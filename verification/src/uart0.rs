//! The calls of the `uart0` module: the first serial line of the device.

use vstd::prelude::*;
use vstd::pervasive::unreached;
use crate::args::{args_bytes, lemma_args_push, lemma_le_bytes, Args, Scalar};
use crate::wire::{Invocation, InvocationModel, Transfer, TransferModel};

verus! {

/// The name of the module: the bytes of `uart0`.
pub open spec fn uart0_name() -> Seq<u8> {
    seq![0x75u8, 0x61u8, 0x72u8, 0x74u8, 0x30u8]
}

/// The speed of the line, by the protocol that runs over it.
#[derive(Clone, Copy, Debug, PartialEq, Eq, Structural)]
pub enum UartBaud {
    FMR,
    DFU,
}

/// The byte that selects a speed.
pub open spec fn baud_of(baud: UartBaud) -> u8 {
    match baud {
        UartBaud::FMR => 0x00,
        UartBaud::DFU => 0x10,
    }
}

impl UartBaud {
    /// The byte that selects this speed.
    pub fn to_baud(&self) -> (b: u8)
        ensures
            b == baud_of(*self),
    {
        match *self {
            UartBaud::FMR => 0x00,
            UartBaud::DFU => 0x10,
        }
    }
}

/// The `uart0` module of a device.
#[derive(Clone, Copy, Debug, PartialEq, Eq, Structural)]
pub struct Uart0 {}

fn name() -> (n: Vec<u8>)
    ensures
        n@ == uart0_name(),
{
    let mut n: Vec<u8> = Vec::new();
    n.push(0x75);
    n.push(0x61);
    n.push(0x72);
    n.push(0x74);
    n.push(0x30);
    assert(n@ =~= uart0_name());
    n
}

impl Uart0 {
    /// The module, of whatever device the calls are later sent to.
    pub fn new() -> (u: Uart0) {
        Uart0 {  }
    }

    /// The call that sets the speed of the line and switches its
    /// interrupts on or off: function 0, with the speed byte and then a
    /// flag byte, 1 for on.
    pub fn configure(&self, baud: &UartBaud, interrupts: bool) -> (inv: Invocation)
        ensures
            inv@ == (InvocationModel {
                module: uart0_name(),
                index: 0,
                args: seq![baud_of(*baud), if interrupts { 1u8 } else { 0u8 }],
                transfer: TransferModel::Call,
            }),
            inv@.args == args_bytes(
                seq![Scalar::U8(baud_of(*baud)), Scalar::U8(if interrupts { 1u8 } else { 0u8 })],
            ),
    {
        let first = Scalar::U8(baud.to_baud());
        let second = Scalar::U8(if interrupts { 1u8 } else { 0u8 });
        proof {
            lemma_args_push(Seq::empty(), first);
            lemma_args_push(seq![first], second);
            lemma_le_bytes(baud_of(*baud) as int);
            lemma_le_bytes(if interrupts { 1int } else { 0int });
            assert(Seq::<Scalar>::empty().push(first) =~= seq![first]);
            assert(seq![first].push(second) =~= seq![first, second]);
        }
        let args = match Args::new().append(first) {
            Ok(a) => a,
            Err(_) => unreached(),
        };
        let args = match args.append(second) {
            Ok(a) => a,
            Err(_) => unreached(),
        };
        let bytes = args.to_bytes();
        assert(bytes@ =~= seq![baud_of(*baud), if interrupts { 1u8 } else { 0u8 }]);
        Invocation { module: name(), index: 0, args: bytes, transfer: Transfer::Call }
    }

    /// The call that asks whether the line is ready to read or write:
    /// function 1, without arguments. Its return value is one byte.
    pub fn ready_call(&self) -> (inv: Invocation)
        ensures
            inv@ == (InvocationModel {
                module: uart0_name(),
                index: 1,
                args: Seq::empty(),
                transfer: TransferModel::Call,
            }),
    {
        Invocation { module: name(), index: 1, args: Vec::new(), transfer: Transfer::Call }
    }

    /// Whether the line is ready, from the byte that `ready_call`
    /// returned: any byte but zero says yes.
    pub fn ready(&self, ret: u8) -> (ready: bool)
        ensures
            ready == (ret != 0),
    {
        ret != 0
    }

    /// The call that writes `buf` to the line: function 2, with `buf`
    /// pushed to the device.
    pub fn write_call(&self, buf: &[u8]) -> (inv: Invocation)
        ensures
            inv@ == (InvocationModel {
                module: uart0_name(),
                index: 2,
                args: Seq::empty(),
                transfer: TransferModel::Push(buf@),
            }),
    {
        Invocation {
            module: name(),
            index: 2,
            args: Vec::new(),
            transfer: Transfer::Push(vstd::slice::slice_to_vec(buf)),
        }
    }

    /// The call that reads `len` bytes from the line: function 3, with
    /// that many bytes pulled from the device.
    pub fn read_call(&self, len: usize) -> (inv: Invocation)
        ensures
            inv@ == (InvocationModel {
                module: uart0_name(),
                index: 3,
                args: Seq::empty(),
                transfer: TransferModel::Pull(len as nat),
            }),
    {
        Invocation { module: name(), index: 3, args: Vec::new(), transfer: Transfer::Pull(len) }
    }
}

} // verus!
