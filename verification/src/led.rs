//! The calls of the `led` module: the status light of the device.

use vstd::prelude::*;
use vstd::pervasive::unreached;
use crate::args::{args_bytes, lemma_args_push, lemma_le_bytes, Args, Scalar};
use crate::wire::{Invocation, InvocationModel, Transfer, TransferModel};

verus! {

/// The name of the module: the bytes of `led`.
pub open spec fn led_name() -> Seq<u8> {
    seq![0x6cu8, 0x65u8, 0x64u8]
}

/// The `led` module of a device.
#[derive(Clone, Copy, Debug, PartialEq, Eq, Structural)]
pub struct Led {}

fn name() -> (n: Vec<u8>)
    ensures
        n@ == led_name(),
{
    let mut n: Vec<u8> = Vec::new();
    n.push(0x6c);
    n.push(0x65);
    n.push(0x64);
    assert(n@ =~= led_name());
    n
}

impl Led {
    /// The module, of whatever device the calls are later sent to.
    pub fn new() -> (l: Led) {
        Led {  }
    }

    /// The call that prepares the light: function 1, without arguments.
    pub fn configure(&self) -> (inv: Invocation)
        ensures
            inv@ == (InvocationModel {
                module: led_name(),
                index: 1,
                args: Seq::empty(),
                transfer: TransferModel::Call,
            }),
    {
        Invocation { module: name(), index: 1, args: Vec::new(), transfer: Transfer::Call }
    }

    /// The call that sets the colour of the light: function 0, with the
    /// red, green and blue bytes in that order.
    pub fn rgb(&self, r: u8, g: u8, b: u8) -> (inv: Invocation)
        ensures
            inv@ == (InvocationModel {
                module: led_name(),
                index: 0,
                args: seq![r, g, b],
                transfer: TransferModel::Call,
            }),
            inv@.args == args_bytes(seq![Scalar::U8(r), Scalar::U8(g), Scalar::U8(b)]),
    {
        let red = Scalar::U8(r);
        let green = Scalar::U8(g);
        let blue = Scalar::U8(b);
        proof {
            lemma_args_push(Seq::empty(), red);
            lemma_args_push(seq![red], green);
            lemma_args_push(seq![red, green], blue);
            lemma_le_bytes(r as int);
            lemma_le_bytes(g as int);
            lemma_le_bytes(b as int);
            assert(Seq::<Scalar>::empty().push(red) =~= seq![red]);
            assert(seq![red].push(green) =~= seq![red, green]);
            assert(seq![red, green].push(blue) =~= seq![red, green, blue]);
        }
        let args = match Args::new().append(red) {
            Ok(a) => a,
            Err(_) => unreached(),
        };
        let args = match args.append(green) {
            Ok(a) => a,
            Err(_) => unreached(),
        };
        let args = match args.append(blue) {
            Ok(a) => a,
            Err(_) => unreached(),
        };
        let bytes = args.to_bytes();
        assert(bytes@ =~= seq![r, g, b]);
        Invocation { module: name(), index: 0, args: bytes, transfer: Transfer::Call }
    }
}

} // verus!
