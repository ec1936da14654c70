//! What holds between a response as a device writes it and the result
//! that the host reads from it.

use vstd::prelude::*;
use crate::args::{kind_of, scalar_bytes, Scalar};
use crate::args_laws::lemma_scalar_round_trip;
use crate::model::ArgumentType;
use crate::wire::{
    kind_of_status, response_of, status_of, DeviceErrorKind, InvokeError, ProtocolError,
};

verus! {

/// The shape at which a returned value is read back.
pub open spec fn shape_of(value: Option<Scalar>) -> Option<ArgumentType> {
    match value {
        None => None,
        Some(v) => Some(kind_of(v)),
    }
}

/// The response to a call that succeeded with `value` and brought `bulk`.
pub open spec fn success_bytes(value: Option<Scalar>, bulk: Seq<u8>) -> Seq<u8> {
    seq![0u8] + match value {
        None => Seq::empty(),
        Some(v) => scalar_bytes(v),
    } + bulk
}

/// A successful response is read back as the value and the bulk bytes
/// that the device wrote, exactly.
pub proof fn lemma_success_read_back(value: Option<Scalar>, bulk: Seq<u8>)
    ensures
        response_of(success_bytes(value, bulk), shape_of(value), bulk.len()) == Ok::<_, InvokeError>(
            (value, bulk),
        ),
{
    let s = success_bytes(value, bulk);
    match value {
        None => {
            assert(s.subrange(1, 1) =~= Seq::empty());
            assert(s.subrange(1, 1 + bulk.len() as int) =~= bulk);
        },
        Some(v) => {
            lemma_scalar_round_trip(v);
            let w = scalar_bytes(v).len() as int;
            assert(s.subrange(1, 1 + w) =~= scalar_bytes(v));
            assert(s.subrange(1 + w, 1 + w + bulk.len()) =~= bulk);
        },
    }
}

/// Every failure has a status byte of its own, which is not zero, and a
/// response that starts with it is read back as that failure, whatever
/// follows and whatever the caller expected.
pub proof fn lemma_failure_read_back(
    kind: DeviceErrorKind,
    rest: Seq<u8>,
    ret: Option<ArgumentType>,
    bulk_len: nat,
)
    ensures
        status_of(kind) != 0,
        kind_of_status(status_of(kind)) == Some(kind),
        response_of(seq![status_of(kind)] + rest, ret, bulk_len) == Err::<
            (Option<Scalar>, Seq<u8>),
            _,
        >(InvokeError::Device(kind)),
{
    assert((seq![status_of(kind)] + rest)[0] == status_of(kind));
}

/// A status byte that reports no known failure is never dropped: it
/// comes back inside the error.
pub proof fn lemma_unknown_status_kept(s: Seq<u8>, ret: Option<ArgumentType>, bulk_len: nat)
    requires
        s.len() > 0,
        s[0] != 0,
        kind_of_status(s[0]).is_none(),
    ensures
        response_of(s, ret, bulk_len) == Err::<(Option<Scalar>, Seq<u8>), _>(
            InvokeError::Protocol(ProtocolError::UnknownStatus(s[0])),
        ),
{
}

} // verus!
