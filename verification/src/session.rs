//! The device session: one call at a time, request out, response in.
//!
//! The session does no input or output. `begin` (or `invoke`, `push`,
//! `pull`) hands out the request to send and remembers what the response
//! must hold; `complete` takes the response and gives the result. Between
//! the two the session is busy and begins no other call.

use vstd::prelude::*;
use vstd::string::StringSliceAdditionalSpecFns;
use crate::args::{args_bytes, Args, EncodingError, Scalar};
use crate::model::ArgumentType;
use crate::wire::{
    decode_response, encodable, encode_request, pulled_len, request_bytes, response_of,
    InvocationModel, InvokeError, Invocation, Reply, Transfer, TransferModel,
};

verus! {

/// Why the session did not take a step.
#[derive(Clone, Copy, Debug, PartialEq, Eq, Structural)]
pub enum SessionError {
    /// A call is outstanding: its response has to come first.
    Busy,
    /// No call is outstanding, so there is no response to take.
    Idle,
    /// The invocation does not fit the envelope.
    Encoding(EncodingError),
    /// The call failed, on the wire or on the device.
    Invoke(InvokeError),
}

/// What an outstanding call expects of its response.
#[derive(Clone, Copy, Debug, PartialEq, Eq)]
struct Pending {
    ret: Option<ArgumentType>,
    bulk_len: usize,
}

/// A session with one device. Its view is what the outstanding call
/// expects (return shape and number of pulled bytes), or `None` when no
/// call is outstanding.
#[derive(Debug)]
pub struct Session {
    pending: Option<Pending>,
}

impl View for Session {
    type V = Option<(Option<ArgumentType>, nat)>;

    closed spec fn view(&self) -> Option<(Option<ArgumentType>, nat)> {
        match self.pending {
            None => None,
            Some(p) => Some((p.ret, p.bulk_len as nat)),
        }
    }
}

/// The result of a call, from what its response says.
pub open spec fn outcome(
    said: Result<(Option<Scalar>, Seq<u8>), InvokeError>,
    r: Result<Reply, SessionError>,
) -> bool {
    match said {
        Ok((value, bulk)) => r is Ok && r.unwrap().value == value && r.unwrap().bulk@ == bulk,
        Err(e) => r == Err::<Reply, _>(SessionError::Invoke(e)),
    }
}

/// The invocation of function `index` of `module` with the argument list
/// `args` and the transfer `transfer`.
pub open spec fn call_model(module: Seq<u8>, index: u8, args: Seq<Scalar>, transfer: TransferModel) -> InvocationModel {
    InvocationModel { module, index, args: args_bytes(args), transfer }
}

/// How starting the call `inv` takes a session from `before` to `after`
/// with the result `r`: an idle session and an invocation that fits give
/// the request and a session that waits for the response; a busy session
/// gives `Busy`, an invocation that does not fit gives `TooLarge`, and
/// the session stays as it was.
pub open spec fn started(
    before: Option<(Option<ArgumentType>, nat)>,
    after: Option<(Option<ArgumentType>, nat)>,
    inv: InvocationModel,
    ret: Option<ArgumentType>,
    r: Result<Vec<u8>, SessionError>,
) -> bool {
    if before.is_some() {
        r == Err::<Vec<u8>, _>(SessionError::Busy) && after == before
    } else if !encodable(inv) {
        r == Err::<Vec<u8>, _>(SessionError::Encoding(EncodingError::TooLarge)) && after == before
    } else {
        r is Ok && r.unwrap()@ == request_bytes(inv) && after == Some(
            (ret, pulled_len(inv.transfer)),
        )
    }
}

impl Session {
    /// A session with no call outstanding.
    pub fn new() -> (s: Session)
        ensures
            s@.is_none(),
    {
        Session { pending: None }
    }

    /// Whether a call is outstanding.
    pub fn is_busy(&self) -> (busy: bool)
        ensures
            busy == self@.is_some(),
    {
        self.pending.is_some()
    }

    /// Starts a call and returns the request to send. `ret` is the shape
    /// of the return value that the caller expects. A busy session starts
    /// nothing, and neither does an invocation that does not fit the
    /// envelope; the session is then unchanged.
    pub fn begin(&mut self, inv: &Invocation, ret: Option<ArgumentType>) -> (r: Result<
        Vec<u8>,
        SessionError,
    >)
        ensures
            started(old(self)@, final(self)@, inv@, ret, r),
    {
        if self.pending.is_some() {
            return Err(SessionError::Busy);
        }
        match encode_request(inv) {
            Err(e) => Err(SessionError::Encoding(e)),
            Ok(bytes) => {
                let bulk_len: usize = match &inv.transfer {
                    Transfer::Pull(n) => *n,
                    _ => 0,
                };
                self.pending = Some(Pending { ret, bulk_len });
                Ok(bytes)
            },
        }
    }

    /// Takes the response to the outstanding call and ends it: the
    /// session is idle afterwards, whatever the response says. The result
    /// is the value and the pulled bytes, or the failure that the
    /// response reports. With no call outstanding nothing is read.
    pub fn complete(&mut self, response: &[u8]) -> (r: Result<Reply, SessionError>)
        ensures
            final(self)@.is_none(),
            match old(self)@ {
                None => r == Err::<Reply, _>(SessionError::Idle),
                Some((ret, bulk_len)) => outcome(response_of(response@, ret, bulk_len), r),
            },
    {
        match self.pending {
            None => Err(SessionError::Idle),
            Some(p) => {
                self.pending = None;
                match decode_response(response, p.ret, p.bulk_len) {
                    Ok(reply) => Ok(reply),
                    Err(e) => Err(SessionError::Invoke(e)),
                }
            },
        }
    }

    /// Starts a plain call of function `index` of `module` with `args`.
    /// The module goes on the wire as the UTF-8 bytes of its name.
    pub fn invoke(&mut self, module: &str, index: u8, args: &Args, ret: Option<ArgumentType>) -> (r:
        Result<Vec<u8>, SessionError>)
        ensures
            started(
                old(self)@,
                final(self)@,
                call_model(module.spec_bytes(), index, args@, TransferModel::Call),
                ret,
                r,
            ),
    {
        let inv = Invocation {
            module: vstd::slice::slice_to_vec(module.as_bytes()),
            index,
            args: args.to_bytes(),
            transfer: Transfer::Call,
        };
        self.begin(&inv, ret)
    }

    /// Starts a call that also sends `buffer` to the device.
    pub fn push(
        &mut self,
        module: &str,
        index: u8,
        buffer: &[u8],
        args: &Args,
        ret: Option<ArgumentType>,
    ) -> (r: Result<Vec<u8>, SessionError>)
        ensures
            started(
                old(self)@,
                final(self)@,
                call_model(module.spec_bytes(), index, args@, TransferModel::Push(buffer@)),
                ret,
                r,
            ),
    {
        let inv = Invocation {
            module: vstd::slice::slice_to_vec(module.as_bytes()),
            index,
            args: args.to_bytes(),
            transfer: Transfer::Push(vstd::slice::slice_to_vec(buffer)),
        };
        self.begin(&inv, ret)
    }

    /// Starts a call that also brings `len` bytes back from the device.
    pub fn pull(&mut self, module: &str, index: u8, len: usize, args: &Args, ret: Option<
        ArgumentType,
    >) -> (r: Result<Vec<u8>, SessionError>)
        ensures
            started(
                old(self)@,
                final(self)@,
                call_model(module.spec_bytes(), index, args@, TransferModel::Pull(len as nat)),
                ret,
                r,
            ),
    {
        let inv = Invocation {
            module: vstd::slice::slice_to_vec(module.as_bytes()),
            index,
            args: args.to_bytes(),
            transfer: Transfer::Pull(len),
        };
        self.begin(&inv, ret)
    }
}

} // verus!
