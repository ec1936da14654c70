//! The wire envelope: the request that carries one invocation to a
//! device, and the response that carries its status and return value back.
//!
//! ```text
//! request  := version kind name_len name index args_len args transfer
//! kind     := 0 (call) | 1 (push) | 2 (pull)
//! transfer := (nothing, for a call) | bulk_len bulk (push) | bulk_len (pull)
//! response := status value bulk
//! ```
//!
//! `version` is `WIRE_VERSION`. `version`, `kind`, `name_len`, `index`
//! and `status` are one byte; `args_len` is
//! two bytes and `bulk_len` four, least significant byte first. A
//! response to a failed call is its status byte alone. `value` is as wide
//! as the return shape that the caller expects (nothing for none or for
//! a byte sequence); `bulk` is present in the response to a pull and is
//! as long as the caller asked for.

use vstd::prelude::*;
use crate::args::{le_bytes, scalar_of_bytes, EncodingError, Scalar, MAX_ARGS_SIZE};
use crate::descriptor::{append_bytes, copy_range};
use crate::model::{width_of, ArgumentType};

verus! {

/// What a device reports when a call fails.
#[derive(Clone, Copy, Debug, PartialEq, Eq, Structural)]
pub enum DeviceErrorKind {
    Malloc,
    Null,
    Overflow,
    NoDevice,
    NotAttached,
    AlreadyAttached,
    FsExists,
    FsNoFile,
    FmrOverflow,
    Fmr,
    Endpoint,
    LibUsb,
    Communication,
    Socket,
    Module,
    Resolution,
    String,
    Checksum,
    Name,
    Configuration,
    Ack,
    Type,
    Boundary,
    Timer,
    Timeout,
    NoPID,
    InvalidTask,
    Subclass,
    Unimplemented,
}

/// The status byte of a failure.
pub open spec fn status_of(kind: DeviceErrorKind) -> u8 {
    match kind {
        DeviceErrorKind::Malloc => 1,
        DeviceErrorKind::Null => 2,
        DeviceErrorKind::Overflow => 3,
        DeviceErrorKind::NoDevice => 4,
        DeviceErrorKind::NotAttached => 5,
        DeviceErrorKind::AlreadyAttached => 6,
        DeviceErrorKind::FsExists => 7,
        DeviceErrorKind::FsNoFile => 8,
        DeviceErrorKind::FmrOverflow => 9,
        DeviceErrorKind::Fmr => 10,
        DeviceErrorKind::Endpoint => 11,
        DeviceErrorKind::LibUsb => 12,
        DeviceErrorKind::Communication => 13,
        DeviceErrorKind::Socket => 14,
        DeviceErrorKind::Module => 15,
        DeviceErrorKind::Resolution => 16,
        DeviceErrorKind::String => 17,
        DeviceErrorKind::Checksum => 18,
        DeviceErrorKind::Name => 19,
        DeviceErrorKind::Configuration => 20,
        DeviceErrorKind::Ack => 21,
        DeviceErrorKind::Type => 22,
        DeviceErrorKind::Boundary => 23,
        DeviceErrorKind::Timer => 24,
        DeviceErrorKind::Timeout => 25,
        DeviceErrorKind::NoPID => 26,
        DeviceErrorKind::InvalidTask => 27,
        DeviceErrorKind::Subclass => 28,
        DeviceErrorKind::Unimplemented => 29,
    }
}

/// The failure that a status byte reports, if it reports a known one.
/// Zero is success and reports none.
pub open spec fn kind_of_status(status: u8) -> Option<DeviceErrorKind> {
    if status == 1 {
        Some(DeviceErrorKind::Malloc)
    } else if status == 2 {
        Some(DeviceErrorKind::Null)
    } else if status == 3 {
        Some(DeviceErrorKind::Overflow)
    } else if status == 4 {
        Some(DeviceErrorKind::NoDevice)
    } else if status == 5 {
        Some(DeviceErrorKind::NotAttached)
    } else if status == 6 {
        Some(DeviceErrorKind::AlreadyAttached)
    } else if status == 7 {
        Some(DeviceErrorKind::FsExists)
    } else if status == 8 {
        Some(DeviceErrorKind::FsNoFile)
    } else if status == 9 {
        Some(DeviceErrorKind::FmrOverflow)
    } else if status == 10 {
        Some(DeviceErrorKind::Fmr)
    } else if status == 11 {
        Some(DeviceErrorKind::Endpoint)
    } else if status == 12 {
        Some(DeviceErrorKind::LibUsb)
    } else if status == 13 {
        Some(DeviceErrorKind::Communication)
    } else if status == 14 {
        Some(DeviceErrorKind::Socket)
    } else if status == 15 {
        Some(DeviceErrorKind::Module)
    } else if status == 16 {
        Some(DeviceErrorKind::Resolution)
    } else if status == 17 {
        Some(DeviceErrorKind::String)
    } else if status == 18 {
        Some(DeviceErrorKind::Checksum)
    } else if status == 19 {
        Some(DeviceErrorKind::Name)
    } else if status == 20 {
        Some(DeviceErrorKind::Configuration)
    } else if status == 21 {
        Some(DeviceErrorKind::Ack)
    } else if status == 22 {
        Some(DeviceErrorKind::Type)
    } else if status == 23 {
        Some(DeviceErrorKind::Boundary)
    } else if status == 24 {
        Some(DeviceErrorKind::Timer)
    } else if status == 25 {
        Some(DeviceErrorKind::Timeout)
    } else if status == 26 {
        Some(DeviceErrorKind::NoPID)
    } else if status == 27 {
        Some(DeviceErrorKind::InvalidTask)
    } else if status == 28 {
        Some(DeviceErrorKind::Subclass)
    } else if status == 29 {
        Some(DeviceErrorKind::Unimplemented)
    } else {
        None
    }
}

impl DeviceErrorKind {
    /// The status byte of this failure.
    pub fn status(self) -> (status: u8)
        ensures
            status == status_of(self),
            status != 0,
            kind_of_status(status) == Some(self),
    {
        match self {
        DeviceErrorKind::Malloc => 1,
        DeviceErrorKind::Null => 2,
        DeviceErrorKind::Overflow => 3,
        DeviceErrorKind::NoDevice => 4,
        DeviceErrorKind::NotAttached => 5,
        DeviceErrorKind::AlreadyAttached => 6,
        DeviceErrorKind::FsExists => 7,
        DeviceErrorKind::FsNoFile => 8,
        DeviceErrorKind::FmrOverflow => 9,
        DeviceErrorKind::Fmr => 10,
        DeviceErrorKind::Endpoint => 11,
        DeviceErrorKind::LibUsb => 12,
        DeviceErrorKind::Communication => 13,
        DeviceErrorKind::Socket => 14,
        DeviceErrorKind::Module => 15,
        DeviceErrorKind::Resolution => 16,
        DeviceErrorKind::String => 17,
        DeviceErrorKind::Checksum => 18,
        DeviceErrorKind::Name => 19,
        DeviceErrorKind::Configuration => 20,
        DeviceErrorKind::Ack => 21,
        DeviceErrorKind::Type => 22,
        DeviceErrorKind::Boundary => 23,
        DeviceErrorKind::Timer => 24,
        DeviceErrorKind::Timeout => 25,
        DeviceErrorKind::NoPID => 26,
        DeviceErrorKind::InvalidTask => 27,
        DeviceErrorKind::Subclass => 28,
        DeviceErrorKind::Unimplemented => 29,
        }
    }

    /// The failure that a status byte reports.
    pub fn from_status(status: u8) -> (kind: Option<DeviceErrorKind>)
        ensures
            kind == kind_of_status(status),
    {
        if status == 1 {
            Some(DeviceErrorKind::Malloc)
        } else if status == 2 {
            Some(DeviceErrorKind::Null)
        } else if status == 3 {
            Some(DeviceErrorKind::Overflow)
        } else if status == 4 {
            Some(DeviceErrorKind::NoDevice)
        } else if status == 5 {
            Some(DeviceErrorKind::NotAttached)
        } else if status == 6 {
            Some(DeviceErrorKind::AlreadyAttached)
        } else if status == 7 {
            Some(DeviceErrorKind::FsExists)
        } else if status == 8 {
            Some(DeviceErrorKind::FsNoFile)
        } else if status == 9 {
            Some(DeviceErrorKind::FmrOverflow)
        } else if status == 10 {
            Some(DeviceErrorKind::Fmr)
        } else if status == 11 {
            Some(DeviceErrorKind::Endpoint)
        } else if status == 12 {
            Some(DeviceErrorKind::LibUsb)
        } else if status == 13 {
            Some(DeviceErrorKind::Communication)
        } else if status == 14 {
            Some(DeviceErrorKind::Socket)
        } else if status == 15 {
            Some(DeviceErrorKind::Module)
        } else if status == 16 {
            Some(DeviceErrorKind::Resolution)
        } else if status == 17 {
            Some(DeviceErrorKind::String)
        } else if status == 18 {
            Some(DeviceErrorKind::Checksum)
        } else if status == 19 {
            Some(DeviceErrorKind::Name)
        } else if status == 20 {
            Some(DeviceErrorKind::Configuration)
        } else if status == 21 {
            Some(DeviceErrorKind::Ack)
        } else if status == 22 {
            Some(DeviceErrorKind::Type)
        } else if status == 23 {
            Some(DeviceErrorKind::Boundary)
        } else if status == 24 {
            Some(DeviceErrorKind::Timer)
        } else if status == 25 {
            Some(DeviceErrorKind::Timeout)
        } else if status == 26 {
            Some(DeviceErrorKind::NoPID)
        } else if status == 27 {
            Some(DeviceErrorKind::InvalidTask)
        } else if status == 28 {
            Some(DeviceErrorKind::Subclass)
        } else if status == 29 {
            Some(DeviceErrorKind::Unimplemented)
        } else {
            None
        }
    }
}

/// A response that cannot be read.
#[derive(Clone, Copy, Debug, PartialEq, Eq, Structural)]
pub enum ProtocolError {
    /// The response is shorter than its status and the expected lengths
    /// require.
    Truncated,
    /// The status byte, carried here, reports no known failure.
    UnknownStatus(u8),
}

/// Why a call has no result.
#[derive(Clone, Copy, Debug, PartialEq, Eq, Structural)]
pub enum InvokeError {
    Protocol(ProtocolError),
    Device(DeviceErrorKind),
}

/// What moves beside the arguments.
#[derive(Clone, Debug, PartialEq, Eq)]
pub enum Transfer {
    /// Nothing: a plain call.
    Call,
    /// These bytes go to the device.
    Push(Vec<u8>),
    /// This many bytes come back from the device.
    Pull(usize),
}

/// One remote call: the module, the index of the function in it, the
/// argument buffer, and the bulk transfer if there is one.
#[derive(Clone, Debug, PartialEq, Eq)]
pub struct Invocation {
    pub module: Vec<u8>,
    pub index: u8,
    pub args: Vec<u8>,
    pub transfer: Transfer,
}

/// What a successful call brought back.
#[derive(Clone, Debug, PartialEq, Eq)]
pub struct Reply {
    /// The return value, where the caller expected one of fixed width.
    pub value: Option<Scalar>,
    /// The bytes pulled from the device; empty unless the call was a pull.
    pub bulk: Vec<u8>,
}

/// The version byte that opens every request.
pub const WIRE_VERSION: u8 = 1;

/// The largest bulk transfer that the envelope can announce.
pub const MAX_BULK_SIZE: usize = 0xffff_ffff;

/// What a `Transfer` is, mathematically.
pub ghost enum TransferModel {
    Call,
    Push(Seq<u8>),
    Pull(nat),
}

impl View for Transfer {
    type V = TransferModel;

    open spec fn view(&self) -> TransferModel {
        match *self {
            Transfer::Call => TransferModel::Call,
            Transfer::Push(b) => TransferModel::Push(b@),
            Transfer::Pull(n) => TransferModel::Pull(n as nat),
        }
    }
}

/// What an `Invocation` is, mathematically.
pub ghost struct InvocationModel {
    pub module: Seq<u8>,
    pub index: u8,
    pub args: Seq<u8>,
    pub transfer: TransferModel,
}

impl View for Invocation {
    type V = InvocationModel;

    open spec fn view(&self) -> InvocationModel {
        InvocationModel {
            module: self.module@,
            index: self.index,
            args: self.args@,
            transfer: self.transfer@,
        }
    }
}

/// The kind byte of a request.
pub open spec fn transfer_kind(t: TransferModel) -> u8 {
    match t {
        TransferModel::Call => 0,
        TransferModel::Push(_) => 1,
        TransferModel::Pull(_) => 2,
    }
}

/// The number of bulk bytes a request announces.
pub open spec fn transfer_len(t: TransferModel) -> nat {
    match t {
        TransferModel::Call => 0,
        TransferModel::Push(b) => b.len(),
        TransferModel::Pull(n) => n,
    }
}

/// The number of bulk bytes the response to a request carries.
pub open spec fn pulled_len(t: TransferModel) -> nat {
    match t {
        TransferModel::Pull(n) => n,
        _ => 0,
    }
}

/// The end of a request, after the arguments.
pub open spec fn transfer_bytes(t: TransferModel) -> Seq<u8> {
    match t {
        TransferModel::Call => Seq::empty(),
        TransferModel::Push(b) => le_bytes(b.len() as int, 4) + b,
        TransferModel::Pull(n) => le_bytes(n as int, 4),
    }
}

/// An invocation that the envelope can carry: every length fits its
/// field.
pub open spec fn encodable(inv: InvocationModel) -> bool {
    &&& inv.module.len() <= 255
    &&& inv.args.len() <= MAX_ARGS_SIZE
    &&& transfer_len(inv.transfer) <= MAX_BULK_SIZE
}

/// The request that carries an invocation.
pub open spec fn request_bytes(inv: InvocationModel) -> Seq<u8> {
    seq![WIRE_VERSION, transfer_kind(inv.transfer), inv.module.len() as u8] + inv.module + seq![
        inv.index,
    ]
        + le_bytes(inv.args.len() as int, 2) + inv.args + transfer_bytes(inv.transfer)
}

/// The width of the value in a response, for the return shape that the
/// caller expects.
pub open spec fn value_width(ret: Option<ArgumentType>) -> nat {
    match ret {
        None => 0,
        Some(t) => match width_of(t) {
            None => 0,
            Some(w) => w,
        },
    }
}

/// The return value that the bytes `s` hold for the expected shape.
pub open spec fn value_of(s: Seq<u8>, ret: Option<ArgumentType>) -> Option<Scalar> {
    match ret {
        None => None,
        Some(t) => scalar_of_bytes(s, t),
    }
}

/// What a response says, for the return shape and the number of pulled
/// bytes that the caller expects: the value and the bulk bytes, or why
/// there are none.
pub open spec fn response_of(s: Seq<u8>, ret: Option<ArgumentType>, bulk_len: nat) -> Result<
    (Option<Scalar>, Seq<u8>),
    InvokeError,
> {
    let w = value_width(ret) as int;
    if s.len() < 1 {
        Err(InvokeError::Protocol(ProtocolError::Truncated))
    } else if s[0] != 0 {
        match kind_of_status(s[0]) {
            Some(kind) => Err(InvokeError::Device(kind)),
            None => Err(InvokeError::Protocol(ProtocolError::UnknownStatus(s[0]))),
        }
    } else if s.len() < 1 + w + bulk_len {
        Err(InvokeError::Protocol(ProtocolError::Truncated))
    } else {
        Ok((value_of(s.subrange(1, 1 + w), ret), s.subrange(1 + w, 1 + w + bulk_len)))
    }
}

/// Writes the request that carries `inv`, or refuses one with a length
/// that does not fit its field.
pub fn encode_request(inv: &Invocation) -> (r: Result<Vec<u8>, EncodingError>)
    ensures
        match r {
            Ok(bytes) => encodable(inv@) && bytes@ == request_bytes(inv@),
            Err(EncodingError::TooLarge) => !encodable(inv@),
        },
{
    if inv.module.len() > 255 || inv.args.len() > MAX_ARGS_SIZE {
        return Err(EncodingError::TooLarge);
    }
    let announced: usize = match &inv.transfer {
        Transfer::Call => 0,
        Transfer::Push(b) => b.len(),
        Transfer::Pull(n) => *n,
    };
    if announced > MAX_BULK_SIZE {
        return Err(EncodingError::TooLarge);
    }
    let kind: u8 = match &inv.transfer {
        Transfer::Call => 0,
        Transfer::Push(_) => 1,
        Transfer::Pull(_) => 2,
    };
    let mut out: Vec<u8> = Vec::new();
    out.push(WIRE_VERSION);
    out.push(kind);
    out.push(inv.module.len() as u8);
    append_bytes(&mut out, inv.module.as_slice());
    out.push(inv.index);
    Scalar::U16(inv.args.len() as u16).write(&mut out);
    append_bytes(&mut out, inv.args.as_slice());
    let ghost head = out@;
    match &inv.transfer {
        Transfer::Call => {},
        Transfer::Push(b) => {
            Scalar::U32(announced as u32).write(&mut out);
            append_bytes(&mut out, b.as_slice());
            assert(out@ =~= head + transfer_bytes(inv.transfer@));
        },
        Transfer::Pull(_) => {
            Scalar::U32(announced as u32).write(&mut out);
        },
    }
    assert(out@ =~= request_bytes(inv@));
    Ok(out)
}

/// Reads a response, for the return shape `ret` and the number of pulled
/// bytes `bulk_len` that the caller expects. A nonzero status comes back
/// as the failure it reports, or as `UnknownStatus` with the byte itself.
pub fn decode_response(bytes: &[u8], ret: Option<ArgumentType>, bulk_len: usize) -> (r: Result<
    Reply,
    InvokeError,
>)
    ensures
        match r {
            Ok(reply) => response_of(bytes@, ret, bulk_len as nat) == Ok::<_, InvokeError>(
                (reply.value, reply.bulk@),
            ),
            Err(e) => response_of(bytes@, ret, bulk_len as nat) == Err::<
                (Option<Scalar>, Seq<u8>),
                _,
            >(e),
        },
{
    let len: usize = bytes.len();
    if len < 1 {
        return Err(InvokeError::Protocol(ProtocolError::Truncated));
    }
    let status: u8 = bytes[0];
    if status != 0 {
        return match DeviceErrorKind::from_status(status) {
            Some(kind) => Err(InvokeError::Device(kind)),
            None => Err(InvokeError::Protocol(ProtocolError::UnknownStatus(status))),
        };
    }
    let w: usize = match ret {
        None => 0,
        Some(t) => match t.width() {
            None => 0,
            Some(w) => w,
        },
    };
    if len - 1 < w || len - 1 - w < bulk_len {
        return Err(InvokeError::Protocol(ProtocolError::Truncated));
    }
    let value: Option<Scalar> = match ret {
        None => None,
        Some(t) => Scalar::read(vstd::slice::slice_subrange(bytes, 1, 1 + w), t),
    };
    let bulk = copy_range(bytes, 1 + w, 1 + w + bulk_len);
    Ok(Reply { value, bulk })
}

} // verus!
