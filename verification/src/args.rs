//! The argument encoder: an ordered list of fixed-width integers and the
//! byte buffer that carries it.
//!
//! Each value is written at its own width, least significant byte first;
//! a negative value is written in two's complement. The values follow one
//! another without padding, in the order in which they were appended.

use vstd::prelude::*;
use crate::model::{width_of, ArgumentType};

verus! {

/// The largest argument buffer that the wire envelope can carry.
pub const MAX_ARGS_SIZE: usize = 65535;

/// The limit of an encoder made by `Args::new`.
pub const DEFAULT_ARGS_LIMIT: usize = 255;

/// One argument value at its declared width.
#[derive(Clone, Copy, Debug, PartialEq, Eq, Structural)]
pub enum Scalar {
    U8(u8),
    U16(u16),
    U32(u32),
    I8(i8),
    I16(i16),
    I32(i32),
}

/// Why an argument list could not be built.
#[derive(Clone, Copy, Debug, PartialEq, Eq, Structural)]
pub enum EncodingError {
    /// The buffer would grow past its limit.
    TooLarge,
}

/// The shape of a value.
pub open spec fn kind_of(v: Scalar) -> ArgumentType {
    match v {
        Scalar::U8(_) => ArgumentType::U8,
        Scalar::U16(_) => ArgumentType::U16,
        Scalar::U32(_) => ArgumentType::U32,
        Scalar::I8(_) => ArgumentType::I8,
        Scalar::I16(_) => ArgumentType::I16,
        Scalar::I32(_) => ArgumentType::I32,
    }
}

/// The number a value stands for.
pub open spec fn number_of(v: Scalar) -> int {
    match v {
        Scalar::U8(x) => x as int,
        Scalar::U16(x) => x as int,
        Scalar::U32(x) => x as int,
        Scalar::I8(x) => x as int,
        Scalar::I16(x) => x as int,
        Scalar::I32(x) => x as int,
    }
}

/// The number of bytes a value takes.
pub open spec fn scalar_width(v: Scalar) -> nat {
    match v {
        Scalar::U8(_) | Scalar::I8(_) => 1,
        Scalar::U16(_) | Scalar::I16(_) => 2,
        Scalar::U32(_) | Scalar::I32(_) => 4,
    }
}

/// `x` as a residue below `modulus`: itself, or `x + modulus` when it is
/// negative.
pub open spec fn residue(x: int, modulus: int) -> int {
    if x < 0 {
        x + modulus
    } else {
        x
    }
}

/// The `width` low bytes of `x`, least significant first.
pub open spec fn le_bytes(x: int, width: nat) -> Seq<u8>
    decreases width,
{
    if width == 0 {
        Seq::empty()
    } else {
        seq![(x % 256) as u8] + le_bytes(x / 256, (width - 1) as nat)
    }
}

/// The number whose low bytes, least significant first, are `s`.
pub open spec fn le_value(s: Seq<u8>) -> int
    decreases s.len(),
{
    if s.len() == 0 {
        0
    } else {
        s[0] as int + 256 * le_value(s.skip(1))
    }
}

/// The bytes of one value.
pub open spec fn scalar_bytes(v: Scalar) -> Seq<u8> {
    match v {
        Scalar::U8(x) => le_bytes(x as int, 1),
        Scalar::U16(x) => le_bytes(x as int, 2),
        Scalar::U32(x) => le_bytes(x as int, 4),
        Scalar::I8(x) => le_bytes(residue(x as int, 0x100), 1),
        Scalar::I16(x) => le_bytes(residue(x as int, 0x1_0000), 2),
        Scalar::I32(x) => le_bytes(residue(x as int, 0x1_0000_0000), 4),
    }
}

/// The buffer of an argument list.
pub open spec fn args_bytes(vs: Seq<Scalar>) -> Seq<u8>
    decreases vs.len(),
{
    if vs.len() == 0 {
        Seq::empty()
    } else {
        args_bytes(vs.drop_last()) + scalar_bytes(vs.last())
    }
}

/// The value of shape `t` whose bytes are `s`; none for a byte sequence or
/// for a run of the wrong length.
pub open spec fn scalar_of_bytes(s: Seq<u8>, t: ArgumentType) -> Option<Scalar> {
    if width_of(t) != Some(s.len()) {
        None
    } else {
        let u = le_value(s);
        match t {
            ArgumentType::U8 => Some(Scalar::U8(u as u8)),
            ArgumentType::U16 => Some(Scalar::U16(u as u16)),
            ArgumentType::U32 => Some(Scalar::U32(u as u32)),
            ArgumentType::I8 => Some(Scalar::I8((if u >= 0x80 { u - 0x100 } else { u }) as i8)),
            ArgumentType::I16 => Some(
                Scalar::I16((if u >= 0x8000 { u - 0x1_0000 } else { u }) as i16),
            ),
            ArgumentType::I32 => Some(
                Scalar::I32((if u >= 0x8000_0000 { u - 0x1_0000_0000 } else { u }) as i32),
            ),
            ArgumentType::Bytes => None,
        }
    }
}

/// The values of shapes `kinds` that lie one after the other in `s` from
/// `pos` and end where `s` ends, appended to `acc`.
pub open spec fn decode_values(
    s: Seq<u8>,
    pos: int,
    kinds: Seq<ArgumentType>,
    acc: Seq<Scalar>,
) -> Option<Seq<Scalar>>
    decreases kinds.len(),
{
    if kinds.len() == 0 {
        if pos == s.len() {
            Some(acc)
        } else {
            None
        }
    } else {
        match width_of(kinds[0]) {
            None => None,
            Some(w) => if pos + w > s.len() {
                None
            } else {
                match scalar_of_bytes(s.subrange(pos, pos + w), kinds[0]) {
                    None => None,
                    Some(v) => decode_values(s, pos + w, kinds.skip(1), acc.push(v)),
                }
            },
        }
    }
}

/// The low bytes of a number below 2^32, unfolded.
pub proof fn lemma_le_bytes(x: int)
    ensures
        le_bytes(x, 1) == seq![(x % 256) as u8],
        le_bytes(x, 2) == seq![(x % 256) as u8, (x / 256 % 256) as u8],
        le_bytes(x, 4) == seq![
            (x % 256) as u8,
            (x / 256 % 256) as u8,
            (x / 256 / 256 % 256) as u8,
            (x / 256 / 256 / 256 % 256) as u8,
        ],
{
    reveal_with_fuel(le_bytes, 5);
    assert(le_bytes(x, 1) =~= seq![(x % 256) as u8]);
    assert(le_bytes(x, 2) =~= seq![(x % 256) as u8, (x / 256 % 256) as u8]);
    assert(le_bytes(x, 4) =~= seq![
        (x % 256) as u8,
        (x / 256 % 256) as u8,
        (x / 256 / 256 % 256) as u8,
        (x / 256 / 256 / 256 % 256) as u8,
    ]);
}

/// The number behind one, two or four bytes, unfolded.
pub proof fn lemma_le_value(s: Seq<u8>)
    ensures
        s.len() == 1 ==> le_value(s) == s[0],
        s.len() == 2 ==> le_value(s) == s[0] + 256 * s[1],
        s.len() == 4 ==> le_value(s) == s[0] + 256 * s[1] + 65536 * s[2] + 16777216 * s[3],
{
    reveal_with_fuel(le_value, 5);
    if s.len() >= 1 {
        assert(s.skip(1).len() == s.len() - 1);
    }
    if s.len() == 2 {
        assert(s.skip(1)[0] == s[1]);
    }
    if s.len() == 4 {
        let a = s.skip(1);
        let b = a.skip(1);
        let c = b.skip(1);
        assert(a[0] == s[1]);
        assert(b[0] == s[2]);
        assert(c[0] == s[3]);
        assert(c.skip(1).len() == 0);
    }
}

/// Appending a value appends its bytes.
pub proof fn lemma_args_push(vs: Seq<Scalar>, v: Scalar)
    ensures
        args_bytes(vs.push(v)) == args_bytes(vs) + scalar_bytes(v),
        scalar_bytes(v).len() == scalar_width(v),
{
    assert(vs.push(v).drop_last() =~= vs);
    lemma_le_bytes(residue(number_of(v), 0x100));
    lemma_le_bytes(residue(number_of(v), 0x1_0000));
    lemma_le_bytes(residue(number_of(v), 0x1_0000_0000));
}

impl Scalar {
    /// The shape of this value.
    pub fn kind(&self) -> (t: ArgumentType)
        ensures
            t == kind_of(*self),
            width_of(t) == Some(scalar_width(*self)),
    {
        match self {
            Scalar::U8(_) => ArgumentType::U8,
            Scalar::U16(_) => ArgumentType::U16,
            Scalar::U32(_) => ArgumentType::U32,
            Scalar::I8(_) => ArgumentType::I8,
            Scalar::I16(_) => ArgumentType::I16,
            Scalar::I32(_) => ArgumentType::I32,
        }
    }

    /// The number of bytes this value takes.
    pub fn width(&self) -> (w: usize)
        ensures
            w == scalar_width(*self),
            w == scalar_bytes(*self).len(),
            1 <= w <= 4,
    {
        proof {
            lemma_le_bytes(residue(number_of(*self), 0x100));
            lemma_le_bytes(residue(number_of(*self), 0x1_0000));
            lemma_le_bytes(residue(number_of(*self), 0x1_0000_0000));
        }
        match self {
            Scalar::U8(_) | Scalar::I8(_) => 1,
            Scalar::U16(_) | Scalar::I16(_) => 2,
            Scalar::U32(_) | Scalar::I32(_) => 4,
        }
    }

    /// Appends the bytes of this value to `out`.
    pub fn write(&self, out: &mut Vec<u8>)
        ensures
            final(out)@ == old(out)@ + scalar_bytes(*self),
    {
        let u: u32 = match self {
            Scalar::U8(x) => *x as u32,
            Scalar::U16(x) => *x as u32,
            Scalar::U32(x) => *x,
            Scalar::I8(x) => {
                let w: i16 = *x as i16;
                (if w < 0 { w + 0x100 } else { w }) as u32
            },
            Scalar::I16(x) => {
                let w: i32 = *x as i32;
                (if w < 0 { w + 0x1_0000 } else { w }) as u32
            },
            Scalar::I32(x) => {
                let w: i64 = *x as i64;
                (if w < 0 { w + 0x1_0000_0000 } else { w }) as u32
            },
        };
        proof {
            lemma_le_bytes(u as int);
        }
        let n: usize = self.width();
        out.push((u % 256) as u8);
        if n >= 2 {
            out.push((u / 256 % 256) as u8);
        }
        if n == 4 {
            out.push((u / 256 / 256 % 256) as u8);
            out.push((u / 256 / 256 / 256 % 256) as u8);
        }
        assert(out@ =~= old(out)@ + scalar_bytes(*self));
    }

    /// Reads the value of shape `t` that `bytes` holds, if it holds one.
    pub fn read(bytes: &[u8], t: ArgumentType) -> (v: Option<Scalar>)
        ensures
            v == scalar_of_bytes(bytes@, t),
    {
        proof {
            lemma_le_value(bytes@);
        }
        let n: usize = bytes.len();
        match t.width() {
            None => None,
            Some(w) => {
                if w != n {
                    return None;
                }
                let mut u: u32 = bytes[0] as u32;
                if n >= 2 {
                    u = u + 256 * (bytes[1] as u32);
                }
                if n == 4 {
                    u = u + 65536 * (bytes[2] as u32) + 16777216 * (bytes[3] as u32);
                }
                let wide: i64 = u as i64;
                Some(
                    match t {
                        ArgumentType::U8 => Scalar::U8(u as u8),
                        ArgumentType::U16 => Scalar::U16(u as u16),
                        ArgumentType::U32 => Scalar::U32(u),
                        ArgumentType::I8 => Scalar::I8(
                            (if wide >= 0x80 { wide - 0x100 } else { wide }) as i8,
                        ),
                        ArgumentType::I16 => Scalar::I16(
                            (if wide >= 0x8000 { wide - 0x1_0000 } else { wide }) as i16,
                        ),
                        _ => Scalar::I32(
                            (if wide >= 0x8000_0000 { wide - 0x1_0000_0000 } else { wide }) as i32,
                        ),
                    },
                )
            },
        }
    }
}

/// An argument list under construction. Its view is the list of values
/// appended so far.
#[derive(Debug, PartialEq, Eq)]
pub struct Args {
    values: Vec<Scalar>,
    size: usize,
    limit: usize,
}

impl View for Args {
    type V = Seq<Scalar>;

    closed spec fn view(&self) -> Seq<Scalar> {
        self.values@
    }
}

impl Args {
    /// The largest buffer this list may grow to.
    pub closed spec fn limit(&self) -> nat {
        self.limit as nat
    }

    /// The buffer is as long as the list says and within the limit.
    #[verifier::type_invariant]
    closed spec fn wf(&self) -> bool {
        &&& self.size == args_bytes(self.values@).len()
        &&& self.size <= self.limit <= MAX_ARGS_SIZE
    }

    /// An empty list with the default limit.
    pub fn new() -> (a: Args)
        ensures
            a@ == Seq::<Scalar>::empty(),
            a.limit() == DEFAULT_ARGS_LIMIT,
    {
        Args { values: Vec::new(), size: 0, limit: DEFAULT_ARGS_LIMIT }
    }

    /// An empty list that may grow to `limit` bytes; a limit above
    /// `MAX_ARGS_SIZE` is refused.
    pub fn with_limit(limit: usize) -> (r: Result<Args, EncodingError>)
        ensures
            match r {
                Ok(a) => limit <= MAX_ARGS_SIZE && a@ == Seq::<Scalar>::empty()
                    && a.limit() == limit,
                Err(EncodingError::TooLarge) => limit > MAX_ARGS_SIZE,
            },
    {
        if limit > MAX_ARGS_SIZE {
            Err(EncodingError::TooLarge)
        } else {
            Ok(Args { values: Vec::new(), size: 0, limit })
        }
    }

    /// The list with `value` behind what it held, or `TooLarge` where the
    /// buffer would pass the limit.
    pub fn append(self, value: Scalar) -> (r: Result<Args, EncodingError>)
        ensures
            match r {
                Ok(a) => a@ == self@.push(value) && a.limit() == self.limit()
                    && args_bytes(self@).len() + scalar_width(value) <= self.limit(),
                Err(EncodingError::TooLarge) => args_bytes(self@).len() + scalar_width(value)
                    > self.limit(),
            },
    {
        proof {
            use_type_invariant(&self);
        }
        let w: usize = value.width();
        if self.limit - self.size < w {
            return Err(EncodingError::TooLarge);
        }
        let mut values = self.values;
        proof {
            assert(values@.push(value).drop_last() =~= values@);
        }
        values.push(value);
        Ok(Args { values, size: self.size + w, limit: self.limit })
    }

    /// The number of values.
    pub fn len(&self) -> (n: usize)
        ensures
            n == self@.len(),
    {
        self.values.len()
    }

    /// The number of bytes of the buffer.
    pub fn size(&self) -> (n: usize)
        ensures
            n == args_bytes(self@).len(),
            n <= self.limit() <= MAX_ARGS_SIZE,
    {
        proof {
            use_type_invariant(self);
        }
        self.size
    }

    /// The finished buffer: every value at its width, in the order of
    /// appending.
    pub fn to_bytes(&self) -> (out: Vec<u8>)
        ensures
            out@ == args_bytes(self@),
            out@.len() <= self.limit() <= MAX_ARGS_SIZE,
    {
        proof {
            use_type_invariant(self);
        }
        let mut out: Vec<u8> = Vec::new();
        let n: usize = self.values.len();
        let mut i: usize = 0;
        assert(self@.take(0) =~= Seq::empty());
        while i < n
            invariant
                n == self@.len(),
                self@ == self.values@,
                0 <= i <= n,
                out@ == args_bytes(self@.take(i as int)),
            decreases n - i,
        {
            self.values[i].write(&mut out);
            proof {
                let next = self@.take(i + 1);
                assert(next.drop_last() =~= self@.take(i as int));
                assert(next.last() == self@[i as int]);
            }
            i += 1;
        }
        assert(self@.take(n as int) =~= self@);
        out
    }

    /// Reads back from `bytes` the values of the shapes `kinds`, in order.
    /// There are none where a shape is a byte sequence, or where the
    /// widths do not add up to the length of `bytes`.
    pub fn decode(bytes: &[u8], kinds: &[ArgumentType]) -> (r: Option<Vec<Scalar>>)
        ensures
            match r {
                Some(vs) => decode_values(bytes@, 0, kinds@, Seq::empty()) == Some(vs@),
                None => decode_values(bytes@, 0, kinds@, Seq::empty()).is_none(),
            },
    {
        let n: usize = kinds.len();
        let len: usize = bytes.len();
        let mut out: Vec<Scalar> = Vec::new();
        let mut pos: usize = 0;
        let mut i: usize = 0;
        assert(kinds@.skip(0) =~= kinds@);
        while i < n
            invariant
                n == kinds@.len(),
                len == bytes@.len(),
                0 <= i <= n,
                0 <= pos <= len,
                decode_values(bytes@, 0, kinds@, Seq::empty()) == decode_values(
                    bytes@,
                    pos as int,
                    kinds@.skip(i as int),
                    out@,
                ),
            decreases n - i,
        {
            assert(kinds@.skip(i as int)[0] == kinds@[i as int]);
            assert(kinds@.skip(i as int).skip(1) =~= kinds@.skip(i + 1));
            match kinds[i].width() {
                None => {
                    return None;
                },
                Some(w) => {
                    if len - pos < w {
                        return None;
                    }
                    let piece = vstd::slice::slice_subrange(bytes, pos, pos + w);
                    match Scalar::read(piece, kinds[i]) {
                        None => {
                            return None;
                        },
                        Some(v) => {
                            out.push(v);
                        },
                    }
                    pos = pos + w;
                },
            }
            i += 1;
        }
        if pos == len {
            Some(out)
        } else {
            None
        }
    }
}

} // verus!
