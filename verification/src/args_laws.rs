//! What holds between writing an argument list and reading it back.

use vstd::prelude::*;
use crate::args::{
    args_bytes, decode_values, kind_of, le_bytes, le_value, lemma_le_bytes, lemma_le_value,
    number_of, residue, scalar_bytes, scalar_of_bytes, scalar_width, Scalar,
};
use crate::model::{width_of, ArgumentType};

verus! {

/// The shapes of a list of values, in order.
pub open spec fn kinds_of(vs: Seq<Scalar>) -> Seq<ArgumentType> {
    vs.map_values(|v: Scalar| kind_of(v))
}

/// The number behind the low bytes of a residue is that residue.
proof fn lemma_le_round_trip(x: int)
    ensures
        0 <= x < 0x100 ==> le_value(le_bytes(x, 1)) == x,
        0 <= x < 0x1_0000 ==> le_value(le_bytes(x, 2)) == x,
        0 <= x < 0x1_0000_0000 ==> le_value(le_bytes(x, 4)) == x,
{
    lemma_le_bytes(x);
    lemma_le_value(le_bytes(x, 1));
    lemma_le_value(le_bytes(x, 2));
    lemma_le_value(le_bytes(x, 4));
    if 0 <= x < 0x1_0000_0000 {
        let a = x / 256;
        let b = a / 256;
        let c = b / 256;
        assert(x == x % 256 + 256 * a);
        assert(a == a % 256 + 256 * b);
        assert(b == b % 256 + 256 * c);
        assert(0 <= c < 256);
    }
}

/// A value written and read back at its own shape is the same value.
pub proof fn lemma_scalar_round_trip(v: Scalar)
    ensures
        scalar_bytes(v).len() == scalar_width(v),
        width_of(kind_of(v)) == Some(scalar_width(v)),
        scalar_of_bytes(scalar_bytes(v), kind_of(v)) == Some(v),
{
    let x = number_of(v);
    lemma_le_bytes(residue(x, 0x100));
    lemma_le_bytes(residue(x, 0x1_0000));
    lemma_le_bytes(residue(x, 0x1_0000_0000));
    lemma_le_round_trip(residue(x, 0x100));
    lemma_le_round_trip(residue(x, 0x1_0000));
    lemma_le_round_trip(residue(x, 0x1_0000_0000));
}

/// The buffer of a list starts with the bytes of its first value.
proof fn lemma_args_bytes_front(vs: Seq<Scalar>)
    requires
        vs.len() > 0,
    ensures
        args_bytes(vs) == scalar_bytes(vs[0]) + args_bytes(vs.skip(1)),
    decreases vs.len(),
{
    if vs.len() == 1 {
        assert(vs.drop_last() =~= Seq::empty());
        assert(vs.skip(1) =~= Seq::empty());
        assert(args_bytes(vs.drop_last()) =~= Seq::empty());
        assert(args_bytes(vs) =~= scalar_bytes(vs[0]) + args_bytes(vs.skip(1)));
    } else {
        lemma_args_bytes_front(vs.drop_last());
        assert(vs.skip(1).drop_last() =~= vs.drop_last().skip(1));
        assert(vs.skip(1).last() == vs.last());
        assert(args_bytes(vs) =~= scalar_bytes(vs[0]) + args_bytes(vs.skip(1)));
    }
}

/// A buffer that ends with the bytes of `vs` is read back, from where
/// they start, as `vs`.
proof fn lemma_decode_at(s: Seq<u8>, pos: int, vs: Seq<Scalar>, acc: Seq<Scalar>)
    requires
        0 <= pos <= s.len(),
        s.subrange(pos, s.len() as int) == args_bytes(vs),
    ensures
        decode_values(s, pos, kinds_of(vs), acc) == Some(acc + vs),
    decreases vs.len(),
{
    let tail = s.subrange(pos, s.len() as int);
    if vs.len() == 0 {
        assert(tail.len() == 0);
        assert(acc + vs =~= acc);
    } else {
        let v = vs[0];
        let rest = vs.skip(1);
        let w = scalar_width(v) as int;
        lemma_args_bytes_front(vs);
        lemma_scalar_round_trip(v);
        assert(tail.len() == w + args_bytes(rest).len());
        assert(s.subrange(pos, pos + w) =~= scalar_bytes(v)) by {
            assert forall|i: int| 0 <= i < w implies s.subrange(pos, pos + w)[i] == scalar_bytes(
                v,
            )[i] by {
                assert(tail[i] == (scalar_bytes(v) + args_bytes(rest))[i]);
            }
        }
        assert(s.subrange(pos + w, s.len() as int) =~= args_bytes(rest)) by {
            assert forall|i: int| 0 <= i < args_bytes(rest).len() implies s.subrange(
                pos + w,
                s.len() as int,
            )[i] == args_bytes(rest)[i] by {
                assert(tail[w + i] == (scalar_bytes(v) + args_bytes(rest))[w + i]);
            }
        }
        lemma_decode_at(s, pos + w, rest, acc.push(v));
        assert(kinds_of(vs)[0] == kind_of(v));
        assert(kinds_of(vs).skip(1) =~= kinds_of(rest));
        assert(acc.push(v) + rest =~= acc + vs);
    }
}

/// The buffer of an argument list, read back at the shapes of its values,
/// gives the same values in the same order.
pub proof fn lemma_args_round_trip(vs: Seq<Scalar>)
    ensures
        decode_values(args_bytes(vs), 0, kinds_of(vs), Seq::empty()) == Some(vs),
{
    let s = args_bytes(vs);
    assert(s.subrange(0, s.len() as int) =~= s);
    lemma_decode_at(s, 0, vs, Seq::empty());
    assert(Seq::<Scalar>::empty() + vs =~= vs);
}

} // verus!
