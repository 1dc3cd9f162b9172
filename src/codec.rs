//! Canonical binary codec: fixed-width little-endian integers, length-prefixed
//! byte strings and discriminant-prefixed values.
use vstd::prelude::*;

verus! {

/// 256 to the power `n`.
pub open spec fn pow256(n: nat) -> nat
    decreases n,
{
    if n == 0 {
        1
    } else {
        256 * pow256((n - 1) as nat)
    }
}

/// The `n` little-endian bytes of `v`.
pub open spec fn le_bytes(v: nat, n: nat) -> Seq<u8>
    decreases n,
{
    if n == 0 {
        seq![]
    } else {
        seq![(v % 256) as u8] + le_bytes(v / 256, (n - 1) as nat)
    }
}

/// The number that the little-endian bytes `s` stand for.
pub open spec fn le_value(s: Seq<u8>) -> nat
    decreases s.len(),
{
    if s.len() == 0 {
        0
    } else {
        s[0] as nat + 256 * le_value(s.drop_first())
    }
}

pub proof fn lemma_pow256_monotonic(a: nat, b: nat)
    requires
        a <= b,
    ensures
        1 <= pow256(a) <= pow256(b),
    decreases b,
{
    if b > a {
        lemma_pow256_monotonic(a, (b - 1) as nat);
    } else if a > 0 {
        lemma_pow256_monotonic((a - 1) as nat, (a - 1) as nat);
    }
}

pub proof fn lemma_pow256_16()
    ensures
        pow256(16) == 0x1_0000_0000_0000_0000_0000_0000_0000_0000,
        pow256(8) == 0x1_0000_0000_0000_0000,
        pow256(4) == 0x1_0000_0000,
        pow256(1) == 256,
{
    reveal_with_fuel(pow256, 17);
}

/// Decoding the little-endian bytes of a value that fits gives the value back.
pub proof fn lemma_le_round_trip(v: nat, n: nat)
    requires
        v < pow256(n),
    ensures
        le_bytes(v, n).len() == n,
        le_value(le_bytes(v, n)) == v,
    decreases n,
{
    if n > 0 {
        let p = pow256((n - 1) as nat);
        assert(v / 256 < p) by (nonlinear_arith)
            requires
                v < 256 * p,
        ;
        lemma_le_round_trip(v / 256, (n - 1) as nat);
        let s = le_bytes(v, n);
        assert(s.drop_first() =~= le_bytes(v / 256, (n - 1) as nat));
        assert(v == v % 256 + 256 * (v / 256)) by (nonlinear_arith);
    }
}

/// The value of `n` little-endian bytes is below `256^n`.
pub proof fn lemma_le_value_bound(s: Seq<u8>)
    ensures
        le_value(s) < pow256(s.len()),
    decreases s.len(),
{
    if s.len() > 0 {
        lemma_le_value_bound(s.drop_first());
        let p = pow256(s.drop_first().len());
        let x = le_value(s.drop_first());
        let b = s[0] as nat;
        assert(b + 256 * x < 256 * p) by (nonlinear_arith)
            requires
                x < p,
                b < 256,
        ;
    }
}

/// Encoding the value of some bytes gives those bytes back.
pub proof fn lemma_le_bytes_of_value(s: Seq<u8>)
    ensures
        le_bytes(le_value(s), s.len()) == s,
    decreases s.len(),
{
    if s.len() > 0 {
        lemma_le_bytes_of_value(s.drop_first());
        let x = le_value(s.drop_first());
        let v = le_value(s);
        assert(v % 256 == s[0] as nat && v / 256 == x) by (nonlinear_arith)
            requires
                v == s[0] as nat + 256 * x,
                s[0] < 256,
        ;
        assert(le_bytes(v, s.len()) =~= s);
    }
}

/// Appends the `n` little-endian bytes of `v` to `out`.
pub fn write_le(v: u128, n: usize, out: &mut Vec<u8>)
    requires
        n <= 16,
        v < pow256(n as nat),
    ensures
        final(out)@ == old(out)@ + le_bytes(v as nat, n as nat),
{
    let mut x: u128 = v;
    let mut i: usize = 0;
    while i < n
        invariant
            i <= n,
            out@ + le_bytes(x as nat, (n - i) as nat) == old(out)@ + le_bytes(v as nat, n as nat),
        decreases n - i,
    {
        let ghost before = out@;
        out.push((x % 256) as u8);
        assert(le_bytes(x as nat, (n - i) as nat) == seq![(x % 256) as u8] + le_bytes(
            (x / 256) as nat,
            (n - i - 1) as nat,
        ));
        assert(out@ + le_bytes((x / 256) as nat, (n - i - 1) as nat) =~= before + le_bytes(
            x as nat,
            (n - i) as nat,
        ));
        x = x / 256;
        i = i + 1;
    }
    assert(out@ + le_bytes(x as nat, 0) =~= out@);
}

/// Reads `n` little-endian bytes of `b` from `pos`; `None` where fewer remain.
pub fn read_le(b: &[u8], pos: usize, n: usize) -> (r: Option<u128>)
    requires
        n <= 16,
    ensures
        pos + n > b@.len() ==> r is None,
        pos + n <= b@.len() ==> r == Some(le_value(b@.subrange(pos as int, pos + n)) as u128),
{
    if n > b.len() || pos > b.len() - n {
        return None;
    }
    let mut acc: u128 = 0;
    let mut i: usize = n;
    proof {
        lemma_pow256_16();
        assert(b@.subrange(pos + n, pos + n) =~= Seq::<u8>::empty());
    }
    while i > 0
        invariant
            i <= n <= 16,
            pos + n <= b@.len(),
            b@.len() <= usize::MAX,
            acc as nat == le_value(b@.subrange(pos + i, pos + n)),
            pow256(16) == 0x1_0000_0000_0000_0000_0000_0000_0000_0000,
        decreases i,
    {
        let ghost tail = b@.subrange(pos + i, pos + n);
        let ghost longer = b@.subrange(pos + i - 1, pos + n);
        proof {
            lemma_le_value_bound(tail);
            lemma_pow256_monotonic((n - i + 1) as nat, 16);
            assert(longer.drop_first() =~= tail);
            let p = pow256(tail.len());
            let a = acc as nat;
            let byte = b@[pos + i - 1] as nat;
            assert(byte + 256 * a < 256 * p) by (nonlinear_arith)
                requires
                    a < p,
                    byte < 256,
            ;
        }
        acc = (b[pos + (i - 1)] as u128) + 256 * acc;
        i = i - 1;
    }
    Some(acc)
}

/// An account address: sixteen bytes, read as one number.
#[derive(Clone, Copy, Debug, PartialEq, Eq, Hash, PartialOrd, Ord, Structural)]
pub struct AccountAddress(pub u128);

/// The shape a value is encoded under; decoding needs it, the bytes do not carry it.
#[derive(Clone, Copy, Debug, PartialEq, Eq, Structural)]
pub enum Layout {
    Bool,
    U8,
    U64,
    U128,
    Address,
    Bytes,
}

/// A value produced by the interpreter.
#[derive(Clone, Debug, PartialEq, Eq)]
pub enum Value {
    Bool(bool),
    U8(u8),
    U64(u64),
    U128(u128),
    Address(AccountAddress),
    Bytes(Vec<u8>),
}

/// What a `Value` holds, with its byte string as a sequence.
pub ghost enum ValueModel {
    Bool(bool),
    U8(u8),
    U64(u64),
    U128(u128),
    Address(u128),
    Bytes(Seq<u8>),
}

impl View for Value {
    type V = ValueModel;

    open spec fn view(&self) -> ValueModel {
        match self {
            Value::Bool(b) => ValueModel::Bool(*b),
            Value::U8(x) => ValueModel::U8(*x),
            Value::U64(x) => ValueModel::U64(*x),
            Value::U128(x) => ValueModel::U128(*x),
            Value::Address(a) => ValueModel::Address(a.0),
            Value::Bytes(b) => ValueModel::Bytes(b@),
        }
    }
}

/// Largest byte string length the four-byte length prefix can hold.
pub const MAX_BYTES_LEN: usize = 0xffff_ffff;

/// `v` has the shape `l` and can be encoded under it.
pub open spec fn encodable(v: ValueModel, l: Layout) -> bool {
    match (v, l) {
        (ValueModel::Bool(_), Layout::Bool) => true,
        (ValueModel::U8(_), Layout::U8) => true,
        (ValueModel::U64(_), Layout::U64) => true,
        (ValueModel::U128(_), Layout::U128) => true,
        (ValueModel::Address(_), Layout::Address) => true,
        (ValueModel::Bytes(s), Layout::Bytes) => s.len() <= MAX_BYTES_LEN,
        _ => false,
    }
}

/// The canonical bytes of a value.
pub open spec fn encode_spec(v: ValueModel) -> Seq<u8> {
    match v {
        ValueModel::Bool(b) => seq![if b { 1u8 } else { 0u8 }],
        ValueModel::U8(x) => seq![x],
        ValueModel::U64(x) => le_bytes(x as nat, 8),
        ValueModel::U128(x) => le_bytes(x as nat, 16),
        ValueModel::Address(x) => le_bytes(x as nat, 16),
        ValueModel::Bytes(s) => le_bytes(s.len(), 4) + s,
    }
}

/// The value that the whole of `s` encodes under `l`, if any: no byte may be
/// missing or left over.
pub open spec fn decode_spec(s: Seq<u8>, l: Layout) -> Option<ValueModel> {
    match l {
        Layout::Bool => if s.len() == 1 && s[0] <= 1 {
            Some(ValueModel::Bool(s[0] == 1))
        } else {
            None
        },
        Layout::U8 => if s.len() == 1 {
            Some(ValueModel::U8(s[0]))
        } else {
            None
        },
        Layout::U64 => if s.len() == 8 {
            Some(ValueModel::U64(le_value(s) as u64))
        } else {
            None
        },
        Layout::U128 => if s.len() == 16 {
            Some(ValueModel::U128(le_value(s) as u128))
        } else {
            None
        },
        Layout::Address => if s.len() == 16 {
            Some(ValueModel::Address(le_value(s) as u128))
        } else {
            None
        },
        Layout::Bytes => if s.len() >= 4 && le_value(s.take(4)) == s.len() - 4 {
            Some(ValueModel::Bytes(s.skip(4)))
        } else {
            None
        },
    }
}

/// Appends the bytes of `b`, prefixed by their count in four bytes.
pub fn write_bytes(b: &[u8], out: &mut Vec<u8>)
    requires
        b@.len() <= MAX_BYTES_LEN,
    ensures
        final(out)@ == old(out)@ + le_bytes(b@.len(), 4) + b@,
{
    proof {
        lemma_pow256_16();
    }
    write_le(b.len() as u128, 4, out);
    let ghost mid = out@;
    let mut i: usize = 0;
    while i < b.len()
        invariant
            i <= b@.len(),
            out@ == mid + b@.take(i as int),
        decreases b@.len() - i,
    {
        out.push(b[i]);
        assert(b@.take(i + 1) =~= b@.take(i as int).push(b@[i as int]));
        i = i + 1;
    }
    assert(b@.take(b@.len() as int) =~= b@);
}

/// Encodes `v` under `layout`; `None` where the value does not have that shape.
pub fn encode_value(v: &Value, layout: Layout) -> (r: Option<Vec<u8>>)
    ensures
        encodable(v@, layout) <==> r is Some,
        r matches Some(bytes) ==> bytes@ == encode_spec(v@),
{
    let mut out: Vec<u8> = Vec::new();
    proof {
        lemma_pow256_16();
    }
    match (v, layout) {
        (Value::Bool(b), Layout::Bool) => {
            out.push(if *b { 1u8 } else { 0u8 });
        },
        (Value::U8(x), Layout::U8) => {
            out.push(*x);
        },
        (Value::U64(x), Layout::U64) => {
            write_le(*x as u128, 8, &mut out);
        },
        (Value::U128(x), Layout::U128) => {
            write_le(*x, 16, &mut out);
        },
        (Value::Address(a), Layout::Address) => {
            write_le(a.0, 16, &mut out);
        },
        (Value::Bytes(b), Layout::Bytes) => {
            if b.len() > MAX_BYTES_LEN {
                return None;
            }
            write_bytes(b.as_slice(), &mut out);
        },
        _ => {
            return None;
        },
    }
    assert(out@ =~= encode_spec(v@));
    Some(out)
}

/// Decodes the whole of `b` under `layout`.
pub fn decode_value(b: &[u8], layout: Layout) -> (r: Option<Value>)
    ensures
        decode_spec(b@, layout) is None <==> r is None,
        r matches Some(v) ==> decode_spec(b@, layout) == Some(v@),
{
    proof {
        lemma_pow256_16();
    }
    match layout {
        Layout::Bool => {
            if b.len() == 1 && b[0] <= 1 {
                Some(Value::Bool(b[0] == 1))
            } else {
                None
            }
        },
        Layout::U8 => {
            if b.len() == 1 {
                Some(Value::U8(b[0]))
            } else {
                None
            }
        },
        Layout::U64 => {
            if b.len() != 8 {
                return None;
            }
            proof {
                lemma_le_value_bound(b@.subrange(0, 8));
                assert(b@.subrange(0, 8) =~= b@);
            }
            match read_le(b, 0, 8) {
                Some(x) => Some(Value::U64(x as u64)),
                None => None,
            }
        },
        Layout::U128 => {
            if b.len() != 16 {
                return None;
            }
            proof {
                assert(b@.subrange(0, 16) =~= b@);
            }
            match read_le(b, 0, 16) {
                Some(x) => Some(Value::U128(x)),
                None => None,
            }
        },
        Layout::Address => {
            if b.len() != 16 {
                return None;
            }
            proof {
                assert(b@.subrange(0, 16) =~= b@);
            }
            match read_le(b, 0, 16) {
                Some(x) => Some(Value::Address(AccountAddress(x))),
                None => None,
            }
        },
        Layout::Bytes => {
            if b.len() < 4 {
                return None;
            }
            proof {
                assert(b@.subrange(0, 4) =~= b@.take(4));
                lemma_le_value_bound(b@.take(4));
            }
            let n = match read_le(b, 0, 4) {
                Some(x) => x,
                None => { return None; },
            };
            if n != (b.len() - 4) as u128 {
                return None;
            }
            let mut out: Vec<u8> = Vec::new();
            let mut i: usize = 4;
            while i < b.len()
                invariant
                    4 <= i <= b@.len(),
                    out@ == b@.subrange(4, i as int),
                decreases b@.len() - i,
            {
                out.push(b[i]);
                assert(b@.subrange(4, i + 1) =~= b@.subrange(4, i as int).push(b@[i as int]));
                i = i + 1;
            }
            assert(out@ =~= b@.skip(4));
            Some(Value::Bytes(out))
        },
    }
}

/// Encodes `v` under `layout` and decodes the bytes again, giving back a
/// value equal to `v`.
pub fn assert_canonical_encode_decode(v: &Value, layout: Layout) -> (r: Value)
    requires
        encodable(v@, layout),
    ensures
        r@ == v@,
{
    let bytes = encode_value(v, layout).unwrap();
    proof {
        lemma_value_round_trip(v@, layout, 0, seq![0u8]);
    }
    decode_value(bytes.as_slice(), layout).unwrap()
}

/// Decoding the encoding of any encodable value gives it back, while every
/// strict prefix of the encoding, and the encoding followed by any further
/// bytes, is rejected.
pub proof fn lemma_value_round_trip(v: ValueModel, l: Layout, k: int, extra: Seq<u8>)
    requires
        encodable(v, l),
        0 <= k < encode_spec(v).len(),
        extra.len() > 0,
    ensures
        decode_spec(encode_spec(v), l) == Some(v),
        decode_spec(encode_spec(v).take(k), l) is None,
        decode_spec(encode_spec(v) + extra, l) is None,
{
    lemma_pow256_16();
    let e = encode_spec(v);
    match v {
        ValueModel::Bool(b) => {},
        ValueModel::U8(x) => {},
        ValueModel::U64(x) => {
            lemma_le_round_trip(x as nat, 8);
        },
        ValueModel::U128(x) => {
            lemma_le_round_trip(x as nat, 16);
        },
        ValueModel::Address(x) => {
            lemma_le_round_trip(x as nat, 16);
        },
        ValueModel::Bytes(s) => {
            lemma_le_round_trip(s.len(), 4);
            assert(e.take(4) =~= le_bytes(s.len(), 4));
            assert(e.skip(4) =~= s);
            assert(e.take(k).len() >= 4 ==> e.take(k).take(4) =~= le_bytes(s.len(), 4));
            assert((e + extra).take(4) =~= le_bytes(s.len(), 4));
        },
    }
}

} // verus!
