//! The MessagePack values that the peer protocol writes and reads: unsigned
//! bytes, binary blobs and strings, with the exact bytes of each encoding.
use std::io::Cursor;
use vstd::prelude::*;
use vstd::string::*;
use vstd::utf8::*;

verus! {

/// The natural number that `b` denotes in big-endian order.
pub open spec fn be_value(b: Seq<u8>) -> nat
    decreases b.len(),
{
    if b.len() == 0 {
        0
    } else {
        be_value(b.drop_last()) * 256 + b.last() as nat
    }
}

/// The `w` bytes that denote `n` modulo `256^w` in big-endian order.
pub open spec fn be_bytes(n: nat, w: nat) -> Seq<u8>
    decreases w,
{
    if w == 0 {
        seq![]
    } else {
        be_bytes(n / 256, (w - 1) as nat).push((n % 256) as u8)
    }
}

/// `256^w`.
pub open spec fn byte_power(w: nat) -> nat
    decreases w,
{
    if w == 0 {
        1
    } else {
        256 * byte_power((w - 1) as nat)
    }
}

/// The encoding of an unsigned byte as a MessagePack `uint 8`.
pub open spec fn msgpack_u8(v: u8) -> Seq<u8> {
    seq![0xccu8, v]
}

/// The header of a MessagePack `bin` of `len` bytes: the smallest of
/// `bin 8`, `bin 16` and `bin 32` that holds the length.
pub open spec fn bin_header(len: nat) -> Seq<u8> {
    if len < 256 {
        seq![0xc4u8, len as u8]
    } else if len < 0x1_0000 {
        seq![0xc5u8] + be_bytes(len, 2)
    } else {
        seq![0xc6u8] + be_bytes(len, 4)
    }
}

/// The encoding of `data` as a MessagePack `bin`. The header holds the
/// length modulo `2^32`: `rmp` writes it as a `u32`.
pub open spec fn msgpack_bin(data: Seq<u8>) -> Seq<u8> {
    bin_header(data.len() % 0x1_0000_0000) + data
}

/// The header of a MessagePack `str` whose UTF-8 form has `len` bytes: the
/// smallest of `fixstr`, `str 8`, `str 16` and `str 32` that holds the length.
pub open spec fn str_header(len: nat) -> Seq<u8> {
    if len < 32 {
        seq![(0xa0 + len) as u8]
    } else if len < 256 {
        seq![0xd9u8, len as u8]
    } else if len < 0x1_0000 {
        seq![0xdau8] + be_bytes(len, 2)
    } else {
        seq![0xdbu8] + be_bytes(len, 4)
    }
}

/// The encoding of the text `s` as a MessagePack `str`. The header holds the
/// length of the UTF-8 form modulo `2^32`: `rmp` writes it as a `u32`.
pub open spec fn msgpack_str(s: Seq<char>) -> Seq<u8> {
    str_header(encode_utf8(s).len() % 0x1_0000_0000) + encode_utf8(s)
}

/// The integer that a MessagePack integer at the start of `input` denotes,
/// with the number of bytes it takes, where it is one that fits in a `u8`;
/// `None` where `input` starts with no integer or with one out of that range.
pub open spec fn msgpack_uint8(input: Seq<u8>) -> Option<(u8, nat)> {
    if input.len() == 0 {
        None
    } else {
        let m = input[0];
        if m < 0x80 {
            Some((m, 1))
        } else {
            // width of the payload, and whether it is two's complement
            let (w, signed): (nat, bool) = if m == 0xcc {
                (1, false)
            } else if m == 0xcd {
                (2, false)
            } else if m == 0xce {
                (4, false)
            } else if m == 0xcf {
                (8, false)
            } else if m == 0xd0 {
                (1, true)
            } else if m == 0xd1 {
                (2, true)
            } else if m == 0xd2 {
                (4, true)
            } else if m == 0xd3 {
                (8, true)
            } else {
                (0, false)
            };
            if w == 0 || input.len() < 1 + w {
                None
            } else if signed && input[1] >= 0x80 {
                None
            } else {
                let v = be_value(input.subrange(1, 1 + w as int));
                if v < 256 {
                    Some((v as u8, 1 + w))
                } else {
                    None
                }
            }
        }
    }
}

/// A decoded MessagePack value as far as the protocol reads it: the bytes of a
/// `bin`, the bytes of a `str`, or any other value.
pub enum MsgValue {
    Binary(Vec<u8>),
    String(Vec<u8>),
    Other,
}

/// The mathematical form of a [`MsgValue`].
pub enum MsgValueView {
    Binary(Seq<u8>),
    String(Seq<u8>),
    Other,
}

impl View for MsgValue {
    type V = MsgValueView;

    open spec fn view(&self) -> MsgValueView {
        match self {
            MsgValue::Binary(b) => MsgValueView::Binary(b@),
            MsgValue::String(s) => MsgValueView::String(s@),
            MsgValue::Other => MsgValueView::Other,
        }
    }
}

/// The header of a `bin` or `str` at the start of `input`: whether it is a
/// `str`, how many bytes the header takes, and how many bytes follow it.
pub open spec fn bytes_header(input: Seq<u8>) -> Option<(bool, nat, nat)> {
    if input.len() == 0 {
        None
    } else {
        let m = input[0];
        if 0xa0 <= m && m <= 0xbf {
            Some((true, 1, (m - 0xa0) as nat))
        } else if (m == 0xc4 || m == 0xd9) && input.len() >= 2 {
            Some((m == 0xd9, 2, input[1] as nat))
        } else if (m == 0xc5 || m == 0xda) && input.len() >= 3 {
            Some((m == 0xda, 3, be_value(input.subrange(1, 3))))
        } else if (m == 0xc6 || m == 0xdb) && input.len() >= 5 {
            Some((m == 0xdb, 5, be_value(input.subrange(1, 5))))
        } else {
            None
        }
    }
}

/// The `bin` or `str` at the start of `input`, with the number of bytes it
/// takes; `None` where `input` does not start with a complete one.
pub open spec fn msgpack_bytes_value(input: Seq<u8>) -> Option<(MsgValueView, nat)> {
    match bytes_header(input) {
        Some((is_str, h, n)) => {
            if input.len() >= h + n {
                let payload = input.subrange(h as int, (h + n) as int);
                Some(
                    (
                        if is_str {
                            MsgValueView::String(payload)
                        } else {
                            MsgValueView::Binary(payload)
                        },
                        h + n,
                    ),
                )
            } else {
                None
            }
        },
        None => None,
    }
}

/// The bytes of the `bin` or `str` at the start of `input`, as
/// `rmpv::Value::as_slice` gives them after `rmpv::decode::read_value`, with
/// the number of bytes the value takes; `None` where `input` starts with no
/// complete `bin` or `str`.
pub open spec fn bytes_field(input: Seq<u8>) -> Option<(Seq<u8>, nat)> {
    match msgpack_bytes_value(input) {
        Some((MsgValueView::Binary(b), n)) => Some((b, n)),
        Some((MsgValueView::String(b), n)) => Some((b, n)),
        _ => None,
    }
}

/// What `rmpv::decode::read_value` gives for a value at the start of `input`,
/// with the number of bytes it reads; `None` where it fails.
pub uninterp spec fn spec_read_value(input: Seq<u8>) -> Option<(MsgValueView, nat)>;

/// `be_bytes` gives `w` bytes.
pub proof fn lemma_be_bytes_len(n: nat, w: nat)
    ensures
        be_bytes(n, w).len() == w,
    decreases w,
{
    if w > 0 {
        lemma_be_bytes_len(n / 256, (w - 1) as nat);
    }
}

/// The powers of 256 that the headers use.
pub proof fn lemma_byte_powers()
    ensures
        byte_power(2) == 0x1_0000,
        byte_power(4) == 0x1_0000_0000,
{
    assert(byte_power(0) == 1);
    assert(byte_power(1) == 256);
    assert(byte_power(2) == 0x1_0000);
    assert(byte_power(3) == 0x100_0000);
    assert(byte_power(4) == 0x1_0000_0000);
}

/// Reading back the `w` big-endian bytes of a number below `256^w` gives the number.
pub proof fn lemma_be_value_of_be_bytes(n: nat, w: nat)
    requires
        n < byte_power(w),
    ensures
        be_value(be_bytes(n, w)) == n,
    decreases w,
{
    if w > 0 {
        let p = byte_power((w - 1) as nat);
        assert(n / 256 < p) by (nonlinear_arith)
            requires
                n < 256 * p,
        ;
        lemma_be_value_of_be_bytes(n / 256, (w - 1) as nat);
        let b = be_bytes(n / 256, (w - 1) as nat).push((n % 256) as u8);
        assert(b.drop_last() =~= be_bytes(n / 256, (w - 1) as nat));
        assert((n / 256) * 256 + n % 256 == n) by (nonlinear_arith);
    }
}

/// A `uint 8` written by [`write_u8`] reads back, whatever follows it, as
/// the same byte in two bytes.
pub proof fn lemma_read_written_u8(v: u8, rest: Seq<u8>)
    ensures
        msgpack_uint8(msgpack_u8(v) + rest) == Some((v, 2nat)),
{
    let input = msgpack_u8(v) + rest;
    assert(input.subrange(1, 2) =~= seq![v]);
    assert(seq![v].drop_last() =~= Seq::<u8>::empty());
    assert(be_value(Seq::<u8>::empty()) == 0);
    assert(seq![v].last() == v);
    assert(be_value(seq![v]) == v as nat);
    assert(input[0] == 0xcc);
    assert(input.len() >= 2);
}

/// A `bin` written by [`write_bin`] reads back, whatever follows it, as the
/// same bytes, taking exactly the bytes that were written.
pub proof fn lemma_read_written_bin(data: Seq<u8>, rest: Seq<u8>)
    requires
        data.len() <= u32::MAX,
    ensures
        msgpack_bytes_value(msgpack_bin(data) + rest) == Some(
            (MsgValueView::Binary(data), msgpack_bin(data).len()),
        ),
{
    let n = data.len();
    let input = msgpack_bin(data) + rest;
    assert(n % 0x1_0000_0000 == n);
    if n < 256 {
        assert(input[1] == n as u8);
        assert(input.subrange(2, 2 + n as int) =~= data);
    } else if n < 0x1_0000 {
        lemma_be_bytes_len(n, 2);
        lemma_byte_powers();
        lemma_be_value_of_be_bytes(n, 2);
        assert(input.subrange(1, 3) =~= be_bytes(n, 2));
        assert(input.subrange(3, 3 + n as int) =~= data);
    } else {
        lemma_be_bytes_len(n, 4);
        lemma_byte_powers();
        lemma_be_value_of_be_bytes(n, 4);
        assert(input.subrange(1, 5) =~= be_bytes(n, 4));
        assert(input.subrange(5, 5 + n as int) =~= data);
    }
}

/// A `str` written by [`write_str`] reads back, whatever follows it, as the
/// UTF-8 form of the text, taking exactly the bytes that were written.
pub proof fn lemma_read_written_str(s: Seq<char>, rest: Seq<u8>)
    requires
        encode_utf8(s).len() <= u32::MAX,
    ensures
        msgpack_bytes_value(msgpack_str(s) + rest) == Some(
            (MsgValueView::String(encode_utf8(s)), msgpack_str(s).len()),
        ),
{
    let data = encode_utf8(s);
    let n = data.len();
    let input = msgpack_str(s) + rest;
    assert(n % 0x1_0000_0000 == n);
    if n < 32 {
        assert(input[0] == (0xa0 + n) as u8);
        assert(input.subrange(1, 1 + n as int) =~= data);
    } else if n < 256 {
        assert(input[1] == n as u8);
        assert(input.subrange(2, 2 + n as int) =~= data);
    } else if n < 0x1_0000 {
        lemma_be_bytes_len(n, 2);
        lemma_byte_powers();
        lemma_be_value_of_be_bytes(n, 2);
        assert(input.subrange(1, 3) =~= be_bytes(n, 2));
        assert(input.subrange(3, 3 + n as int) =~= data);
    } else {
        lemma_be_bytes_len(n, 4);
        lemma_byte_powers();
        lemma_be_value_of_be_bytes(n, 4);
        assert(input.subrange(1, 5) =~= be_bytes(n, 4));
        assert(input.subrange(5, 5 + n as int) =~= data);
    }
}

impl MsgValue {
    /// The bytes of a `bin` or of a `str`, as `rmpv::Value::as_slice` gives
    /// them; `None` for any other value.
    pub fn as_slice(&self) -> (res: Option<&[u8]>)
        ensures
            res matches Some(s) ==> (self@ == MsgValueView::Binary(s@) || self@
                == MsgValueView::String(s@)),
            res is None <==> self@ is Other,
    {
        match self {
            MsgValue::Binary(b) => Some(b.as_slice()),
            MsgValue::String(s) => Some(s.as_slice()),
            MsgValue::Other => None,
        }
    }
}

/// Appends `v` as a MessagePack `uint 8` with `rmp::encode::write_u8`, which
/// always writes the marker `0xcc` and the byte; writing to a `Vec` does not
/// fail, since it only appends.
#[verifier::external_body]
pub(crate) fn write_u8(buf: &mut Vec<u8>, v: u8)
    ensures
        final(buf)@ == old(buf)@ + msgpack_u8(v),
{
    let _ = rmp::encode::write_u8(buf, v);
}

/// Appends `data` as a MessagePack `bin` with `rmp::encode::write_bin`, which
/// writes the smallest `bin` header that holds the length (taken as a `u32`),
/// then the bytes.
#[verifier::external_body]
pub(crate) fn write_bin(buf: &mut Vec<u8>, data: &[u8])
    ensures
        final(buf)@ == old(buf)@ + msgpack_bin(data@),
{
    let _ = rmp::encode::write_bin(buf, data);
}

/// Appends the text `s` as a MessagePack `str` with `rmp::encode::write_str`,
/// which writes the smallest `str` header that holds the length of its UTF-8
/// form (taken as a `u32`), then that form.
#[verifier::external_body]
pub(crate) fn write_str(buf: &mut Vec<u8>, s: &str)
    ensures
        final(buf)@ == old(buf)@ + msgpack_str(s@),
{
    let _ = rmp::encode::write_str(buf, s);
}

/// Reads a MessagePack integer that fits in a `u8` from the start of `input`
/// with `rmp::decode::read_int`, giving it and the number of bytes it took;
/// `None` where that call fails (no integer, a short input, or a value out of
/// the range of `u8`).
#[verifier::external_body]
pub(crate) fn read_u8_int(input: &[u8]) -> (res: Option<(u8, usize)>)
    ensures
        match res {
            Some((v, n)) => msgpack_uint8(input@) == Some((v, n as nat)),
            None => msgpack_uint8(input@) is None,
        },
{
    let mut cur = Cursor::new(input);
    match rmp::decode::read_int::<u8, _>(&mut cur) {
        Ok(v) => Some((v, cur.position() as usize)),
        Err(_) => None,
    }
}

/// Reads one MessagePack value from the start of `input` with
/// `rmpv::decode::read_value`, giving it and the number of bytes it took;
/// `None` where that call fails. A `bin` and a `str` are read as the header
/// announces; of any other value only its kind is kept.
#[verifier::external_body]
pub(crate) fn read_value(input: &[u8]) -> (res: Option<(MsgValue, usize)>)
    ensures
        match res {
            Some((v, n)) => spec_read_value(input@) == Some((v@, n as nat)),
            None => spec_read_value(input@) is None,
        },
        res matches Some((_, n)) ==> 0 < n <= input@.len(),
        res matches Some((v, n)) ==> (v is Other || msgpack_bytes_value(input@) == Some((v@, n as nat))),
        msgpack_bytes_value(input@) is Some ==> res is Some,
        res matches Some((v, n)) ==> (msgpack_bytes_value(input@) is Some ==> msgpack_bytes_value(input@) == Some((v@, n as nat))),
{
    let mut cur = Cursor::new(input);
    match rmpv::decode::read_value(&mut cur) {
        Ok(rmpv::Value::Binary(b)) => Some((MsgValue::Binary(b), cur.position() as usize)),
        Ok(rmpv::Value::String(s)) => Some((MsgValue::String(s.into_bytes()), cur.position() as usize)),
        Ok(_) => Some((MsgValue::Other, cur.position() as usize)),
        Err(_) => None,
    }
}

/// Reads the bytes of the `bin` or `str` at the start of `input`, with the
/// number of bytes the value takes; `None` where `input` starts with anything
/// else or cannot be read.
pub fn read_bytes_field(input: &[u8]) -> (res: Option<(Vec<u8>, usize)>)
    ensures
        match res {
            Some((b, n)) => bytes_field(input@) == Some((b@, n as nat)),
            None => bytes_field(input@) is None,
        },
        res matches Some((_, n)) ==> n <= input@.len(),
{
    match read_value(input) {
        Some((v, n)) => match v.as_slice() {
            Some(s) => Some((vstd::slice::slice_to_vec(s), n)),
            None => None,
        },
        None => None,
    }
}

} // verus!
