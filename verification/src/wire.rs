//! How integers lie on the wire: most significant byte first, negative numbers
//! in two's complement.

use vstd::prelude::*;

verus! {

/// The `width` low bytes of `n`, most significant first.
pub open spec fn be_bytes(n: nat, width: nat) -> Seq<u8>
    decreases width,
{
    if width == 0 {
        Seq::empty()
    } else {
        be_bytes(n / 256, (width - 1) as nat).push((n % 256) as u8)
    }
}

/// `be_bytes` gives as many bytes as it is asked for.
pub proof fn lemma_be_bytes_len(n: nat, width: nat)
    ensures
        be_bytes(n, width).len() == width,
    decreases width,
{
    if width > 0 {
        lemma_be_bytes_len(n / 256, (width - 1) as nat);
    }
}

/// The four bytes of the number 4.
pub proof fn lemma_be_i32_of_4()
    ensures
        be_i32(4i32) == seq![0u8, 0u8, 0u8, 4u8],
{
    reveal_with_fuel(be_bytes, 5);
    assert(be_bytes(4, 4) =~= seq![0u8, 0u8, 0u8, 4u8]);
}

/// The number that bytes denote, most significant first.
pub open spec fn be_value(bytes: Seq<u8>) -> nat
    decreases bytes.len(),
{
    if bytes.len() == 0 {
        0
    } else {
        be_value(bytes.drop_last()) * 256 + bytes.last() as nat
    }
}

pub open spec fn be_i8(v: i8) -> Seq<u8> {
    be_bytes((if v < 0 { v + 0x100 } else { v as int }) as nat, 1)
}

pub open spec fn be_i16(v: i16) -> Seq<u8> {
    be_bytes((if v < 0 { v + 0x1_0000 } else { v as int }) as nat, 2)
}

pub open spec fn be_i32(v: i32) -> Seq<u8> {
    be_bytes((if v < 0 { v + 0x1_0000_0000 } else { v as int }) as nat, 4)
}

pub open spec fn be_i64(v: i64) -> Seq<u8> {
    be_bytes((if v < 0 { v + 0x1_0000_0000_0000_0000 } else { v as int }) as nat, 8)
}

pub open spec fn be_u32(v: u32) -> Seq<u8> {
    be_bytes(v as nat, 4)
}

/// The signed number that one byte denotes.
pub open spec fn i8_of(bytes: Seq<u8>) -> i8 {
    let n = be_value(bytes);
    if n >= 0x80 {
        (n - 0x100) as i8
    } else {
        n as i8
    }
}

/// The signed number that two bytes denote.
pub open spec fn i16_of(bytes: Seq<u8>) -> i16 {
    let n = be_value(bytes);
    if n >= 0x8000 {
        (n - 0x1_0000) as i16
    } else {
        n as i16
    }
}

/// The signed number that four bytes denote.
pub open spec fn i32_of(bytes: Seq<u8>) -> i32 {
    let n = be_value(bytes);
    if n >= 0x8000_0000 {
        (n - 0x1_0000_0000) as i32
    } else {
        n as i32
    }
}

/// The signed number that eight bytes denote.
pub open spec fn i64_of(bytes: Seq<u8>) -> i64 {
    let n = be_value(bytes);
    if n >= 0x8000_0000_0000_0000 {
        (n - 0x1_0000_0000_0000_0000) as i64
    } else {
        n as i64
    }
}

/// Whether no byte of `bytes` is zero, so that they can be sent as a string
/// that a zero byte ends.
pub open spec fn no_nul(bytes: Seq<u8>) -> bool {
    forall|i: int| 0 <= i < bytes.len() ==> #[trigger] bytes[i] != 0
}

/// A string on the wire: its bytes, then a zero byte.
pub open spec fn cstr(bytes: Seq<u8>) -> Seq<u8> {
    bytes.push(0u8)
}

/// A message body behind its length, which counts its own four bytes.
pub open spec fn sized(body: Seq<u8>) -> Seq<u8> {
    be_i32((body.len() + 4) as i32) + body
}

/// A message: its tag, then the body behind its length.
pub open spec fn frame(tag: u8, body: Seq<u8>) -> Seq<u8> {
    seq![tag] + sized(body)
}

/// Whether a body is short enough for its length to be sent.
pub open spec fn fits(body: Seq<u8>) -> bool {
    body.len() + 4 <= i32::MAX
}

/// Four bytes read back as the number they were written for.
pub proof fn lemma_i32_round_trip(v: i32)
    ensures
        be_i32(v).len() == 4,
        i32_of(be_i32(v)) == v,
{
    let n: nat = (if v < 0 {
        v + 0x1_0000_0000
    } else {
        v as int
    }) as nat;
    let b0 = (n % 256) as u8;
    let b1 = ((n / 256) % 256) as u8;
    let b2 = ((n / 256 / 256) % 256) as u8;
    let b3 = ((n / 256 / 256 / 256) % 256) as u8;
    reveal_with_fuel(be_bytes, 5);
    reveal_with_fuel(be_value, 5);
    let bytes = be_bytes(n, 4);
    assert(bytes =~= seq![b3, b2, b1, b0]);
    assert(bytes.drop_last() =~= seq![b3, b2, b1]);
    assert(bytes.drop_last().drop_last() =~= seq![b3, b2]);
    assert(bytes.drop_last().drop_last().drop_last() =~= seq![b3]);
    assert(bytes.drop_last().drop_last().drop_last().drop_last() =~= Seq::<u8>::empty());
    assert(be_value(bytes) == ((b3 as nat * 256 + b2 as nat) * 256 + b1 as nat) * 256 + b0 as nat);
    assert(be_value(bytes) == n);
}

} // verus!
