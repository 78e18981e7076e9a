//! The canonical byte encoding of event payloads.
//!
//! Every party that signs or verifies an event has to agree on the bytes that
//! stand for its payload. The encoding is fixed-width and little-endian, with
//! no length prefix, no tag and no padding: an unsigned integer of `w` bytes
//! is written as its `w` base-256 digits, least significant first, and an
//! array of bytes is written as it is.
use vstd::prelude::*;

verus! {

/// 256 to the power `n`.
pub open spec fn pow256(n: nat) -> nat
    decreases n,
{
    if n == 0 {
        1
    } else {
        256 * pow256((n - 1) as nat)
    }
}

/// The `width` lowest base-256 digits of `x`, least significant first.
pub open spec fn le_bytes(x: nat, width: nat) -> Seq<u8>
    decreases width,
{
    if width == 0 {
        Seq::empty()
    } else {
        seq![(x % 256) as u8] + le_bytes(x / 256, (width - 1) as nat)
    }
}

/// The number whose base-256 digits, least significant first, are `bytes`.
pub open spec fn le_value(bytes: Seq<u8>) -> nat
    decreases bytes.len(),
{
    if bytes.len() == 0 {
        0
    } else {
        bytes[0] as nat + 256 * le_value(bytes.drop_first())
    }
}

/// A value that can be carried by an event: it has one canonical encoding,
/// and the encoding can be read back.
pub trait Payload: Sized {
    /// The canonical encoding of the value.
    spec fn encoding(&self) -> Seq<u8>;

    /// The value that `bytes` is the canonical encoding of, if there is one.
    spec fn decoding(bytes: Seq<u8>) -> Option<Self>;

    /// Writes the canonical encoding of the value.
    fn encode(&self) -> (bytes: Vec<u8>)
        ensures
            bytes@ == self.encoding(),
    ;

    /// Reads a value back from its canonical encoding. Any other byte string
    /// is rejected.
    fn decode(bytes: &[u8]) -> (value: Option<Self>)
        ensures
            value == Self::decoding(bytes@),
    ;

    /// Decoding undoes encoding.
    proof fn lemma_decode_encode(&self)
        ensures
            Self::decoding(self.encoding()) == Some(*self),
    ;
}

/// `le_bytes` yields exactly `width` bytes.
pub proof fn lemma_le_bytes_len(x: nat, width: nat)
    ensures
        le_bytes(x, width).len() == width,
    decreases width,
{
    if width > 0 {
        lemma_le_bytes_len(x / 256, (width - 1) as nat);
    }
}

/// A number below `256^width` is read back from its `width` digits.
pub proof fn lemma_le_value_of_le_bytes(x: nat, width: nat)
    requires
        x < pow256(width),
    ensures
        le_value(le_bytes(x, width)) == x,
    decreases width,
{
    if width > 0 {
        let rest = le_bytes(x / 256, (width - 1) as nat);
        lemma_le_value_of_le_bytes(x / 256, (width - 1) as nat);
        assert(le_bytes(x, width).drop_first() =~= rest);
    }
}

/// Digits are written back as they were read: `le_bytes` undoes `le_value`.
pub proof fn lemma_le_bytes_of_le_value(bytes: Seq<u8>)
    ensures
        le_value(bytes) < pow256(bytes.len()),
        le_bytes(le_value(bytes), bytes.len()) == bytes,
    decreases bytes.len(),
{
    if bytes.len() > 0 {
        let tail = bytes.drop_first();
        lemma_le_bytes_of_le_value(tail);
        let v = le_value(bytes);
        assert(v == bytes[0] as nat + 256 * le_value(tail));
        assert(v % 256 == bytes[0] as nat && v / 256 == le_value(tail));
        assert(le_bytes(v, bytes.len()) =~= bytes);
    }
}

/// Writes the `width` lowest base-256 digits of `x`, least significant first.
pub fn encode_le(x: u64, width: usize) -> (bytes: Vec<u8>)
    ensures
        bytes@ == le_bytes(x as nat, width as nat),
{
    let mut bytes: Vec<u8> = Vec::new();
    let mut rest: u64 = x;
    let mut i: usize = 0;
    while i < width
        invariant
            i <= width,
            bytes@ + le_bytes(rest as nat, (width - i) as nat) == le_bytes(x as nat, width as nat),
        decreases width - i,
    {
        let ghost before = bytes@;
        bytes.push((rest % 256) as u8);
        proof {
            let tail = le_bytes((rest / 256) as nat, (width - i - 1) as nat);
            assert(le_bytes(rest as nat, (width - i) as nat) == seq![(rest % 256) as u8] + tail);
            assert(bytes@ + tail =~= before + (seq![(rest % 256) as u8] + tail));
        }
        rest = rest / 256;
        i += 1;
    }
    assert(bytes@ + Seq::<u8>::empty() =~= bytes@);
    bytes
}

/// Reads the number whose base-256 digits, least significant first, are the
/// at most eight bytes given.
pub fn decode_le(bytes: &[u8]) -> (x: u64)
    requires
        bytes@.len() <= 8,
    ensures
        x as nat == le_value(bytes@),
{
    let n = bytes.len();
    let mut x: u64 = 0;
    let mut i: usize = n;
    proof {
        assert(bytes@.subrange(n as int, n as int) =~= Seq::<u8>::empty());
    }
    while i > 0
        invariant
            i <= n,
            n == bytes@.len(),
            n <= 8,
            x as nat == le_value(bytes@.subrange(i as int, n as int)),
        decreases i,
    {
        let ghost suffix = bytes@.subrange(i as int, n as int);
        let ghost longer = bytes@.subrange(i as int - 1, n as int);
        proof {
            lemma_le_bytes_of_le_value(suffix);
            lemma_pow256_monotonic(suffix.len(), 7);
            reveal_with_fuel(pow256, 8);
            assert(longer.drop_first() =~= suffix);
        }
        i -= 1;
        x = x * 256 + bytes[i] as u64;
    }
    assert(bytes@.subrange(0, n as int) =~= bytes@);
    x
}

/// `pow256` grows with its exponent.
pub proof fn lemma_pow256_monotonic(a: nat, b: nat)
    requires
        a <= b,
    ensures
        pow256(a) <= pow256(b),
        pow256(a) >= 1,
    decreases b,
{
    if a < b {
        lemma_pow256_monotonic(a, (b - 1) as nat);
    } else if a > 0 {
        lemma_pow256_monotonic((a - 1) as nat, (b - 1) as nat);
    }
}

/// A byte is its own encoding.
impl Payload for u8 {
    open spec fn encoding(&self) -> Seq<u8> {
        le_bytes(*self as nat, 1)
    }

    open spec fn decoding(bytes: Seq<u8>) -> Option<u8> {
        if bytes.len() == 1 {
            Some(le_value(bytes) as u8)
        } else {
            None
        }
    }

    fn encode(&self) -> (bytes: Vec<u8>) {
        encode_le(*self as u64, 1)
    }

    fn decode(bytes: &[u8]) -> (value: Option<u8>) {
        if bytes.len() == 1 {
            proof {
                lemma_le_bytes_of_le_value(bytes@);
                reveal_with_fuel(pow256, 2);
            }
            Some(decode_le(bytes) as u8)
        } else {
            None
        }
    }

    proof fn lemma_decode_encode(&self) {
        reveal_with_fuel(pow256, 2);
        lemma_le_bytes_len(*self as nat, 1);
        lemma_le_value_of_le_bytes(*self as nat, 1);
    }
}

/// A 64-bit unsigned integer is encoded as eight bytes, least significant
/// first.
impl Payload for u64 {
    open spec fn encoding(&self) -> Seq<u8> {
        le_bytes(*self as nat, 8)
    }

    open spec fn decoding(bytes: Seq<u8>) -> Option<u64> {
        if bytes.len() == 8 {
            Some(le_value(bytes) as u64)
        } else {
            None
        }
    }

    fn encode(&self) -> (bytes: Vec<u8>) {
        encode_le(*self, 8)
    }

    fn decode(bytes: &[u8]) -> (value: Option<u64>) {
        if bytes.len() == 8 {
            Some(decode_le(bytes))
        } else {
            None
        }
    }

    proof fn lemma_decode_encode(&self) {
        reveal_with_fuel(pow256, 9);
        lemma_le_bytes_len(*self as nat, 8);
        lemma_le_value_of_le_bytes(*self as nat, 8);
    }
}

/// An array of bytes is encoded as its bytes, in order.
impl<const N: usize> Payload for [u8; N] {
    open spec fn encoding(&self) -> Seq<u8> {
        self@
    }

    open spec fn decoding(bytes: Seq<u8>) -> Option<[u8; N]> {
        if bytes.len() == N {
            Some(choose|array: [u8; N]| array@ == bytes)
        } else {
            None
        }
    }

    fn encode(&self) -> (bytes: Vec<u8>) {
        let mut bytes: Vec<u8> = Vec::new();
        bytes.extend_from_slice(self);
        assert(bytes@ =~= self@);
        bytes
    }

    fn decode(bytes: &[u8]) -> (value: Option<[u8; N]>) {
        if bytes.len() != N {
            return None;
        }
        let mut array = [0u8; N];
        let mut i: usize = 0;
        while i < N
            invariant
                i <= N,
                bytes@.len() == N,
                forall|j: int| 0 <= j < i ==> array@[j] == bytes@[j],
            decreases N - i,
        {
            array[i] = bytes[i];
            i += 1;
        }
        proof {
            assert(array@ =~= bytes@);
            lemma_same_bytes_same_array(array, choose|other: [u8; N]| other@ == bytes@);
        }
        Some(array)
    }

    proof fn lemma_decode_encode(&self) {
        lemma_same_bytes_same_array(*self, choose|other: [u8; N]| other@ == self@);
    }
}

/// Two arrays that hold the same bytes are the same array.
pub proof fn lemma_same_bytes_same_array<const N: usize>(a: [u8; N], b: [u8; N])
    requires
        a@ == b@,
    ensures
        a == b,
{
    assert forall|i: int| 0 <= i < N implies a[i] == b[i] by {
        assert(a@[i] == b@[i]);
    }
    assert(a =~= b);
}

/// Every payload is read back from its canonical encoding.
pub proof fn lemma_round_trip<T: Payload>(value: T)
    ensures
        T::decoding(value.encoding()) == Some(value),
{
    value.lemma_decode_encode();
}

/// Two payloads with the same canonical encoding are the same payload.
pub proof fn lemma_encoding_injective<T: Payload>(a: T, b: T)
    requires
        a.encoding() == b.encoding(),
    ensures
        a == b,
{
    a.lemma_decode_encode();
    b.lemma_decode_encode();
}

} // verus!
