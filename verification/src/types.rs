//! Blockchain value types: an account address and a transaction hash,
//! held as their raw bytes, with the `0x`-prefixed lowercase hex
//! rendering they are serialized under.

use vstd::prelude::*;

verus! {

/// The ASCII code of the lowercase hex digit of `n`, for `n` below 16.
pub open spec fn hex_digit_ascii(n: u8) -> u8 {
    if n < 10 {
        (48 + n) as u8
    } else {
        (87 + n) as u8
    }
}

/// The ASCII codes of the lowercase hex rendering of `bytes`, two digits
/// per byte, high nibble first.
pub open spec fn hex_ascii(bytes: Seq<u8>) -> Seq<u8>
    decreases bytes.len(),
{
    if bytes.len() == 0 {
        Seq::empty()
    } else {
        hex_ascii(bytes.drop_last()) + seq![
            hex_digit_ascii(bytes.last() / 16),
            hex_digit_ascii(bytes.last() % 16),
        ]
    }
}

/// The ASCII codes of the `0x`-prefixed lowercase hex rendering.
pub open spec fn hex_rendering(bytes: Seq<u8>) -> Seq<u8> {
    seq![48u8, 120u8] + hex_ascii(bytes)
}

/// Relies on String::from_utf8: bytes below 128 are one ASCII character
/// each, in order.
#[verifier::external_body]
fn string_from_ascii(bytes: Vec<u8>) -> (r: String)
    requires
        forall|i: int| 0 <= i < bytes@.len() ==> bytes@[i] < 128,
    ensures
        r@.len() == bytes@.len(),
        forall|i: int| 0 <= i < bytes@.len() ==> r@[i] as u32 == bytes@[i],
{
    String::from_utf8(bytes).expect("ASCII bytes are valid UTF-8")
}

proof fn lemma_hex_ascii_len(bytes: Seq<u8>)
    ensures
        hex_ascii(bytes).len() == 2 * bytes.len(),
        forall|i: int| 0 <= i < hex_ascii(bytes).len() ==> #[trigger] hex_ascii(bytes)[i] < 128,
    decreases bytes.len(),
{
    if bytes.len() > 0 {
        lemma_hex_ascii_len(bytes.drop_last());
    }
}

/// The `0x`-prefixed lowercase hex text of `bytes`.
pub fn render_hex(bytes: &Vec<u8>) -> (r: String)
    ensures
        r@.len() == hex_rendering(bytes@).len(),
        forall|i: int|
            0 <= i < r@.len() ==> #[trigger] r@[i] as u32 == hex_rendering(bytes@)[i],
{
    let mut ascii: Vec<u8> = Vec::new();
    ascii.push(48);
    ascii.push(120);
    let mut i: usize = 0;
    proof {
        assert(bytes@.subrange(0, 0) =~= Seq::<u8>::empty());
        assert(ascii@ =~= seq![48u8, 120u8] + hex_ascii(bytes@.subrange(0, 0)));
    }
    while i < bytes.len()
        invariant
            0 <= i <= bytes@.len(),
            ascii@ == seq![48u8, 120u8] + hex_ascii(bytes@.subrange(0, i as int)),
        decreases bytes@.len() - i,
    {
        let b = bytes[i];
        let hi = b / 16;
        let lo = b % 16;
        let hi_digit: u8 = if hi < 10 {
            48 + hi
        } else {
            87 + hi
        };
        let lo_digit: u8 = if lo < 10 {
            48 + lo
        } else {
            87 + lo
        };
        ascii.push(hi_digit);
        ascii.push(lo_digit);
        proof {
            let pre = bytes@.subrange(0, i as int);
            let cur = bytes@.subrange(0, i as int + 1);
            assert(cur.drop_last() =~= pre);
            assert(cur.last() == bytes@[i as int]);
            assert(ascii@ =~= seq![48u8, 120u8] + (hex_ascii(pre) + seq![
                hex_digit_ascii(bytes@[i as int] / 16),
                hex_digit_ascii(bytes@[i as int] % 16),
            ]));
        }
        i = i + 1;
    }
    proof {
        assert(bytes@.subrange(0, bytes@.len() as int) =~= bytes@);
        lemma_hex_ascii_len(bytes@);
        assert(forall|j: int|
            0 <= j < ascii@.len() ==> #[trigger] ascii@[j] < 128);
    }
    string_from_ascii(ascii)
}

/// A blockchain account address: its twenty raw bytes.
#[derive(Clone, PartialEq, Eq, Debug)]
pub struct BlockchainAddress {
    pub bytes: Vec<u8>,
}

impl BlockchainAddress {
    pub open spec fn wf(self) -> bool {
        self.bytes@.len() == 20
    }

    /// An address is exactly twenty bytes; anything else is refused.
    pub fn from_bytes(bytes: Vec<u8>) -> (r: Option<BlockchainAddress>)
        ensures
            (match r {
                Some(a) => bytes@.len() == 20 && a.bytes@ == bytes@ && a.wf(),
                None => bytes@.len() != 20,
            }),
    {
        if bytes.len() == 20 {
            Some(BlockchainAddress { bytes })
        } else {
            None
        }
    }

    /// The `0x`-prefixed lowercase hex text the address is serialized
    /// under.
    pub fn to_hex_string(&self) -> (r: String)
        ensures
            r@.len() == hex_rendering(self.bytes@).len(),
            forall|i: int|
                0 <= i < r@.len() ==> #[trigger] r@[i] as u32 == hex_rendering(self.bytes@)[i],
    {
        render_hex(&self.bytes)
    }
}

/// A blockchain transaction hash: its thirty-two raw bytes.
#[derive(Clone, PartialEq, Eq, Debug)]
pub struct BlockchainTransactionHash {
    pub bytes: Vec<u8>,
}

impl BlockchainTransactionHash {
    pub open spec fn wf(self) -> bool {
        self.bytes@.len() == 32
    }

    /// A transaction hash is exactly thirty-two bytes; anything else is
    /// refused.
    pub fn from_bytes(bytes: Vec<u8>) -> (r: Option<BlockchainTransactionHash>)
        ensures
            (match r {
                Some(h) => bytes@.len() == 32 && h.bytes@ == bytes@ && h.wf(),
                None => bytes@.len() != 32,
            }),
    {
        if bytes.len() == 32 {
            Some(BlockchainTransactionHash { bytes })
        } else {
            None
        }
    }

    /// The `0x`-prefixed lowercase hex text the hash is serialized under.
    pub fn to_hex_string(&self) -> (r: String)
        ensures
            r@.len() == hex_rendering(self.bytes@).len(),
            forall|i: int|
                0 <= i < r@.len() ==> #[trigger] r@[i] as u32 == hex_rendering(self.bytes@)[i],
    {
        render_hex(&self.bytes)
    }
}

} // verus!
