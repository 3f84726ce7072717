//! Content hashing: the interface the pipeline asks for, and the Fx hash.

use vstd::prelude::*;

verus! {

/// A fast, non-cryptographic 64-bit hash of a text.
///
/// The pipeline uses it twice: the hash of a source's origin names its cache
/// entry, the hash of its contents signs the entry. Both uses need the same
/// text to hash to the same value every time, and that is all they need.
pub trait ContentHasher {
    /// The function that this hasher computes.
    spec fn digest(&self, content: Seq<char>) -> u64;

    /// Hashes `content`.
    fn hash(&self, content: &str) -> (value: u64)
        ensures
            value == self.digest(content@),
    ;
}

/// The multiplier of the Fx hash on 64-bit words.
pub const FX_SEED: u64 = 0x517c_c1b7_2722_0a95;

/// One round of the Fx hash: rotate by five bits, mix the word in, multiply.
pub open spec fn fx_round(hash: u64, word: u64) -> u64 {
    (((hash << 5) | (hash >> 59)) ^ word).wrapping_mul(FX_SEED)
}

/// The first `width` bytes of `bytes` read as a little-endian number.
pub open spec fn le_word(bytes: Seq<u8>, width: nat) -> u64
    decreases width,
{
    if width == 0 {
        0
    } else {
        (bytes[0] as u64) | (le_word(bytes.skip(1), (width - 1) as nat) << 8)
    }
}

/// The Fx hash of `bytes`, continued from `hash`: eight bytes a round while
/// eight are left, then four, two and one.
pub open spec fn fx_fold(hash: u64, bytes: Seq<u8>) -> u64
    decreases bytes.len(),
{
    if bytes.len() >= 8 {
        fx_fold(fx_round(hash, le_word(bytes, 8)), bytes.skip(8))
    } else if bytes.len() >= 4 {
        fx_fold(fx_round(hash, le_word(bytes, 4)), bytes.skip(4))
    } else if bytes.len() >= 2 {
        fx_fold(fx_round(hash, le_word(bytes, 2)), bytes.skip(2))
    } else if bytes.len() >= 1 {
        fx_round(hash, bytes[0] as u64)
    } else {
        hash
    }
}

/// The Fx hash of a byte string.
pub open spec fn fx_hash(bytes: Seq<u8>) -> u64 {
    fx_fold(0, bytes)
}

fn round(hash: u64, word: u64) -> (next: u64)
    ensures
        next == fx_round(hash, word),
{
    (((hash << 5) | (hash >> 59)) ^ word).wrapping_mul(FX_SEED)
}

/// Reads `width` bytes at `at` as a little-endian number.
fn read_word(bytes: &[u8], at: usize, width: usize) -> (word: u64)
    requires
        at + width <= bytes@.len(),
    ensures
        word == le_word(bytes@.skip(at as int), width as nat),
{
    let n = bytes.len();
    let mut word: u64 = 0;
    let mut left: usize = width;
    while left > 0
        invariant
            left <= width,
            n == bytes@.len(),
            at + width <= n,
            word == le_word(bytes@.skip(at + left), (width - left) as nat),
        decreases left,
    {
        left -= 1;
        proof {
            let rest = bytes@.skip(at + left);
            assert(rest.skip(1) =~= bytes@.skip(at + left + 1));
            assert(rest[0] == bytes@[at + left]);
        }
        word = (bytes[at + left] as u64) | (word << 8);
    }
    word
}

/// Computes the Fx hash of `bytes`.
pub fn fx_hash_bytes(bytes: &[u8]) -> (hash: u64)
    ensures
        hash == fx_hash(bytes@),
{
    let n = bytes.len();
    let mut hash: u64 = 0;
    let mut at: usize = 0;
    assert(bytes@.skip(0) =~= bytes@);
    while n - at >= 8
        invariant
            n == bytes@.len(),
            at <= n,
            fx_hash(bytes@) == fx_fold(hash, bytes@.skip(at as int)),
        decreases n - at,
    {
        let word = read_word(bytes, at, 8);
        proof {
            assert(bytes@.skip(at as int).skip(8) =~= bytes@.skip(at + 8));
        }
        hash = round(hash, word);
        at += 8;
    }
    if n - at >= 4 {
        let word = read_word(bytes, at, 4);
        proof {
            let rest = bytes@.skip(at as int);
            assert(rest.skip(4) =~= bytes@.skip(at + 4));
            assert(fx_fold(hash, rest) == fx_fold(fx_round(hash, le_word(rest, 4)), rest.skip(4)));
        }
        hash = round(hash, word);
        at += 4;
    }
    if n - at >= 2 {
        let word = read_word(bytes, at, 2);
        proof {
            let rest = bytes@.skip(at as int);
            assert(rest.skip(2) =~= bytes@.skip(at + 2));
            assert(fx_fold(hash, rest) == fx_fold(fx_round(hash, le_word(rest, 2)), rest.skip(2)));
        }
        hash = round(hash, word);
        at += 2;
    }
    if n - at >= 1 {
        proof {
            let rest = bytes@.skip(at as int);
            assert(rest[0] == bytes@[at as int]);
            assert(fx_fold(hash, rest) == fx_round(hash, rest[0] as u64));
        }
        hash = round(hash, bytes[at] as u64);
    } else {
        assert(fx_fold(hash, bytes@.skip(at as int)) == hash);
    }
    hash
}

/// The Fx hash, over 64-bit little-endian words, of a text's UTF-8 bytes.
#[derive(Clone, Copy, Debug, Default)]
pub struct FxHasher;

impl FxHasher {
    /// A new hasher; it has no state.
    pub fn new() -> (hasher: FxHasher) {
        FxHasher
    }
}

impl ContentHasher for FxHasher {
    open spec fn digest(&self, content: Seq<char>) -> u64 {
        fx_hash(vstd::utf8::encode_utf8(content))
    }

    fn hash(&self, content: &str) -> (value: u64) {
        fx_hash_bytes(content.as_bytes())
    }
}

} // verus!
