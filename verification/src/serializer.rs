//! The cache file format: the interface the pipeline asks for, and bincode.

use crate::error::Error;
use crate::tree::SignedTree;
use ara_parser::tree::Tree;
use bincode::error::DecodeError;
use bincode::error::EncodeError;
use vstd::prelude::*;

verus! {

/// A binary codec for signed trees.
///
/// A serializer is free in its format. What the cache protocol relies on is
/// that it reads and writes the same way every time, and that it reads back
/// as the same entry whatever it wrote.
pub trait Serializer {
    /// The bytes that stand for `entry`, where it can be written so that it
    /// is read back.
    spec fn encoding(&self, entry: SignedTree) -> Option<Seq<u8>>;

    /// The entry that `bytes` stand for, where they stand for one.
    spec fn decoding(&self, bytes: Seq<u8>) -> Option<SignedTree>;

    /// Bytes written for an entry are read back as that entry.
    proof fn lemma_reads_what_it_wrote(&self, entry: SignedTree)
        ensures
            self.encoding(entry) matches Some(written) ==> self.decoding(written) == Some(entry),
    ;

    /// Encodes `entry`; an entry that cannot be written so that it is read
    /// back gives `SerializeError`.
    fn serialize(&self, entry: &SignedTree) -> (bytes: Result<Vec<u8>, Error>)
        ensures
            match bytes {
                Ok(written) => self.encoding(*entry) == Some(written@),
                Err(error) => self.encoding(*entry) is None && error is SerializeError,
            },
    ;

    /// Decodes an entry; bytes that hold none give `DeserializeError`.
    fn deserialize(&self, bytes: &[u8]) -> (entry: Result<SignedTree, Error>)
        ensures
            match entry {
                Ok(read) => self.decoding(bytes@) == Some(read),
                Err(error) => self.decoding(bytes@) is None && error is DeserializeError,
            },
    ;
}

/// Why bincode could not encode a value.
#[verifier::external_type_specification]
#[verifier::external_body]
pub struct ExEncodeError(EncodeError);

/// Why bincode could not decode a byte string.
#[verifier::external_type_specification]
#[verifier::external_body]
pub struct ExDecodeError(DecodeError);

/// The most memory, in bytes, that decoding one cache entry may claim. A
/// damaged entry that announces more is refused before anything is allocated.
pub const DECODE_LIMIT: usize = 0x1000_0000;

/// The bytes that bincode writes for a signature followed by a tree, in its
/// standard configuration (little endian, variable-length integers).
pub uninterp spec fn bincode_encoding(signature: u64, tree: Tree) -> Option<Seq<u8>>;

/// The signature and tree that bincode reads from the front of a byte
/// string, in its standard configuration, within `DECODE_LIMIT`.
pub uninterp spec fn bincode_decoding(bytes: Seq<u8>) -> Option<(u64, Tree)>;

/// Calls `bincode::encode_to_vec` on the pair of the signature and the tree,
/// which is written as the two fields one after the other.
///
/// Trusted: the outcome is the one named by `bincode_encoding`, and decoding
/// the written bytes gives the same pair back unless it runs into the limit.
/// The second claim rests on how the tree is encoded: every `Encode` and
/// `Decode` of the tree's types is derived, field by field, over integers,
/// strings, vectors, options and boxes, for which bincode reads what it
/// wrote. bincode's documentation shows this by example and does not
/// promise it for types that encode themselves by hand.
///
/// The encoder descends once for each level that the tree nests and needs
/// stack for it, as the engine did that made the tree.
#[verifier::external_body]
fn encode_entry(signature: u64, tree: &Tree) -> (written: Result<Vec<u8>, EncodeError>)
    ensures
        match written {
            Ok(bytes) => {
                &&& bincode_encoding(signature, *tree) == Some(bytes@)
                &&& bincode_decoding(bytes@) is Some ==> bincode_decoding(bytes@) == Some(
                    (signature, *tree),
                )
            },
            Err(_) => bincode_encoding(signature, *tree) is None,
        },
{
    bincode::encode_to_vec((signature, tree), bincode::config::standard())
}

/// Calls `bincode::decode_from_slice` for a signature followed by a tree;
/// bytes after the tree are left unread.
///
/// Trusted: the outcome is the one named by `bincode_decoding`.
/// `DECODE_LIMIT` keeps a damaged entry from announcing a length that cannot
/// be allocated: the decoder answers with an error before it allocates.
///
/// The decoder descends once for each level that the entry nests, and
/// counts no levels itself. An entry that nests deeper than the stack of
/// the calling thread allows exhausts it, and the process ends as it does
/// when memory runs out; the contract leaves that aside.
#[verifier::external_body]
fn decode_entry(bytes: &[u8]) -> (read: Result<(u64, Tree), DecodeError>)
    ensures
        match read {
            Ok(entry) => bincode_decoding(bytes@) == Some(entry),
            Err(_) => bincode_decoding(bytes@) is None,
        },
{
    let config = bincode::config::standard().with_limit::<DECODE_LIMIT>();
    match bincode::decode_from_slice(bytes, config) {
        Ok((entry, _)) => Ok(entry),
        Err(error) => Err(error),
    }
}

/// Renders bincode's encoding error through its `Display`.
#[verifier::external_body]
fn describe_encode_error(error: &EncodeError) -> String {
    format!("{}", error)
}

/// Renders bincode's decoding error through its `Display`.
#[verifier::external_body]
fn describe_decode_error(error: &DecodeError) -> String {
    format!("{}", error)
}

/// Cache entries in bincode's standard configuration.
#[derive(Clone, Copy, Debug, Default)]
pub struct BincodeSerializer;

impl BincodeSerializer {
    /// A new serializer; it has no state.
    pub fn new() -> (serializer: BincodeSerializer) {
        BincodeSerializer
    }
}

impl Serializer for BincodeSerializer {
    /// What bincode writes for the signature and the tree, where bincode
    /// reads it back.
    open spec fn encoding(&self, entry: SignedTree) -> Option<Seq<u8>> {
        match bincode_encoding(entry.signature, entry.tree) {
            Some(bytes) => if bincode_decoding(bytes) == Some(
                (entry.signature, entry.tree),
            ) {
                Some(bytes)
            } else {
                None
            },
            None => None,
        }
    }

    /// What bincode reads from the bytes.
    open spec fn decoding(&self, bytes: Seq<u8>) -> Option<SignedTree> {
        match bincode_decoding(bytes) {
            Some((signature, tree)) => Some(SignedTree { signature, tree }),
            None => None,
        }
    }

    proof fn lemma_reads_what_it_wrote(&self, entry: SignedTree) {
    }

    /// Encodes the entry and reads the bytes back before handing them out.
    fn serialize(&self, entry: &SignedTree) -> (bytes: Result<Vec<u8>, Error>) {
        let written = match encode_entry(entry.signature, &entry.tree) {
            Ok(written) => written,
            Err(error) => {
                return Err(Error::SerializeError(describe_encode_error(&error)));
            },
        };
        match decode_entry(written.as_slice()) {
            Ok(_) => Ok(written),
            Err(error) => Err(Error::SerializeError(describe_decode_error(&error))),
        }
    }

    fn deserialize(&self, bytes: &[u8]) -> (entry: Result<SignedTree, Error>) {
        match decode_entry(bytes) {
            Ok((signature, tree)) => Ok(SignedTree::new(signature, tree)),
            Err(error) => Err(Error::DeserializeError(describe_decode_error(&error))),
        }
    }
}

} // verus!
