//! The proof-record payload and the library's error type.

use vstd::prelude::*;

verus! {

/// The mathematical value of a proof record: the key/value pairs as
/// character sequences, the block number, and the payload bytes.
#[verifier::ext_equal]
pub ghost struct RecordView {
    pub key_values: Seq<(Seq<char>, Seq<char>)>,
    pub block_number: u64,
    pub data: Seq<u8>,
}

/// A proof payload sent alongside a content key to the remote store call.
///
/// The key/value mapping is held as a sequence of pairs; the order of the
/// pairs is kept through encoding and decoding.
pub struct ZeroKnowledgeProof {
    pub key_values: Vec<(String, String)>,
    pub block_number: u64,
    pub data: Vec<u8>,
}

/// The value of a key/value pair sequence: each string replaced by its
/// character sequence.
pub open spec fn key_values_view(kv: Seq<(String, String)>) -> Seq<(Seq<char>, Seq<char>)> {
    kv.map_values(|p: (String, String)| (p.0@, p.1@))
}

impl View for ZeroKnowledgeProof {
    type V = RecordView;

    open spec fn view(&self) -> RecordView {
        RecordView {
            key_values: key_values_view(self.key_values@),
            block_number: self.block_number,
            data: self.data@,
        }
    }
}

impl ZeroKnowledgeProof {
    pub fn new(key_values: Vec<(String, String)>, block_number: u64, data: Vec<u8>) -> (r: Self)
        ensures
            r@ == (RecordView {
                key_values: key_values_view(key_values@),
                block_number,
                data: data@,
            }),
    {
        ZeroKnowledgeProof { key_values, block_number, data }
    }
}

/// The errors the client distinguishes: a payload that could not be
/// serialized, and a failure reported by the remote API.
#[derive(Debug)]
pub enum ZkpError {
    SerializationError(String),
    ApiError(String),
}

impl ZkpError {
    /// A human-readable rendering of the error.
    pub fn message(&self) -> (r: String)
        ensures
            match self {
                ZkpError::SerializationError(m) => r@ == m@,
                ZkpError::ApiError(m) => r@ == m@,
            },
    {
        match self {
            ZkpError::SerializationError(m) => m.clone(),
            ZkpError::ApiError(m) => m.clone(),
        }
    }
}

} // verus!
