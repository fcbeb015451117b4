//! A client library for sending zero-knowledge-proof payloads to a
//! content-addressed store over a JSON-RPC endpoint.
//!
//! The library holds the verified logic of the client: the proof-record
//! type, its textual interchange encoding and decoding (with a proven
//! round-trip law), the content-key decoder, and the session state
//! machine that orders the remote calls. The I/O itself (the transport,
//! the process entry point) lives outside the library.

pub mod decode;
pub mod encode;
pub mod hexkey;
pub mod record;
pub mod roundtrip;
pub mod session;
pub mod text;

pub use decode::deserialize_zkp_message;
pub use encode::serialize_zkp_message;
pub use hexkey::ContentKey;
pub use hexkey::decode_content_key;
pub use record::ZeroKnowledgeProof;
pub use record::ZkpError;
pub use roundtrip::serialize_then_deserialize;
pub use session::Action;
pub use session::Phase;
pub use session::RemoteEvent;
pub use session::Session;
