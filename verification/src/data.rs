//! The records the client exchanges with the remote store: secret-key
//! listings, exposed secret values, and file-listing entries.
use vstd::prelude::*;

verus! {

/// Classification metadata attached to a stored secret.
pub struct KeyMetadata {
    pub application_type: String,
    pub classification: String,
    pub cloud_type: String,
    pub description: String,
    pub environment_type: String,
    pub expiration_time: String,
}

/// One entry of a secret listing. Identity is the name.
pub struct SecretKey {
    pub name: String,
    pub is_link: bool,
    pub last_saved_time: String,
    pub total_versions: u32,
    pub metadata: KeyMetadata,
}

/// The value of one secret, as returned by a `get`.
pub struct SecretValue {
    pub key_name: String,
    pub value: String,
}

/// One entry of a file listing.
pub struct FileRecord {
    pub filename: String,
    pub created_at: i64,
    pub num_chunks: u32,
    pub size: String,
    pub stream_available: bool,
    pub version: u32,
}

} // verus!
