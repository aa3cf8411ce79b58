//! What the server's answers hold.
use vstd::prelude::*;

verus! {

/// The server's JSON answers: data, or the reason why there is none.
#[derive(Debug)]
pub enum Envelope<T> {
    Success { data: T },
    Failure { reason: String, details: Option<String> },
}

/// A budget file as the server lists it.
#[derive(Debug)]
pub struct UserFile {
    pub file_id: String,
    pub group_id: Option<String>,
    pub name: String,
    pub encrypt_key_id: Option<String>,
    /// The server sends an integer, not a bool.
    pub deleted: i32,
}

fn copy(text: &Option<String>) -> (r: Option<String>)
    ensures
        r == *text,
{
    match text {
        Some(s) => Some(s.clone()),
        None => None,
    }
}

impl Clone for UserFile {
    fn clone(&self) -> (r: Self)
        ensures
            r == *self,
    {
        UserFile {
            file_id: self.file_id.clone(),
            group_id: copy(&self.group_id),
            name: self.name.clone(),
            encrypt_key_id: copy(&self.encrypt_key_id),
            deleted: self.deleted,
        }
    }
}

#[derive(Debug)]
pub struct LoginData {
    pub token: String,
}

/// What a snapshot says of itself.
#[derive(Debug)]
pub struct Metadata {
    pub id: String,
    pub budget_name: String,
    pub cloud_file_id: String,
    pub group_id: Option<String>,
    pub last_synced_timestamp: Option<String>,
    pub reset_clock: bool,
}

/// A budget as the server keeps it: a database, and what there is to know of it.
#[derive(Debug)]
pub struct Snapshot {
    pub db_bytes: Vec<u8>,
    pub metadata: Metadata,
}

/// The reason for a failure, as a binary route may answer it.
#[derive(Debug)]
pub struct ApiError {
    pub reason: String,
}

} // verus!
