//! What is learnt of the content of a remote file, with as little of it fetched as
//! can be.

use crate::error::Error;
use crate::error;
use crate::ftp::Timestamp;
use crate::hash;
use crate::state::StateFile;
use crate::sync::planning::RemoteHash;
use crate::sync::planning;
use crate::text;
use vstd::prelude::*;

verus! {

/// What the server says of a file without its content.
#[derive(Debug, Clone, Copy, PartialEq, Eq, Structural)]
pub struct RemoteMetadata {
    pub mtime: Timestamp,
    pub size: u64,
}

/// The hash that is remembered of a file whose time and size are the remembered
/// ones, so that its content need not be fetched.
pub fn remembered_hash(state: &StateFile, rel: &str, metadata: RemoteMetadata) -> (out: Option<
    RemoteHash,
>)
    requires
        state.wf(),
    ensures
        match out {
            Some(hash) => {
                &&& state.files@.contains_key(rel@)
                &&& state.files@[rel@].remote_mtime == metadata.mtime
                &&& state.files@[rel@].size == metadata.size
                &&& hash@ == (planning::RemoteHashView {
                    sha256: state.files@[rel@].sha256@,
                    size: metadata.size,
                    mtime: metadata.mtime,
                    metadata_stable: true,
                    bytes: None,
                })
            },
            None => !(state.files@.contains_key(rel@) && state.files@[rel@].remote_mtime
                == metadata.mtime && state.files@[rel@].size == metadata.size),
        },
{
    match state.cached_hash(rel, metadata.mtime, metadata.size) {
        Some(sha256) => Some(
            RemoteHash {
                sha256,
                size: metadata.size,
                mtime: metadata.mtime,
                metadata_stable: true,
                bytes: None,
            },
        ),
        None => None,
    }
}

/// Whether the server said two different things of a file.
pub open spec fn changed(before: Option<RemoteMetadata>, after: Option<RemoteMetadata>) -> bool {
    before is Some && after is Some && before != after
}

/// What the fetched content of a file says, where the server did not say two
/// different things of the file. A time that it did not give is taken to be `now`.
pub open spec fn fetched(
    bytes: Seq<u8>,
    before: Option<RemoteMetadata>,
    after: Option<RemoteMetadata>,
    now: Timestamp,
) -> planning::RemoteHashView {
    planning::RemoteHashView {
        sha256: hash::sha256_hex(bytes),
        size: bytes.len() as u64,
        mtime: match (before, after) {
            (Some(metadata), _) => metadata.mtime,
            (None, Some(metadata)) => metadata.mtime,
            (None, None) => now,
        },
        metadata_stable: before is Some && before == after && before->0.size == bytes.len(),
        bytes: Some(bytes),
    }
}

/// What the content of the file at `path` says, which was fetched between the two
/// times that the server was asked of the file. Its metadata is stable where the
/// answers are the same and hold the size of the content. Content that was fetched
/// while the answer changed is refused.
pub fn fetched_hash(
    path: &str,
    bytes: Vec<u8>,
    before: Option<RemoteMetadata>,
    after: Option<RemoteMetadata>,
    now: Timestamp,
) -> (out: Result<RemoteHash, Error>)
    ensures
        match out {
            Ok(hash) => !changed(before, after) && hash@ == fetched(bytes@, before, after, now),
            Err(e) => changed(before, after) && e@ == error::failure(
                "remote changed while retrieving "@ + text::debug_text(path@),
            ),
        },
{
    let size: u64 = bytes.len() as u64;
    let (mtime, is_stable) = match (before, after) {
        (Some(first), Some(second)) => {
            if first != second {
                return Err(
                    Error::failure(
                        text::cat("remote changed while retrieving ", &text::debug_of(path)),
                    ),
                );
            }
            (first.mtime, first.size == size)
        },
        (Some(metadata), None) => (metadata.mtime, false),
        (None, Some(metadata)) => (metadata.mtime, false),
        (None, None) => (now, false),
    };
    Ok(
        RemoteHash {
            sha256: hash::hash_bytes(&bytes),
            size,
            mtime,
            metadata_stable: is_stable,
            bytes: Some(bytes),
        },
    )
}

/// What is learnt by fetching is the hash and the length of the bytes that came,
/// with the time that the server told where it told one. It is stable exactly
/// where the server told the same before and after, and as many bytes came as it
/// told of. A change while the bytes came is one that was told.
pub proof fn fetched_content_is_what_came(
    bytes: Seq<u8>,
    before: Option<RemoteMetadata>,
    after: Option<RemoteMetadata>,
    now: Timestamp,
)
    ensures
        ({
            let learnt = fetched(bytes, before, after, now);
            &&& learnt.sha256 == hash::sha256_hex(bytes)
            &&& learnt.size == bytes.len() as u64
            &&& learnt.bytes == Some(bytes)
            &&& before is Some ==> learnt.mtime == before->Some_0.mtime
            &&& before is None && after is Some ==> learnt.mtime == after->Some_0.mtime
            &&& before is None && after is None ==> learnt.mtime == now
            &&& learnt.metadata_stable <==> before is Some && after == before
                && before->Some_0.size == bytes.len()
        }),
        changed(before, after) <==> before is Some && after is Some && (before->Some_0.mtime
            != after->Some_0.mtime || before->Some_0.size != after->Some_0.size),
        changed(before, after) == changed(after, before),
{
}

} // verus!
