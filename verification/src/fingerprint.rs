//! Compressed fingerprints standing in for full follower records: a 64-bit
//! hash of the identity hash plus a 32-bit timestamp. Two fingerprints are
//! equal exactly when the source identity hashes are (hash collisions are
//! accepted as negligible by design).
use vstd::prelude::*;

use std::collections::hash_map::DefaultHasher;
use std::hash::Hash;
use std::hash::Hasher;

use crate::follower::FollowerItem;
use crate::follower::FollowerItemView;

verus! {

/// The 64-bit digest that the standard `DefaultHasher` assigns to an
/// identity-hash string; a function of the characters alone.
pub uninterp spec fn id_hash_of(id: Seq<char>) -> u64;

/// The epoch second encoded by a "following since" string, when it parses
/// as a UTC instant; a function of the characters alone.
pub uninterp spec fn following_since_secs(s: Seq<char>) -> Option<u32>;

/// Relies on `std::collections::hash_map::DefaultHasher`: hashers built by
/// `new` are all the same, so the digest of a string depends on its
/// characters alone.
#[verifier::external_body]
pub(crate) fn hash_identity(id: &str) -> (r: u64)
    ensures
        r == id_hash_of(id@),
{
    let mut hasher = DefaultHasher::new();
    id.hash(&mut hasher);
    hasher.finish()
}

/// Relies on `chrono::DateTime::<Utc>::from_str` and
/// `chrono::DateTime::timestamp`: parsing an RFC 3339 timestamp string and
/// reading its epoch second depend on the string alone.
#[verifier::external_body]
fn parse_following_since(s: &str) -> (r: Option<u32>)
    ensures
        r == following_since_secs(s@),
{
    match s.parse::<chrono::DateTime<chrono::Utc>>() {
        Ok(dt) => Some(dt.timestamp() as u32),
        Err(_) => None,
    }
}

/// Compressed stand-in for one follower record.
#[derive(Debug, Clone, Copy, PartialEq, Eq, Hash, Structural)]
pub struct CompressedFollower {
    pub hash: u64,
    pub timestamp: u32,
}

/// The fingerprint a follower record compresses to: the digest of its
/// identity hash, and the epoch second it started following — or the given
/// fallback second when the record's timestamp string does not parse.
pub open spec fn fingerprint_of(f: FollowerItemView, fallback_secs: u32) -> CompressedFollower {
    CompressedFollower {
        hash: id_hash_of(f.user.user_id_hash),
        timestamp: match following_since_secs(f.following_since) {
            Option::Some(t) => t,
            Option::None => fallback_secs,
        },
    }
}

impl CompressedFollower {
    /// Compresses a follower record, falling back to `now_secs` when the
    /// record's "following since" string does not parse.
    pub fn from_follower(follower: &FollowerItem, now_secs: u32) -> (r: Self)
        ensures
            r == fingerprint_of(follower@, now_secs),
    {
        let hash = hash_identity(follower.user.user_id_hash.as_str());
        let timestamp = match parse_following_since(follower.following_since.as_str()) {
            Option::Some(t) => t,
            Option::None => now_secs,
        };
        CompressedFollower { hash, timestamp }
    }

    /// Membership test by fingerprint equality: true exactly when this
    /// fingerprint's hash is the digest of the record's identity hash.
    pub fn matches_follower(&self, follower: &FollowerItem) -> (r: bool)
        ensures
            r == (self.hash == id_hash_of(follower@.user.user_id_hash)),
    {
        self.hash == hash_identity(follower.user.user_id_hash.as_str())
    }
}

} // verus!
