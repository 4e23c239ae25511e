//! Settings that the user can change.

use vstd::prelude::*;

verus! {

/// Life time of a cached listing of a remote side unless configured
/// otherwise, in seconds.
pub const DEFAULT_REMOTE_TTL: u64 = 1800;

/// Size of the slices of a streamed file unless configured otherwise, in MiB.
pub const DEFAULT_CHUNK_SIZE_MB: u64 = 8;

/// Size above which a file is streamed unless configured otherwise, in MiB.
pub const DEFAULT_STREAM_THRESHOLD_MB: u64 = 128;

/// Bytes in one MiB.
pub const BYTES_PER_MB: u64 = 1048576;

/// Settings of the cache of listings.
#[derive(Debug, Clone, Copy, PartialEq, Eq, Structural)]
pub struct CacheConfig {
    /// Life time of a cached listing of a remote side, in seconds; 0 for ever.
    pub remote_ttl: u64,
}

impl Default for CacheConfig {
    fn default() -> (r: CacheConfig)
        ensures
            r.remote_ttl == DEFAULT_REMOTE_TTL,
    {
        CacheConfig { remote_ttl: DEFAULT_REMOTE_TTL }
    }
}

/// Settings of the transfer of files.
#[derive(Debug, Clone, Copy, PartialEq, Eq, Structural)]
pub struct TransferConfig {
    /// Size of the slices of a streamed file, in MiB.
    pub chunk_size_mb: u64,
    /// Size above which a file is streamed, in MiB.
    pub stream_threshold_mb: u64,
}

impl Default for TransferConfig {
    fn default() -> (r: TransferConfig)
        ensures
            r.chunk_size_mb == DEFAULT_CHUNK_SIZE_MB,
            r.stream_threshold_mb == DEFAULT_STREAM_THRESHOLD_MB,
    {
        TransferConfig {
            chunk_size_mb: DEFAULT_CHUNK_SIZE_MB,
            stream_threshold_mb: DEFAULT_STREAM_THRESHOLD_MB,
        }
    }
}

/// A number of MiB in bytes, and no more than fits.
pub open spec fn mb_in_bytes(mb: u64) -> u64 {
    if mb * BYTES_PER_MB > u64::MAX {
        u64::MAX
    } else {
        (mb * BYTES_PER_MB) as u64
    }
}

/// A number of MiB in bytes.
pub fn mb_to_bytes(mb: u64) -> (bytes: u64)
    ensures
        bytes == mb_in_bytes(mb),
{
    if mb > u64::MAX / BYTES_PER_MB {
        u64::MAX
    } else {
        mb * BYTES_PER_MB
    }
}

impl TransferConfig {
    /// The size of the slices of a streamed file, in bytes.
    pub fn chunk_size(&self) -> (bytes: u64)
        ensures
            bytes == mb_in_bytes(self.chunk_size_mb),
    {
        mb_to_bytes(self.chunk_size_mb)
    }

    /// The size above which a file is streamed, in bytes.
    pub fn stream_threshold(&self) -> (bytes: u64)
        ensures
            bytes == mb_in_bytes(self.stream_threshold_mb),
    {
        mb_to_bytes(self.stream_threshold_mb)
    }
}

impl CacheConfig {
    /// The settings with the life time replaced where one is given.
    pub fn with_update(self, remote_ttl: Option<u64>) -> (r: CacheConfig)
        ensures
            r.remote_ttl == match remote_ttl {
                Some(t) => t,
                None => self.remote_ttl,
            },
    {
        match remote_ttl {
            Some(t) => CacheConfig { remote_ttl: t },
            None => self,
        }
    }
}

impl TransferConfig {
    /// The settings with each size replaced where one is given.
    pub fn with_update(self, chunk_size_mb: Option<u64>, stream_threshold_mb: Option<u64>) -> (r:
        TransferConfig)
        ensures
            r.chunk_size_mb == match chunk_size_mb {
                Some(s) => s,
                None => self.chunk_size_mb,
            },
            r.stream_threshold_mb == match stream_threshold_mb {
                Some(s) => s,
                None => self.stream_threshold_mb,
            },
    {
        TransferConfig {
            chunk_size_mb: match chunk_size_mb {
                Some(s) => s,
                None => self.chunk_size_mb,
            },
            stream_threshold_mb: match stream_threshold_mb {
                Some(s) => s,
                None => self.stream_threshold_mb,
            },
        }
    }
}

} // verus!
