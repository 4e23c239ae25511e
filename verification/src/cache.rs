//! The cache of listings: when a stored listing may stand in for a scan.

use vstd::prelude::*;
use vstd::string::StrSliceExecFns;
use vstd::string::StringExecFns;
use vstd::utf8::encode_utf8;
use vstd::utf8::is_ascii_chars;
use crate::ambient::clock_seconds;
use crate::file_state::blake3_digest;
use crate::file_state::blake3_hex;
use crate::file_state::lemma_hex_lower;
use crate::file_state::blake3_hex_digest;
use crate::file_state::is_hex_digit;
use crate::text::decimal;
use crate::text::decimal_text;
use crate::text::str_equal;
use crate::tree::FileTree;

verus! {

/// A stored listing.
#[derive(Debug)]
pub struct CacheEntry {
    /// The listing.
    pub files: FileTree,
    /// When it was stored, in seconds since 1970.
    pub cached_at: u64,
    /// The hash of the storage configuration that it was made with.
    pub config_hash: String,
}

/// A listing taken from the cache.
#[derive(Debug)]
pub struct CacheResult {
    pub files: FileTree,
    pub cached_at: u64,
}

/// The digits kept of the digest of a configuration.
pub const CONFIG_HASH_DIGITS: usize = 16;

/// The hash of a storage configuration: the first 16 digits of the BLAKE3
/// digest of its text.
pub open spec fn config_hash(config: Seq<char>) -> Seq<char> {
    blake3_hex(encode_utf8(config)).take(CONFIG_HASH_DIGITS as int)
}

/// Whether a listing stored at `cached_at` with `stored_hash` may stand in
/// for a scan at the time `now`: the configuration is the one it was made
/// with, and it is no older than `ttl` seconds, where 0 means that it
/// never grows old.
pub open spec fn usable(
    ttl: u64,
    stored_hash: Seq<char>,
    cached_at: u64,
    config: Seq<char>,
    now: u64,
) -> bool {
    stored_hash == config_hash(config) && (ttl == 0 || now - cached_at <= ttl)
}

/// The unit in which an age is shown.
pub open spec fn age_text(age_seconds: u64) -> Seq<char> {
    if age_seconds < 60 {
        decimal(age_seconds as nat) + "秒前"@
    } else if age_seconds < 3600 {
        decimal((age_seconds / 60) as nat) + "分钟前"@
    } else if age_seconds < 86400 {
        decimal((age_seconds / 3600) as nat) + "小时前"@
    } else {
        decimal((age_seconds / 86400) as nat) + "天前"@
    }
}

/// The seconds since 1970 that a reading of the clock stands for: the
/// reading itself, and 0 where the clock gave none because it stands
/// before 1970.
pub fn seconds_since_1970(reading: Option<u64>) -> (seconds: u64)
    ensures
        seconds == match reading {
            Some(s) => s,
            None => 0,
        },
{
    match reading {
        Some(s) => s,
        None => 0,
    }
}

/// The cache of listings of one directory.
#[derive(Debug, Clone)]
pub struct FileListCache {
    cache_dir: String,
    ttl_seconds: u64,
}

impl FileListCache {
    /// The directory of the cache.
    pub closed spec fn dir(&self) -> Seq<char> {
        self.cache_dir@
    }

    /// How long a listing stays usable, in seconds; 0 for ever.
    pub closed spec fn ttl(&self) -> u64 {
        self.ttl_seconds
    }

    /// A cache in `cache_dir` whose listings never grow old.
    pub fn new(cache_dir: String) -> (r: FileListCache)
        ensures
            r.dir() == cache_dir@,
            r.ttl() == 0,
    {
        FileListCache { cache_dir, ttl_seconds: 0 }
    }

    /// The same cache with listings usable for `seconds` seconds; 0 for ever.
    pub fn with_ttl(self, seconds: u64) -> (r: FileListCache)
        ensures
            r.dir() == self.dir(),
            r.ttl() == seconds,
    {
        FileListCache { cache_dir: self.cache_dir, ttl_seconds: seconds }
    }

    /// The directory of the cache.
    pub fn cache_dir(&self) -> (d: &str)
        ensures
            d@ == self.dir(),
    {
        self.cache_dir.as_str()
    }

    /// How long a listing stays usable.
    pub fn ttl_seconds(&self) -> (t: u64)
        ensures
            t == self.ttl(),
    {
        self.ttl_seconds
    }

    /// The name of the file that holds the listing of one side of a job.
    pub fn cache_file(job_id: &str, storage_type: &str) -> (name: String)
        ensures
            name@ == job_id@ + "_"@ + storage_type@ + ".cache"@,
    {
        let mut name = String::from_str(job_id);
        name.append("_");
        name.append(storage_type);
        name.append(".cache");
        name
    }

    /// The hash of a storage configuration.
    pub fn hash_config(config: &str) -> (hash: String)
        ensures
            hash@ == config_hash(config@),
            hash@.len() == CONFIG_HASH_DIGITS,
    {
        let hex = blake3_hex_digest(config.as_bytes());
        assert(is_ascii_chars(hex@) && hex@.len() == 64) by {
            lemma_hex_lower(blake3_digest(encode_utf8(config@)));
            assert forall|i: int| 0 <= i < hex@.len() implies '\0' <= #[trigger] hex@[i]
                <= '\u{7f}' by {
                assert(is_hex_digit(hex@[i]));
            }
        }
        String::from_str(hex.as_str().substring_ascii(0, CONFIG_HASH_DIGITS))
    }

    /// The time of the clock in seconds since 1970, and 0 where the clock
    /// stands before 1970. Nothing else is known of the value.
    pub fn now() -> u64 {
        seconds_since_1970(clock_seconds())
    }

    /// The time of the clock in seconds since 1970.
    pub fn current_time() -> u64 {
        Self::now()
    }

    /// The entry that stores `files` at the time `now` for `config_json`.
    pub fn entry_for(config_json: &str, files: FileTree, now: u64) -> (entry: CacheEntry)
        ensures
            entry.files@ == files@,
            entry.cached_at == now,
            entry.config_hash@ == config_hash(config_json@),
    {
        CacheEntry { files, cached_at: now, config_hash: Self::hash_config(config_json) }
    }

    /// Decides whether a stored entry may stand in for a scan at the time
    /// `now`. An entry that may not is to be deleted.
    pub fn accept(&self, entry: CacheEntry, config_json: &str, now: u64) -> (r: Option<CacheResult>)
        ensures
            match r {
                Some(hit) => usable(self.ttl(), entry.config_hash@, entry.cached_at, config_json@, now)
                    && hit.files@ == entry.files@ && hit.cached_at == entry.cached_at,
                None => !usable(self.ttl(), entry.config_hash@, entry.cached_at, config_json@, now),
            },
    {
        let current = Self::hash_config(config_json);
        if !str_equal(entry.config_hash.as_str(), current.as_str()) {
            return None;
        }
        if self.ttl_seconds > 0 && now > entry.cached_at && now - entry.cached_at
            > self.ttl_seconds {
            return None;
        }
        Some(CacheResult { files: entry.files, cached_at: entry.cached_at })
    }

    /// How long ago, in words.
    pub fn format_age(age_seconds: u64) -> (s: String)
        ensures
            s@ == age_text(age_seconds),
    {
        if age_seconds < 60 {
            let mut s = decimal_text(age_seconds);
            s.append("秒前");
            s
        } else if age_seconds < 3600 {
            let mut s = decimal_text(age_seconds / 60);
            s.append("分钟前");
            s
        } else if age_seconds < 86400 {
            let mut s = decimal_text(age_seconds / 3600);
            s.append("小时前");
            s
        } else {
            let mut s = decimal_text(age_seconds / 86400);
            s.append("天前");
            s
        }
    }

    /// The sides of a job whose listings are cached.
    pub fn sides() -> (r: Vec<String>)
        ensures
            r@.len() == 2,
            r@[0]@ == "source"@,
            r@[1]@ == "dest"@,
    {
        let mut r: Vec<String> = Vec::new();
        r.push(String::from_str("source"));
        r.push(String::from_str("dest"));
        r
    }
}

/// A listing that is stored and read back under the same configuration
/// while it is fresh comes back as it was stored; read back under a
/// configuration with another hash it is refused, whatever its age.
pub proof fn law_cache_round_trip(
    ttl: u64,
    config: Seq<char>,
    changed: Seq<char>,
    stored_at: u64,
    now: u64,
)
    ensures
        ttl == 0 || now - stored_at <= ttl ==> usable(ttl, config_hash(config), stored_at, config, now),
        config_hash(changed) != config_hash(config) ==> !usable(
            ttl,
            config_hash(config),
            stored_at,
            changed,
            now,
        ),
{
}

} // verus!
