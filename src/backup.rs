//! Decisions of the database backup job: its settings, which archives expire,
//! and whether the disk can take another archive.

use vstd::prelude::*;
use vstd::string::StrSliceExecFns;
use vstd::string::StringExecFns;
use crate::config::{auth_source_url, parse_unsigned, unsigned_value};
use crate::text::chars_of;

verus! {

/// Settings of the backup job.
pub struct BackupConfig {
    pub mongo_uri: String,
    pub backup_dir: String,
    pub database_name: String,
    pub retention_days: i32,
}

pub const DEFAULT_BACKUP_DIR: &'static str = "./backups";

pub const DEFAULT_RETENTION_DAYS: i32 = 7;

/// Free space, in KiB, below which no backup is attempted (1 GiB).
pub const MIN_FREE_KIB: u64 = 1048576;

/// Milliseconds in a day.
pub const DAY_MILLIS: i64 = 86400000;

/// The value of `s` read as an `i32` in decimal, with an optional sign.
pub open spec fn i32_value(s: Seq<char>) -> Option<int> {
    if s.len() > 0 && s[0] == '-' {
        let rest = s.drop_first();
        if rest.len() > 0 && rest[0] == '+' {
            None
        } else {
            match unsigned_value(rest, 0x8000_0000) {
                Some(v) => Some(-v),
                None => None,
            }
        }
    } else {
        unsigned_value(s, 0x7fff_ffff)
    }
}

/// Reads `s` as an `i32`, as `str::parse` does.
pub fn parse_i32(s: &str) -> (r: Option<i32>)
    ensures
        r matches Some(v) ==> i32_value(s@) == Some(v as int),
        r is None ==> i32_value(s@) is None,
{
    let cs = chars_of(s);
    if cs.len() > 0 && cs[0] == '-' {
        if cs.len() > 1 && cs[1] == '+' {
            return None;
        }
        let rest = s.substring_char(1, cs.len());
        assert(rest@ =~= s@.drop_first());
        match parse_unsigned(rest, 0x8000_0000) {
            Some(v) => {
                if v == 0x8000_0000 {
                    Some(i32::MIN)
                } else {
                    Some(-(v as i32))
                }
            },
            None => None,
        }
    } else {
        match parse_unsigned(s, 0x7fff_ffff) {
            Some(v) => Some(v as i32),
            None => None,
        }
    }
}

/// Retention in days: the setting when it reads as an `i32`, else seven.
pub fn retention_days_of(text: Option<&str>) -> (r: i32)
    ensures
        r == retention_days_of_spec(text),
{
    match text {
        Some(t) => match parse_i32(t) {
            Some(v) => v,
            None => DEFAULT_RETENTION_DAYS,
        },
        None => DEFAULT_RETENTION_DAYS,
    }
}

impl BackupConfig {
    /// The job's settings from the environment's values: the URL names `mongo_db`
    /// as authentication database, the directory defaults to `./backups`.
    pub fn from_values(
        base_mongo_url: &str,
        mongo_db: &str,
        backup_dir: Option<String>,
        database_name: String,
        retention_days: Option<&str>,
    ) -> (r: BackupConfig)
        ensures
            r.mongo_uri@ == base_mongo_url@ + "?authSource="@ + mongo_db@,
            r.backup_dir@ == match backup_dir {
                Some(d) => d@,
                None => DEFAULT_BACKUP_DIR@,
            },
            r.database_name == database_name,
            r.retention_days == retention_days_of_spec(retention_days),
    {
        BackupConfig {
            mongo_uri: auth_source_url(base_mongo_url, mongo_db),
            backup_dir: match backup_dir {
                Some(d) => d,
                None => String::from_str(DEFAULT_BACKUP_DIR),
            },
            database_name,
            retention_days: retention_days_of(retention_days),
        }
    }
}

/// Retention in days for an optional setting.
pub open spec fn retention_days_of_spec(text: Option<&str>) -> i32 {
    match text {
        Some(t) => match i32_value(t@) {
            Some(v) => v as i32,
            None => 7,
        },
        None => 7,
    }
}

/// An archive last modified `age` milliseconds ago has outlived a retention
/// of `retention_days` days.
pub fn is_expired(age: i64, retention_days: i32) -> (r: bool)
    ensures
        r == (age as int > retention_days as int * DAY_MILLIS as int),
{
    let limit: i64 = retention_days as i64 * DAY_MILLIS;
    age > limit
}

/// Whether `free_kib` KiB of free disk leave room for a backup.
pub fn has_room_for_backup(free_kib: u64) -> (r: bool)
    ensures
        r == (free_kib as int * 1024 >= 0x4000_0000),
{
    free_kib >= MIN_FREE_KIB
}

/// Path of the archive written at `stamp` (formatted `%Y%m%d_%H%M%S`).
pub fn backup_file(dir: &str, stamp: &str) -> (r: String)
    ensures
        r@ == dir@ + "/backup_"@ + stamp@ + ".gz"@,
{
    String::from_str(dir).concat("/backup_").concat(stamp).concat(".gz")
}

} // verus!
