//! Service configuration and the read endpoint's query parameters.

use vstd::prelude::*;
use vstd::string::StringExecFns;
use crate::text::chars_of;

verus! {

/// Settings of the service, supplied already validated by its host.
#[derive(Clone, Debug)]
pub struct Config {
    /// MongoDB connection URL.
    pub mongo_url: String,
    /// Listening port.
    pub port: u16,
    /// API key of the email service.
    pub brevo_api_key: String,
    /// Origin allowed by CORS.
    pub frontend_url: String,
    pub host: String,
    /// Freshness window of the per-source cache, in seconds.
    pub rss_cache_duration: u64,
    pub recipient_email: String,
    pub sender_name: String,
    pub sender_email: String,
    /// Connection URL of the feed source registry.
    pub rss_source_url: String,
    pub rss_source_db: String,
    pub rss_source_collection: String,
}

/// Page number used when a request names none.
pub fn default_page() -> (r: u32)
    ensures
        r == 1,
{
    1
}

/// Page size used when a request names none.
pub fn default_limit() -> (r: u32)
    ensures
        r == 9,
{
    9
}

/// Query parameters of the paginated read.
pub struct PaginationParams {
    pub page: u32,
    pub limit: u32,
}

impl PaginationParams {
    /// The parameters of a request, with the defaults for those it leaves out.
    pub fn new(page: Option<u32>, limit: Option<u32>) -> (r: PaginationParams)
        ensures
            r.page == match page {
                Some(p) => p,
                None => 1,
            },
            r.limit == match limit {
                Some(l) => l,
                None => 9,
            },
    {
        let page = match page {
            Some(p) => p,
            None => default_page(),
        };
        let limit = match limit {
            Some(l) => l,
            None => default_limit(),
        };
        PaginationParams { page, limit }
    }
}

/// Value of a string of decimal digits.
pub open spec fn digits_value(d: Seq<char>) -> int
    decreases d.len(),
{
    if d.len() == 0 {
        0
    } else {
        digits_value(d.drop_last()) * 10 + (d.last() as int - '0' as int)
    }
}

pub open spec fn all_digits(d: Seq<char>) -> bool {
    forall|i: int| 0 <= i < d.len() ==> '0' <= #[trigger] d[i] <= '9'
}

/// The digits of an unsigned number's text: one leading `+` is allowed.
pub open spec fn unsigned_digits(s: Seq<char>) -> Seq<char> {
    if s.len() > 0 && s[0] == '+' {
        s.drop_first()
    } else {
        s
    }
}

/// The value of `s` read as an unsigned decimal number no larger than `max`.
pub open spec fn unsigned_value(s: Seq<char>, max: int) -> Option<int> {
    let d = unsigned_digits(s);
    if d.len() > 0 && all_digits(d) && digits_value(d) <= max {
        Some(digits_value(d))
    } else {
        None
    }
}

proof fn lemma_digits_prefix(d: Seq<char>, i: int)
    requires
        all_digits(d),
        0 <= i <= d.len(),
    ensures
        0 <= digits_value(d.subrange(0, i)) <= digits_value(d),
    decreases d.len(),
{
    if d.len() > 0 {
        if i == d.len() {
            assert(d.subrange(0, i) =~= d);
            lemma_digits_prefix(d.drop_last(), i - 1);
            assert(d.drop_last().subrange(0, i - 1) =~= d.drop_last());
        } else {
            lemma_digits_prefix(d.drop_last(), i);
            assert(d.drop_last().subrange(0, i) =~= d.subrange(0, i));
            assert(d.drop_last().subrange(0, d.len() - 1) =~= d.drop_last());
            lemma_digits_prefix(d.drop_last(), d.len() - 1);
        }
    } else {
        assert(d.subrange(0, i) =~= d);
    }
}

/// Reads `s` as an unsigned decimal number no larger than `max`, as `str::parse`
/// does for unsigned integers.
pub fn parse_unsigned(s: &str, max: u64) -> (r: Option<u64>)
    ensures
        r matches Some(v) ==> unsigned_value(s@, max as int) == Some(v as int),
        r is None ==> unsigned_value(s@, max as int) is None,
{
    let cs = chars_of(s);
    let start: usize = if cs.len() > 0 && cs[0] == '+' {
        1
    } else {
        0
    };
    let ghost d = unsigned_digits(s@);
    assert(d =~= cs@.subrange(start as int, cs@.len() as int));
    if start >= cs.len() {
        return None;
    }
    let mut value: u64 = 0;
    let mut i: usize = start;
    while i < cs.len()
        invariant
            cs@ == s@,
            start <= i <= cs@.len(),
            d == cs@.subrange(start as int, cs@.len() as int),
            d == unsigned_digits(s@),
            all_digits(d.subrange(0, i - start)),
            value as int == digits_value(d.subrange(0, i - start)),
            value <= max,
        decreases cs@.len() - i,
    {
        let c = cs[i];
        if c < '0' || c > '9' {
            assert(d[i - start] == c);
            return None;
        }
        let digit = (c as u32 - '0' as u32) as u64;
        assert(d.subrange(0, i + 1 - start).drop_last() =~= d.subrange(0, i - start));
        if digit > max || value > (max - digit) / 10 {
            proof {
                assert(value * 10 + digit > max) by (nonlinear_arith)
                    requires
                        digit > max || value > (max - digit) / 10,
                ;
                if all_digits(d) {
                    lemma_digits_prefix(d, i + 1 - start);
                }
            }
            return None;
        }
        proof {
            assert(value * 10 + digit <= max) by (nonlinear_arith)
                requires
                    value <= (max - digit) / 10,
                    digit <= max,
            ;
        }
        value = value * 10 + digit;
        i = i + 1;
    }
    assert(d.subrange(0, i - start) =~= d);
    Some(value)
}

/// The settings as read from the environment; `None` where a variable is unset.
pub struct ConfigSource {
    pub mongo_url: Option<String>,
    pub host: Option<String>,
    pub port: Option<String>,
    pub rss_cache_duration: Option<String>,
    pub brevo_api_key: Option<String>,
    pub recipient_email: Option<String>,
    pub sender_name: Option<String>,
    pub sender_email: Option<String>,
    pub frontend_url: Option<String>,
    pub rss_source_url: Option<String>,
    pub rss_source_db: Option<String>,
    pub rss_source_collection: Option<String>,
}

/// A configuration variable.
#[derive(PartialEq, Eq, Structural, Clone, Copy, Debug)]
pub enum ConfigKey {
    MongoUrl,
    Port,
    RssCacheDuration,
    BrevoApiKey,
    RecipientEmail,
    SenderName,
    SenderEmail,
    FrontendUrl,
    RssSourceUrl,
    RssSourceDb,
    RssSourceCollection,
}

/// Why the settings do not make a configuration.
#[derive(PartialEq, Eq, Structural, Clone, Copy, Debug)]
pub enum ConfigError {
    /// A required variable is unset.
    Missing(ConfigKey),
    /// A numeric variable does not hold a number of its type.
    NotANumber(ConfigKey),
}

pub const DEFAULT_HOST: &'static str = "127.0.0.1";

pub const DEFAULT_PORT: &'static str = "8080";

pub const DEFAULT_CACHE_DURATION: &'static str = "3600";

/// The text of an optional setting, or its default.
pub open spec fn text_or(o: Option<String>, default: Seq<char>) -> Seq<char> {
    match o {
        Some(s) => s@,
        None => default,
    }
}

/// The first problem of `src`, checking variables in a fixed order.
pub open spec fn config_error(src: ConfigSource) -> Option<ConfigError> {
    if src.mongo_url is None {
        Some(ConfigError::Missing(ConfigKey::MongoUrl))
    } else if unsigned_value(text_or(src.port, DEFAULT_PORT@), 0xffff) is None {
        Some(ConfigError::NotANumber(ConfigKey::Port))
    } else if unsigned_value(text_or(src.rss_cache_duration, DEFAULT_CACHE_DURATION@), u64::MAX as int) is None {
        Some(ConfigError::NotANumber(ConfigKey::RssCacheDuration))
    } else if src.brevo_api_key is None {
        Some(ConfigError::Missing(ConfigKey::BrevoApiKey))
    } else if src.recipient_email is None {
        Some(ConfigError::Missing(ConfigKey::RecipientEmail))
    } else if src.sender_name is None {
        Some(ConfigError::Missing(ConfigKey::SenderName))
    } else if src.sender_email is None {
        Some(ConfigError::Missing(ConfigKey::SenderEmail))
    } else if src.frontend_url is None {
        Some(ConfigError::Missing(ConfigKey::FrontendUrl))
    } else if src.rss_source_url is None {
        Some(ConfigError::Missing(ConfigKey::RssSourceUrl))
    } else if src.rss_source_db is None {
        Some(ConfigError::Missing(ConfigKey::RssSourceDb))
    } else if src.rss_source_collection is None {
        Some(ConfigError::Missing(ConfigKey::RssSourceCollection))
    } else {
        None
    }
}

/// `c` is the configuration that `src` describes.
pub open spec fn config_of(c: Config, src: ConfigSource) -> bool {
    &&& c.mongo_url@ == text_or(src.mongo_url, Seq::empty())
    &&& c.host@ == text_or(src.host, DEFAULT_HOST@)
    &&& Some(c.port as int) == unsigned_value(text_or(src.port, DEFAULT_PORT@), 0xffff)
    &&& Some(c.rss_cache_duration as int) == unsigned_value(
        text_or(src.rss_cache_duration, DEFAULT_CACHE_DURATION@),
        u64::MAX as int,
    )
    &&& c.brevo_api_key@ == text_or(src.brevo_api_key, Seq::empty())
    &&& c.recipient_email@ == text_or(src.recipient_email, Seq::empty())
    &&& c.sender_name@ == text_or(src.sender_name, Seq::empty())
    &&& c.sender_email@ == text_or(src.sender_email, Seq::empty())
    &&& c.frontend_url@ == text_or(src.frontend_url, Seq::empty())
    &&& c.rss_source_url@ == text_or(src.rss_source_url, Seq::empty())
    &&& c.rss_source_db@ == text_or(src.rss_source_db, Seq::empty())
    &&& c.rss_source_collection@ == text_or(src.rss_source_collection, Seq::empty())
}

fn required(o: Option<String>, key: ConfigKey) -> (r: Result<String, ConfigError>)
    ensures
        match o {
            Some(s) => r == Ok::<String, ConfigError>(s),
            None => r == Err::<String, ConfigError>(ConfigError::Missing(key)),
        },
{
    match o {
        Some(s) => Ok(s),
        None => Err(ConfigError::Missing(key)),
    }
}

fn or_default(o: Option<String>, default: &str) -> (r: String)
    ensures
        r@ == text_or(o, default@),
{
    match o {
        Some(s) => s,
        None => String::from_str(default),
    }
}

impl Config {
    /// The configuration that `src` describes: unset `HOST`, `PORT` and
    /// `RSS_CACHE_DURATION` take their defaults, every other variable is required.
    pub fn from_source(src: ConfigSource) -> (r: Result<Config, ConfigError>)
        ensures
            match r {
                Ok(c) => config_error(src) is None && config_of(c, src),
                Err(e) => config_error(src) == Some(e),
            },
    {
        let ghost g = src;
        let mongo_url = required(src.mongo_url, ConfigKey::MongoUrl)?;
        let host = or_default(src.host, DEFAULT_HOST);
        let port_text = or_default(src.port, DEFAULT_PORT);
        let port = match parse_unsigned(port_text.as_str(), 0xffff) {
            Some(p) => p as u16,
            None => return Err(ConfigError::NotANumber(ConfigKey::Port)),
        };
        let cache_text = or_default(src.rss_cache_duration, DEFAULT_CACHE_DURATION);
        let rss_cache_duration = match parse_unsigned(cache_text.as_str(), u64::MAX) {
            Some(d) => d,
            None => return Err(ConfigError::NotANumber(ConfigKey::RssCacheDuration)),
        };
        let brevo_api_key = required(src.brevo_api_key, ConfigKey::BrevoApiKey)?;
        let recipient_email = required(src.recipient_email, ConfigKey::RecipientEmail)?;
        let sender_name = required(src.sender_name, ConfigKey::SenderName)?;
        let sender_email = required(src.sender_email, ConfigKey::SenderEmail)?;
        let frontend_url = required(src.frontend_url, ConfigKey::FrontendUrl)?;
        let rss_source_url = required(src.rss_source_url, ConfigKey::RssSourceUrl)?;
        let rss_source_db = required(src.rss_source_db, ConfigKey::RssSourceDb)?;
        let rss_source_collection = required(src.rss_source_collection, ConfigKey::RssSourceCollection)?;
        Ok(Config {
            mongo_url,
            port,
            brevo_api_key,
            frontend_url,
            host,
            rss_cache_duration,
            recipient_email,
            sender_name,
            sender_email,
            rss_source_url,
            rss_source_db,
            rss_source_collection,
        })
    }
}

/// `base` followed by the query that names `db` as the authentication database.
pub fn auth_source_url(base: &str, db: &str) -> (r: String)
    ensures
        r@ == base@ + "?authSource="@ + db@,
{
    String::from_str(base).concat("?authSource=").concat(db)
}

/// `s` ends with a `/`.
pub open spec fn ends_with_slash(s: Seq<char>) -> bool {
    s.len() > 0 && s.last() == '/'
}

/// The connection URL of the test database: `base` with a trailing `/`, then
/// the authentication database `db`.
pub fn test_mongo_url(base: &str, db: &str) -> (r: String)
    ensures
        r@ == (if ends_with_slash(base@) {
            base@
        } else {
            base@ + "/"@
        }) + "?authSource="@ + db@,
{
    let cs = chars_of(base);
    let n = cs.len();
    if n > 0 && cs[n - 1] == '/' {
        auth_source_url(base, db)
    } else {
        let with_slash = String::from_str(base).concat("/");
        auth_source_url(with_slash.as_str(), db)
    }
}

impl Config {
    /// The settings used by the test suite, for the database `mongo_db` reached
    /// at `base_mongo_url`.
    pub fn test_config(base_mongo_url: &str, mongo_db: &str) -> (r: Config)
        ensures
            r.mongo_url@ == (if ends_with_slash(base_mongo_url@) {
                base_mongo_url@
            } else {
                base_mongo_url@ + "/"@
            }) + "?authSource="@ + mongo_db@,
            r.host@ == "127.0.0.1"@,
            r.port == 3001,
            r.rss_cache_duration == 60,
            r.brevo_api_key@ == "test_key"@,
            r.recipient_email@ == "test@example.com"@,
            r.sender_name@ == "Test Sender"@,
            r.sender_email@ == "test@sender.com"@,
            r.frontend_url@ == "http://localhost:3000"@,
            r.rss_source_url@ == "http://example.com/rss"@,
            r.rss_source_db@ == "rss_source"@,
            r.rss_source_collection@ == "rss_items"@,
    {
        Config {
            mongo_url: test_mongo_url(base_mongo_url, mongo_db),
            host: String::from_str("127.0.0.1"),
            port: 3001,
            rss_cache_duration: 60,
            brevo_api_key: String::from_str("test_key"),
            recipient_email: String::from_str("test@example.com"),
            sender_name: String::from_str("Test Sender"),
            sender_email: String::from_str("test@sender.com"),
            frontend_url: String::from_str("http://localhost:3000"),
            rss_source_url: String::from_str("http://example.com/rss"),
            rss_source_db: String::from_str("rss_source"),
            rss_source_collection: String::from_str("rss_items"),
        }
    }
}

} // verus!
