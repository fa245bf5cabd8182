//! Configuration: defaults, connection strings, and the environment
//! variables that override what the file says.

use vstd::prelude::*;
use vstd::string::StringSliceAdditionalSpecFns;
use crate::error::{Error, Result};
use crate::ids::sorted_strictly;
use crate::text::{
    str_eq, decimal, format_u64, parse_bool, parse_bool_spec, parse_u16, parse_u64, parse_u8,
    parse_unsigned, parse_usize, push_char,
};

verus! {

pub fn default_max_workers() -> (r: usize)
    ensures
        r == 8,
{
    8
}

pub fn default_curseforge_chunk_size() -> (r: usize)
    ensures
        r == 1000,
{
    1000
}

pub fn default_modrinth_chunk_size() -> (r: usize)
    ensures
        r == 100,
{
    100
}

pub fn default_curseforge_api() -> (r: String)
    ensures
        r@ == "https://api.curseforge.com"@,
{
    String::from_str("https://api.curseforge.com")
}

pub fn default_modrinth_api() -> (r: String)
    ensures
        r@ == "https://api.modrinth.com"@,
{
    String::from_str("https://api.modrinth.com")
}

pub fn default_shutdown_grace_secs() -> (r: u64)
    ensures
        r == 60,
{
    60
}

pub fn default_task_api_addr() -> (r: String)
    ensures
        r@ == "0.0.0.0:9901"@,
{
    String::from_str("0.0.0.0:9901")
}

#[derive(Debug, Clone)]
pub struct MongodbConfig {
    pub host: String,
    pub port: u16,
    pub auth: bool,
    pub user: Option<String>,
    pub password: Option<String>,
    pub database: String,
}

impl Default for MongodbConfig {
    fn default() -> (r: Self)
        ensures
            r.host@ == "localhost"@,
            r.port == 27017,
            !r.auth,
            r.user is None,
            r.password is None,
            r.database@ == "database"@,
    {
        MongodbConfig {
            host: String::from_str("localhost"),
            port: 27017,
            auth: false,
            user: None,
            password: None,
            database: String::from_str("database"),
        }
    }
}

/// A byte that a URI component may carry as it is: letters, digits, `-_.~`.
pub open spec fn is_unreserved(b: u8) -> bool {
    (65 <= b <= 90) || (97 <= b <= 122) || (48 <= b <= 57) || b == 45 || b == 95 || b == 46
        || b == 126
}

pub open spec fn hex_digit(d: int) -> char {
    if d < 10 {
        (d + 48) as char
    } else {
        (d - 10 + 65) as char
    }
}

pub open spec fn encode_byte(b: u8) -> Seq<char> {
    if is_unreserved(b) {
        seq![b as char]
    } else {
        seq!['%', hex_digit(b as int / 16), hex_digit(b as int % 16)]
    }
}

/// Percent-encoding of a byte string, byte by byte, with upper-case hex.
pub open spec fn url_encoded(bytes: Seq<u8>) -> Seq<char>
    decreases bytes.len(),
{
    if bytes.len() == 0 {
        Seq::empty()
    } else {
        url_encoded(bytes.drop_last()) + encode_byte(bytes.last())
    }
}

fn hex_char(d: u8) -> (c: char)
    requires
        d < 16,
    ensures
        c == hex_digit(d as int),
{
    if d < 10 {
        (d + 48) as char
    } else {
        (d - 10 + 65) as char
    }
}

/// Percent-encodes the UTF-8 bytes of `value`, keeping unreserved bytes.
pub fn urlencode(value: &str) -> (out: String)
    ensures
        out@ == url_encoded(encode_utf8_of(value@)),
{
    let bytes = value.as_bytes();
    let mut out = String::new();
    let mut i: usize = 0;
    while i < bytes.len()
        invariant
            i <= bytes.len(),
            bytes@ == encode_utf8_of(value@),
            out@ == url_encoded(bytes@.take(i as int)),
        decreases bytes.len() - i,
    {
        let b = bytes[i];
        assert(bytes@.take(i + 1).drop_last() =~= bytes@.take(i as int));
        if (65 <= b && b <= 90) || (97 <= b && b <= 122) || (48 <= b && b <= 57) || b == 45 || b
            == 95 || b == 46 || b == 126 {
            push_char(&mut out, b as char);
        } else {
            push_char(&mut out, '%');
            push_char(&mut out, hex_char(b / 16));
            push_char(&mut out, hex_char(b % 16));
        }
        assert(out@ =~= url_encoded(bytes@.take(i + 1)));
        i = i + 1;
    }
    assert(bytes@.take(bytes.len() as int) =~= bytes@);
    out
}

/// A percent-encoded credential is made of unreserved characters and `%`
/// alone, so it can never break the `user:password@host` shape of a URI.
pub proof fn lemma_urlencoded_is_safe(bytes: Seq<u8>)
    ensures
        forall|i: int|
            0 <= i < url_encoded(bytes).len() ==> {
                let c = #[trigger] url_encoded(bytes)[i];
                c == '%' || is_unreserved(c as u8)
            },
    decreases bytes.len(),
{
    if bytes.len() > 0 {
        lemma_urlencoded_is_safe(bytes.drop_last());
        let prefix = url_encoded(bytes.drop_last());
        let tail = encode_byte(bytes.last());
        assert forall|i: int| 0 <= i < url_encoded(bytes).len() implies {
            let c = #[trigger] url_encoded(bytes)[i];
            c == '%' || is_unreserved(c as u8)
        } by {
            if i >= prefix.len() {
                let b = bytes.last();
                if !is_unreserved(b) {
                    let h = b as int / 16;
                    let l = b as int % 16;
                    assert(0 <= h < 16);
                    assert(0 <= l < 16);
                }
            }
        }
    }
}

/// A character a percent-encoded URI component may hold: `%` or an
/// unreserved ASCII character.
pub open spec fn uri_safe(c: char) -> bool {
    c == '%' || ((c as int) < 128 && is_unreserved(c as u8))
}

/// The value of a hex digit, either case.
pub open spec fn hex_value(c: char) -> int {
    if (c as int) <= 57 {
        c as int - 48
    } else if (c as int) <= 70 {
        c as int - 55
    } else {
        c as int - 87
    }
}

/// Percent-decoding: each `%` and the two hex digits after it are one byte;
/// any other character stands for itself.
pub open spec fn url_decoded(s: Seq<char>) -> Seq<u8>
    decreases s.len(),
{
    if s.len() == 0 {
        Seq::empty()
    } else if s.len() >= 3 && s[s.len() - 3] == '%' {
        url_decoded(s.take(s.len() - 3)).push((hex_value(s[s.len() - 2]) * 16 + hex_value(s[s.len() - 1])) as u8)
    } else {
        url_decoded(s.drop_last()).push(s.last() as u8)
    }
}

proof fn lemma_hex_round_trip(d: int)
    requires
        0 <= d < 16,
    ensures
        hex_value(hex_digit(d)) == d,
{
}

/// In a percent-encoding every `%` starts a whole group, and every
/// character is safe.
proof fn lemma_encoding_shape(bytes: Seq<u8>)
    ensures
        forall|i: int| 0 <= i < url_encoded(bytes).len() ==> uri_safe(#[trigger] url_encoded(bytes)[i]),
        forall|i: int| 0 <= i < url_encoded(bytes).len() && #[trigger] url_encoded(bytes)[i] == '%' ==> i + 2
            < url_encoded(bytes).len(),
    decreases bytes.len(),
{
    if bytes.len() > 0 {
        lemma_encoding_shape(bytes.drop_last());
        let prefix = url_encoded(bytes.drop_last());
        let b = bytes.last();
        assert forall|i: int| 0 <= i < url_encoded(bytes).len() implies uri_safe(#[trigger] url_encoded(bytes)[i])
            && (url_encoded(bytes)[i] == '%' ==> i + 2 < url_encoded(bytes).len()) by {
            if i < prefix.len() {
                assert(url_encoded(bytes)[i] == prefix[i]);
            } else if !is_unreserved(b) {
                let h = b as int / 16;
                let l = b as int % 16;
                assert(0 <= h < 16);
                assert(0 <= l < 16);
            }
        }
    }
}

/// Decoding a percent-encoding gives back the bytes.
pub proof fn lemma_url_round_trip(bytes: Seq<u8>)
    ensures
        url_decoded(url_encoded(bytes)) == bytes,
    decreases bytes.len(),
{
    if bytes.len() > 0 {
        let rest = bytes.drop_last();
        let b = bytes.last();
        let prefix = url_encoded(rest);
        let s = url_encoded(bytes);
        lemma_url_round_trip(rest);
        lemma_encoding_shape(rest);
        if is_unreserved(b) {
            assert(s == prefix.push(b as char));
            if s.len() >= 3 {
                assert(s[s.len() - 3] == prefix[prefix.len() - 2]);
                assert(prefix[prefix.len() - 2] != '%');
            }
            assert(s.drop_last() =~= prefix);
        } else {
            let h = b as int / 16;
            let l = b as int % 16;
            lemma_hex_round_trip(h);
            lemma_hex_round_trip(l);
            assert(s.take(s.len() - 3) =~= prefix);
            assert(s[s.len() - 3] == '%');
        }
        assert(rest.push(b) =~= bytes);
    }
}

pub open spec fn or_empty(s: Option<String>) -> Seq<char> {
    match s {
        Some(v) => v@,
        None => Seq::empty(),
    }
}

pub open spec fn mongodb_uri_spec(c: MongodbConfig) -> Seq<char> {
    if c.auth {
        "mongodb://"@ + url_encoded(encode_utf8_of(or_empty(c.user))) + ":"@ + url_encoded(
            encode_utf8_of(or_empty(c.password)),
        ) + "@"@ + c.host@ + ":"@ + decimal(c.port as nat) + "/?authSource=admin"@
    } else {
        "mongodb://"@ + c.host@ + ":"@ + decimal(c.port as nat)
    }
}

pub open spec fn encode_utf8_of(s: Seq<char>) -> Seq<u8> {
    vstd::utf8::encode_utf8(s)
}

fn option_str(s: &Option<String>) -> (r: &str)
    ensures
        r@ == or_empty(*s),
{
    match s {
        Some(v) => v.as_str(),
        None => {
            proof {
                reveal_strlit("");
            }
            ""
        },
    }
}

impl MongodbConfig {
    /// The connection string; with `auth`, the credentials are
    /// percent-encoded and authenticated against `admin`.
    pub fn uri(&self) -> (r: String)
        ensures
            r@ == mongodb_uri_spec(*self),
    {
        let port = format_u64(self.port as u64);
        if self.auth {
            let user = urlencode(option_str(&self.user));
            let password = urlencode(option_str(&self.password));
            let s = String::from_str("mongodb://");
            let s = s.concat(user.as_str());
            let s = s.concat(":");
            let s = s.concat(password.as_str());
            let s = s.concat("@");
            let s = s.concat(self.host.as_str());
            let s = s.concat(":");
            let s = s.concat(port.as_str());
            s.concat("/?authSource=admin")
        } else {
            let s = String::from_str("mongodb://");
            let s = s.concat(self.host.as_str());
            let s = s.concat(":");
            s.concat(port.as_str())
        }
    }
}

#[derive(Debug, Clone)]
pub struct RedisConfig {
    pub host: String,
    pub port: u16,
    pub password: Option<String>,
    pub database: u8,
}

impl Default for RedisConfig {
    fn default() -> (r: Self)
        ensures
            r.host@ == "localhost"@,
            r.port == 6379,
            r.password is None,
            r.database == 0,
    {
        RedisConfig { host: String::from_str("localhost"), port: 6379, password: None, database: 0 }
    }
}

pub open spec fn redis_uri_spec(c: RedisConfig) -> Seq<char> {
    let tail = c.host@ + ":"@ + decimal(c.port as nat) + "/"@ + decimal(c.database as nat);
    match c.password {
        Some(p) => if p@.len() > 0 {
            "redis://:"@ + url_encoded(encode_utf8_of(p@)) + "@"@ + tail
        } else {
            "redis://"@ + tail
        },
        None => "redis://"@ + tail,
    }
}

impl RedisConfig {
    /// The connection string; an empty password counts as none.
    pub fn uri(&self) -> (r: String)
        ensures
            r@ == redis_uri_spec(*self),
    {
        let port = format_u64(self.port as u64);
        let database = format_u64(self.database as u64);
        let tail = self.host.clone();
        let tail = tail.concat(":");
        let tail = tail.concat(port.as_str());
        let tail = tail.concat("/");
        let tail = tail.concat(database.as_str());
        match &self.password {
            Some(p) => {
                if p.as_str().unicode_len() > 0 {
                    let encoded = urlencode(p.as_str());
                    let s = String::from_str("redis://:");
                    let s = s.concat(encoded.as_str());
                    let s = s.concat("@");
                    return s.concat(tail.as_str());
                }
            },
            None => {},
        }
        let s = String::from_str("redis://");
        s.concat(tail.as_str())
    }
}

/// With a password, the Redis connection string is `redis://:`, the
/// password percent-encoded, `@`, then host, port and database: the encoded
/// password holds only unreserved characters and `%`, so it cannot break
/// the URI's shape, and decoding it gives back the password's bytes.
pub proof fn law_redis_password_is_percent_encoded(c: RedisConfig)
    requires
        c.password matches Some(p) && p@.len() > 0,
    ensures
        ({
            let uri = redis_uri_spec(c);
            let tail = "@"@ + c.host@ + ":"@ + decimal(c.port as nat) + "/"@ + decimal(c.database as nat);
            let enc = uri.subrange(9, uri.len() - tail.len());
            &&& uri.len() >= 9 + tail.len()
            &&& uri == "redis://:"@ + enc + tail
            &&& forall|i: int| 0 <= i < enc.len() ==> uri_safe(#[trigger] enc[i])
            &&& url_decoded(enc) == encode_utf8_of(c.password->Some_0@)
        }),
{
    reveal_strlit("redis://:");
    let p = c.password->Some_0;
    let e = url_encoded(encode_utf8_of(p@));
    let uri = redis_uri_spec(c);
    let tail = "@"@ + c.host@ + ":"@ + decimal(c.port as nat) + "/"@ + decimal(c.database as nat);
    assert(uri =~= "redis://:"@ + e + tail);
    assert(uri.subrange(9, uri.len() - tail.len()) =~= e);
    lemma_encoding_shape(encode_utf8_of(p@));
    lemma_url_round_trip(encode_utf8_of(p@));
}

/// With authentication, the MongoDB connection string carries the user and
/// the password percent-encoded: each holds only unreserved characters and
/// `%`, and decodes back to the configured text.
pub proof fn law_mongodb_credentials_are_percent_encoded(c: MongodbConfig)
    requires
        c.auth,
    ensures
        exists|user: Seq<char>, password: Seq<char>|
            #![trigger url_decoded(user), url_decoded(password)]
            {
                &&& mongodb_uri_spec(c) == "mongodb://"@ + user + ":"@ + password + "@"@ + c.host@ + ":"@
                    + decimal(c.port as nat) + "/?authSource=admin"@
                &&& forall|i: int| 0 <= i < user.len() ==> uri_safe(#[trigger] user[i])
                &&& forall|i: int| 0 <= i < password.len() ==> uri_safe(#[trigger] password[i])
                &&& url_decoded(user) == encode_utf8_of(or_empty(c.user))
                &&& url_decoded(password) == encode_utf8_of(or_empty(c.password))
            },
{
    let u = url_encoded(encode_utf8_of(or_empty(c.user)));
    let p = url_encoded(encode_utf8_of(or_empty(c.password)));
    lemma_encoding_shape(encode_utf8_of(or_empty(c.user)));
    lemma_encoding_shape(encode_utf8_of(or_empty(c.password)));
    lemma_url_round_trip(encode_utf8_of(or_empty(c.user)));
    lemma_url_round_trip(encode_utf8_of(or_empty(c.password)));
    assert(url_decoded(u) == encode_utf8_of(or_empty(c.user)));
    assert(url_decoded(p) == encode_utf8_of(or_empty(c.password)));
}

/// A token bucket for one domain.
#[derive(Debug, Clone, Copy, PartialEq, Eq, Structural)]
pub struct RateLimit {
    pub capacity: u32,
    pub refill_rate: u32,
}

/// One daemon schedule entry.
#[derive(Debug, Clone)]
pub struct ScheduleEntry {
    /// A cron expression, read in UTC.
    pub cron: String,
    /// The subcommand to run, written as on the command line.
    pub args: String,
}

#[derive(Debug, Clone)]
pub struct Config {
    pub debug: bool,
    pub mongodb: MongodbConfig,
    pub redis: RedisConfig,
    /// Most concurrent requests within one task.
    pub max_workers: usize,
    /// How many ids a batch endpoint is given at once.
    pub curseforge_chunk_size: usize,
    pub modrinth_chunk_size: usize,
    pub curseforge_api: String,
    pub modrinth_api: String,
    pub curseforge_api_key: String,
    pub proxy: Option<String>,
    /// Token buckets by domain, in the order the configuration gave them.
    pub domain_rate_limits: Vec<(String, RateLimit)>,
    /// The daemon's schedule by task name, in name order; the name is only
    /// for the logs.
    pub schedule: Vec<(String, ScheduleEntry)>,
    /// Seconds left to running tasks after a stop signal.
    pub shutdown_grace_secs: u64,
    /// Where the task history API listens.
    pub task_api_addr: String,
}

/// The names of a list of named settings, in order.
pub open spec fn setting_names<V>(entries: Seq<(String, V)>) -> Seq<Seq<char>> {
    entries.map_values(|e: (String, V)| e.0@)
}

/// No name occurs twice.
pub open spec fn names_distinct(names: Seq<Seq<char>>) -> bool {
    forall|i: int, j: int| 0 <= i < j < names.len() ==> #[trigger] names[i] != #[trigger] names[j]
}

/// The schedule as a map: in name order, so no task twice.
pub open spec fn schedule_wf(schedule: Seq<(String, ScheduleEntry)>) -> bool {
    sorted_strictly(setting_names(schedule))
}

/// The rate limits as a map: no domain twice.
pub open spec fn rate_limits_wf(limits: Seq<(String, RateLimit)>) -> bool {
    names_distinct(setting_names(limits))
}

impl Config {
    /// The two mappings are maps: no name occurs twice, and the schedule
    /// is in name order.
    pub open spec fn wf(self) -> bool {
        &&& schedule_wf(self.schedule@)
        &&& rate_limits_wf(self.domain_rate_limits@)
    }
}

impl Default for Config {
    /// What an empty configuration file gives.
    fn default() -> (r: Self)
        ensures
            r.wf(),
            !r.debug,
            r.mongodb.host@ == "localhost"@ && r.mongodb.port == 27017 && !r.mongodb.auth,
            r.mongodb.user is None && r.mongodb.password is None,
            r.mongodb.database@ == "database"@,
            r.redis.host@ == "localhost"@ && r.redis.port == 6379,
            r.redis.password is None && r.redis.database == 0,
            r.max_workers == 8,
            r.curseforge_chunk_size == 1000,
            r.modrinth_chunk_size == 100,
            r.curseforge_api@ == "https://api.curseforge.com"@,
            r.modrinth_api@ == "https://api.modrinth.com"@,
            r.curseforge_api_key@ == Seq::<char>::empty(),
            r.proxy is None,
            r.domain_rate_limits@.len() == 0,
            r.schedule@.len() == 0,
            r.shutdown_grace_secs == 60,
            r.task_api_addr@ == "0.0.0.0:9901"@,
    {
        Config {
            debug: false,
            mongodb: MongodbConfig::default(),
            redis: RedisConfig::default(),
            max_workers: default_max_workers(),
            curseforge_chunk_size: default_curseforge_chunk_size(),
            modrinth_chunk_size: default_modrinth_chunk_size(),
            curseforge_api: default_curseforge_api(),
            modrinth_api: default_modrinth_api(),
            curseforge_api_key: String::new(),
            proxy: None,
            domain_rate_limits: Vec::new(),
            schedule: Vec::new(),
            shutdown_grace_secs: default_shutdown_grace_secs(),
            task_api_addr: default_task_api_addr(),
        }
    }
}


/// The environment as the process saw it: variable names and their values.
#[derive(Debug, Clone)]
pub struct Env {
    pub vars: Vec<(String, String)>,
}

/// The value of the first variable named `key`.
pub open spec fn env_lookup(vars: Seq<(String, String)>, key: Seq<char>) -> Option<Seq<char>>
    decreases vars.len(),
{
    if vars.len() == 0 {
        None
    } else if vars[0].0@ == key {
        Some(vars[0].1@)
    } else {
        env_lookup(vars.drop_first(), key)
    }
}

/// An empty value counts as unset, so an empty variable never clears a
/// configured value.
pub open spec fn env_text(vars: Seq<(String, String)>, key: Seq<char>) -> Option<Seq<char>> {
    match env_lookup(vars, key) {
        Some(v) => if v.len() > 0 { Some(v) } else { None },
        None => None,
    }
}

/// `None` when the variable is set but cannot be read as a number up to `max`.
pub open spec fn unsigned_var(vars: Seq<(String, String)>, key: Seq<char>, max: int) -> Option<Option<int>> {
    match env_text(vars, key) {
        None => Some(None),
        Some(raw) => match parse_unsigned(raw, max) {
            Some(v) => Some(Some(v)),
            None => None,
        },
    }
}

/// `None` when the variable is set but is neither `true` nor `false`.
pub open spec fn bool_var(vars: Seq<(String, String)>, key: Seq<char>) -> Option<Option<bool>> {
    match env_text(vars, key) {
        None => Some(None),
        Some(raw) => match parse_bool_spec(raw) {
            Some(v) => Some(Some(v)),
            None => None,
        },
    }
}

/// How std's `Debug` writes a string: in double quotes, with quotes,
/// backslashes and characters that do not print escaped.
pub uninterp spec fn debug_str(s: Seq<char>) -> Seq<char>;

/// std's `Debug` for `str` (`format!("{:?}", s)`), which depends on the
/// text alone, as `debug_str` names it.
#[verifier::external_body]
fn debug_quoted(s: &str) -> (r: String)
    ensures
        r@ == debug_str(s@),
{
    format!("{:?}", s)
}

pub open spec fn unparsable_message(key: Seq<char>, raw: Seq<char>) -> Seq<char> {
    key + " 的值 "@ + debug_str(raw) + " 解析不了"@
}

fn unparsable(key: &str, raw: &String) -> (e: Error)
    ensures
        e == Error::Config(e->Config_0),
        e->Config_0@ == unparsable_message(key@, raw@),
{
    let s = String::from_str(key);
    let s = s.concat(" 的值 ");
    let quoted = debug_quoted(raw.as_str());
    let s = s.concat(quoted.as_str());
    let s = s.concat(" 解析不了");
    Error::Config(s)
}

impl Env {
    /// The value of `key`, unless it is unset or empty.
    pub fn text(&self, key: &str) -> (r: Option<String>)
        ensures
            r matches Some(v) ==> env_text(self.vars@, key@) == Some(v@),
            r is None ==> env_text(self.vars@, key@) is None,
    {
        let mut i: usize = 0;
        assert(self.vars@.skip(0) =~= self.vars@);
        while i < self.vars.len()
            invariant
                i <= self.vars.len(),
                env_lookup(self.vars@, key@) == env_lookup(self.vars@.skip(i as int), key@),
            decreases self.vars.len() - i,
        {
            assert(self.vars@.skip(i as int).drop_first() =~= self.vars@.skip(i + 1));
            if str_eq(self.vars[i].0.as_str(), key) {
                let value = &self.vars[i].1;
                if value.as_str().unicode_len() > 0 {
                    return Some(value.clone());
                } else {
                    return None;
                }
            }
            i = i + 1;
        }
        assert(self.vars@.skip(i as int) =~= Seq::<(String, String)>::empty());
        None
    }

    pub fn parse_bool(&self, key: &str) -> (r: Result<Option<bool>>)
        ensures
            r matches Ok(v) ==> bool_var(self.vars@, key@) == Some(v),
            r matches Err(e) ==> bool_var(self.vars@, key@) is None && e is Config
                && e->Config_0@ == unparsable_message(key@, env_text(self.vars@, key@).unwrap()),
    {
        match self.text(key) {
            None => Ok(None),
            Some(raw) => match parse_bool(raw.as_str()) {
                Some(v) => Ok(Some(v)),
                None => Err(unparsable(key, &raw)),
            },
        }
    }

    pub fn parse_u16(&self, key: &str) -> (r: Result<Option<u16>>)
        ensures
            r matches Ok(v) ==> unsigned_var(self.vars@, key@, u16::MAX as int) == Some(
                match v { Some(x) => Some(x as int), None => None },
            ),
            r matches Err(e) ==> unsigned_var(self.vars@, key@, u16::MAX as int) is None && e is Config
                && e->Config_0@ == unparsable_message(key@, env_text(self.vars@, key@).unwrap()),
    {
        match self.text(key) {
            None => Ok(None),
            Some(raw) => match parse_u16(raw.as_str()) {
                Some(v) => Ok(Some(v)),
                None => Err(unparsable(key, &raw)),
            },
        }
    }

    pub fn parse_u8(&self, key: &str) -> (r: Result<Option<u8>>)
        ensures
            r matches Ok(v) ==> unsigned_var(self.vars@, key@, u8::MAX as int) == Some(
                match v { Some(x) => Some(x as int), None => None },
            ),
            r matches Err(e) ==> unsigned_var(self.vars@, key@, u8::MAX as int) is None && e is Config
                && e->Config_0@ == unparsable_message(key@, env_text(self.vars@, key@).unwrap()),
    {
        match self.text(key) {
            None => Ok(None),
            Some(raw) => match parse_u8(raw.as_str()) {
                Some(v) => Ok(Some(v)),
                None => Err(unparsable(key, &raw)),
            },
        }
    }

    pub fn parse_usize(&self, key: &str) -> (r: Result<Option<usize>>)
        ensures
            r matches Ok(v) ==> unsigned_var(self.vars@, key@, usize::MAX as int) == Some(
                match v { Some(x) => Some(x as int), None => None },
            ),
            r matches Err(e) ==> unsigned_var(self.vars@, key@, usize::MAX as int) is None && e is Config
                && e->Config_0@ == unparsable_message(key@, env_text(self.vars@, key@).unwrap()),
    {
        match self.text(key) {
            None => Ok(None),
            Some(raw) => match parse_usize(raw.as_str()) {
                Some(v) => Ok(Some(v)),
                None => Err(unparsable(key, &raw)),
            },
        }
    }

    pub fn parse_u64(&self, key: &str) -> (r: Result<Option<u64>>)
        ensures
            r matches Ok(v) ==> unsigned_var(self.vars@, key@, u64::MAX as int) == Some(
                match v { Some(x) => Some(x as int), None => None },
            ),
            r matches Err(e) ==> unsigned_var(self.vars@, key@, u64::MAX as int) is None && e is Config
                && e->Config_0@ == unparsable_message(key@, env_text(self.vars@, key@).unwrap()),
    {
        match self.text(key) {
            None => Ok(None),
            Some(raw) => match parse_u64(raw.as_str()) {
                Some(v) => Ok(Some(v)),
                None => Err(unparsable(key, &raw)),
            },
        }
    }
}


/// The two mapping settings, which an environment variable can only replace
/// whole, as JSON. `None` when the variable is unset or empty; otherwise
/// what reading the JSON gave, or why it could not be read.
pub struct MapOverrides {
    pub domain_rate_limits: Option<std::result::Result<Vec<(String, RateLimit)>, String>>,
    pub schedule: Option<std::result::Result<Vec<(String, ScheduleEntry)>, String>>,
}

impl MapOverrides {
    /// Each mapping that was read is a map, as `Config::wf` asks.
    pub open spec fn wf(self) -> bool {
        &&& (self.schedule matches Some(Ok(v)) ==> schedule_wf(v@))
        &&& (self.domain_rate_limits matches Some(Ok(v)) ==> rate_limits_wf(v@))
    }
}

pub open spec fn opt_view(o: Option<String>) -> Option<Seq<char>> {
    match o {
        Some(s) => Some(s@),
        None => None,
    }
}

pub open spec fn text_or(vars: Seq<(String, String)>, key: Seq<char>, old: Seq<char>) -> Seq<char> {
    match env_text(vars, key) {
        Some(v) => v,
        None => old,
    }
}

pub open spec fn opt_text_or(vars: Seq<(String, String)>, key: Seq<char>, old: Option<Seq<char>>) -> Option<Seq<char>> {
    match env_text(vars, key) {
        Some(v) => Some(v),
        None => old,
    }
}

pub open spec fn int_or(r: Option<Option<int>>, old: int) -> int {
    match r {
        Some(Some(v)) => v,
        _ => old,
    }
}

pub open spec fn bool_or(r: Option<Option<bool>>, old: bool) -> bool {
    match r {
        Some(Some(v)) => v,
        _ => old,
    }
}

/// What the error says of a variable that is set but cannot be read.
pub open spec fn unparsable_var(vars: Seq<(String, String)>, key: Seq<char>) -> Seq<char> {
    unparsable_message(key, env_text(vars, key).unwrap())
}

/// The first override, in the order they are read, that cannot be used,
/// as the error tells it; none when all can.
pub open spec fn override_error(vars: Seq<(String, String)>, maps: MapOverrides) -> Option<Seq<char>> {
    if bool_var(vars, "MCIM_DEBUG"@) is None {
        Some(unparsable_var(vars, "MCIM_DEBUG"@))
    } else if unsigned_var(vars, "MCIM_MONGODB_PORT"@, u16::MAX as int) is None {
        Some(unparsable_var(vars, "MCIM_MONGODB_PORT"@))
    } else if bool_var(vars, "MCIM_MONGODB_AUTH"@) is None {
        Some(unparsable_var(vars, "MCIM_MONGODB_AUTH"@))
    } else if unsigned_var(vars, "MCIM_REDIS_PORT"@, u16::MAX as int) is None {
        Some(unparsable_var(vars, "MCIM_REDIS_PORT"@))
    } else if unsigned_var(vars, "MCIM_REDIS_DATABASE"@, u8::MAX as int) is None {
        Some(unparsable_var(vars, "MCIM_REDIS_DATABASE"@))
    } else if unsigned_var(vars, "MCIM_MAX_WORKERS"@, usize::MAX as int) is None {
        Some(unparsable_var(vars, "MCIM_MAX_WORKERS"@))
    } else if unsigned_var(vars, "MCIM_CURSEFORGE_CHUNK_SIZE"@, usize::MAX as int) is None {
        Some(unparsable_var(vars, "MCIM_CURSEFORGE_CHUNK_SIZE"@))
    } else if unsigned_var(vars, "MCIM_MODRINTH_CHUNK_SIZE"@, usize::MAX as int) is None {
        Some(unparsable_var(vars, "MCIM_MODRINTH_CHUNK_SIZE"@))
    } else if maps.domain_rate_limits matches Some(Err(_)) {
        match maps.domain_rate_limits {
            Some(Err(reason)) => Some(bad_json_message("MCIM_DOMAIN_RATE_LIMITS"@, reason@)),
            _ => None,
        }
    } else if maps.schedule matches Some(Err(_)) {
        match maps.schedule {
            Some(Err(reason)) => Some(bad_json_message("MCIM_SCHEDULE"@, reason@)),
            _ => None,
        }
    } else if unsigned_var(vars, "MCIM_SHUTDOWN_GRACE_SECS"@, u64::MAX as int) is None {
        Some(unparsable_var(vars, "MCIM_SHUTDOWN_GRACE_SECS"@))
    } else {
        None
    }
}

/// Every variable that is set can be read, and both JSON mappings parsed.
pub open spec fn overrides_valid(vars: Seq<(String, String)>, maps: MapOverrides) -> bool {
    &&& bool_var(vars, "MCIM_DEBUG"@) is Some
    &&& unsigned_var(vars, "MCIM_MONGODB_PORT"@, u16::MAX as int) is Some
    &&& bool_var(vars, "MCIM_MONGODB_AUTH"@) is Some
    &&& unsigned_var(vars, "MCIM_REDIS_PORT"@, u16::MAX as int) is Some
    &&& unsigned_var(vars, "MCIM_REDIS_DATABASE"@, u8::MAX as int) is Some
    &&& unsigned_var(vars, "MCIM_MAX_WORKERS"@, usize::MAX as int) is Some
    &&& unsigned_var(vars, "MCIM_CURSEFORGE_CHUNK_SIZE"@, usize::MAX as int) is Some
    &&& unsigned_var(vars, "MCIM_MODRINTH_CHUNK_SIZE"@, usize::MAX as int) is Some
    &&& !(maps.domain_rate_limits matches Some(Err(_)))
    &&& !(maps.schedule matches Some(Err(_)))
    &&& unsigned_var(vars, "MCIM_SHUTDOWN_GRACE_SECS"@, u64::MAX as int) is Some
}

/// A variable that is unset, or set to the empty string, overrides nothing
/// and cannot be an error: whatever the file, or the default, gave stands.
pub proof fn law_unset_variable_overrides_nothing(
    vars: Seq<(String, String)>,
    key: Seq<char>,
    text: Seq<char>,
    opt: Option<Seq<char>>,
    n: int,
    max: int,
    b: bool,
)
    requires
        match env_lookup(vars, key) {
            Some(v) => v.len() == 0,
            None => true,
        },
    ensures
        text_or(vars, key, text) == text,
        opt_text_or(vars, key, opt) == opt,
        unsigned_var(vars, key, max) == Some(None::<int>),
        int_or(unsigned_var(vars, key, max), n) == n,
        bool_var(vars, key) == Some(None::<bool>),
        bool_or(bool_var(vars, key), b) == b,
{
}

pub open spec fn bad_json_message(key: Seq<char>, reason: Seq<char>) -> Seq<char> {
    key + " 不是合法 JSON: "@ + reason
}

fn bad_json(key: &str, reason: &String) -> (e: Error)
    ensures
        e is Config,
        e->Config_0@ == bad_json_message(key@, reason@),
{
    let s = String::from_str(key);
    let s = s.concat(" 不是合法 JSON: ");
    Error::Config(s.concat(reason.as_str()))
}

/// When `on`, the variable `key`, if set, replaces `target`.
fn text_override(env: &Env, key: &str, target: &mut String, on: bool)
    ensures
        final(target)@ == (if on { text_or(env.vars@, key@, old(target)@) } else { old(target)@ }),
{
    if on {
        if let Some(v) = env.text(key) {
            *target = v;
        }
    }
}

/// When `on`, the variable `key`, if set, replaces `target`.
fn opt_text_override(env: &Env, key: &str, target: &mut Option<String>, on: bool)
    ensures
        opt_view(*final(target)) == (if on {
            opt_text_or(env.vars@, key@, opt_view(*old(target)))
        } else {
            opt_view(*old(target))
        }),
{
    if on {
        if let Some(v) = env.text(key) {
            *target = Some(v);
        }
    }
}

/// When `on`, a value that was read replaces `target`.
fn set_read<T: Copy>(target: &mut T, value: &Result<Option<T>>, on: bool)
    ensures
        *final(target) == (match *value {
            Ok(Some(v)) => if on { v } else { *old(target) },
            _ => *old(target),
        }),
{
    if on {
        if let Ok(Some(v)) = value {
            *target = *v;
        }
    }
}

/// How far the overrides get, counting the settings in the order they are
/// read: up to the first variable that is set but cannot be read (or JSON
/// mapping that could not be parsed), or all of them.
pub open spec fn override_stage(vars: Seq<(String, String)>, maps: MapOverrides) -> int {
    if bool_var(vars, "MCIM_DEBUG"@) is None {
        0
    } else if unsigned_var(vars, "MCIM_MONGODB_PORT"@, u16::MAX as int) is None {
        2
    } else if bool_var(vars, "MCIM_MONGODB_AUTH"@) is None {
        3
    } else if unsigned_var(vars, "MCIM_REDIS_PORT"@, u16::MAX as int) is None {
        8
    } else if unsigned_var(vars, "MCIM_REDIS_DATABASE"@, u8::MAX as int) is None {
        10
    } else if unsigned_var(vars, "MCIM_MAX_WORKERS"@, usize::MAX as int) is None {
        11
    } else if unsigned_var(vars, "MCIM_CURSEFORGE_CHUNK_SIZE"@, usize::MAX as int) is None {
        12
    } else if unsigned_var(vars, "MCIM_MODRINTH_CHUNK_SIZE"@, usize::MAX as int) is None {
        13
    } else if maps.domain_rate_limits matches Some(Err(_)) {
        19
    } else if maps.schedule matches Some(Err(_)) {
        20
    } else if unsigned_var(vars, "MCIM_SHUTDOWN_GRACE_SECS"@, u64::MAX as int) is None {
        21
    } else {
        22
    }
}

/// `new` is `old` with the overrides of the first `upto` settings, in the
/// order they are read, applied, and the rest as they were.
pub open spec fn overrides_applied(
    old: Config,
    new: Config,
    vars: Seq<(String, String)>,
    maps: MapOverrides,
    upto: int,
) -> bool {
    &&& new.debug == (if 0 < upto { bool_or(bool_var(vars, "MCIM_DEBUG"@), old.debug) } else { old.debug })
    &&& new.mongodb.host@ == (if 1 < upto { text_or(vars, "MCIM_MONGODB_HOST"@, old.mongodb.host@) } else { old.mongodb.host@ })
    &&& new.mongodb.port == (if 2 < upto { int_or(unsigned_var(vars, "MCIM_MONGODB_PORT"@, u16::MAX as int), old.mongodb.port as int) } else { old.mongodb.port as int })
    &&& new.mongodb.auth == (if 3 < upto { bool_or(bool_var(vars, "MCIM_MONGODB_AUTH"@), old.mongodb.auth) } else { old.mongodb.auth })
    &&& opt_view(new.mongodb.user) == (if 4 < upto { opt_text_or(vars, "MCIM_MONGODB_USER"@, opt_view(old.mongodb.user)) } else { opt_view(old.mongodb.user) })
    &&& opt_view(new.mongodb.password) == (if 5 < upto { opt_text_or(vars, "MCIM_MONGODB_PASSWORD"@, opt_view(old.mongodb.password)) } else { opt_view(old.mongodb.password) })
    &&& new.mongodb.database@ == (if 6 < upto { text_or(vars, "MCIM_MONGODB_DATABASE"@, old.mongodb.database@) } else { old.mongodb.database@ })
    &&& new.redis.host@ == (if 7 < upto { text_or(vars, "MCIM_REDIS_HOST"@, old.redis.host@) } else { old.redis.host@ })
    &&& new.redis.port == (if 8 < upto { int_or(unsigned_var(vars, "MCIM_REDIS_PORT"@, u16::MAX as int), old.redis.port as int) } else { old.redis.port as int })
    &&& opt_view(new.redis.password) == (if 9 < upto { opt_text_or(vars, "MCIM_REDIS_PASSWORD"@, opt_view(old.redis.password)) } else { opt_view(old.redis.password) })
    &&& new.redis.database == (if 10 < upto { int_or(unsigned_var(vars, "MCIM_REDIS_DATABASE"@, u8::MAX as int), old.redis.database as int) } else { old.redis.database as int })
    &&& new.max_workers == (if 11 < upto { int_or(unsigned_var(vars, "MCIM_MAX_WORKERS"@, usize::MAX as int), old.max_workers as int) } else { old.max_workers as int })
    &&& new.curseforge_chunk_size == (if 12 < upto { int_or(unsigned_var(vars, "MCIM_CURSEFORGE_CHUNK_SIZE"@, usize::MAX as int), old.curseforge_chunk_size as int) } else { old.curseforge_chunk_size as int })
    &&& new.modrinth_chunk_size == (if 13 < upto { int_or(unsigned_var(vars, "MCIM_MODRINTH_CHUNK_SIZE"@, usize::MAX as int), old.modrinth_chunk_size as int) } else { old.modrinth_chunk_size as int })
    &&& new.curseforge_api@ == (if 14 < upto { text_or(vars, "MCIM_CURSEFORGE_API"@, old.curseforge_api@) } else { old.curseforge_api@ })
    &&& new.modrinth_api@ == (if 15 < upto { text_or(vars, "MCIM_MODRINTH_API"@, old.modrinth_api@) } else { old.modrinth_api@ })
    &&& new.curseforge_api_key@ == (if 16 < upto { text_or(vars, "MCIM_CURSEFORGE_API_KEY"@, old.curseforge_api_key@) } else { old.curseforge_api_key@ })
    &&& opt_view(new.proxy) == (if 17 < upto { opt_text_or(vars, "MCIM_PROXY"@, opt_view(old.proxy)) } else { opt_view(old.proxy) })
    &&& new.task_api_addr@ == (if 18 < upto { text_or(vars, "MCIM_TASK_API_ADDR"@, old.task_api_addr@) } else { old.task_api_addr@ })
    &&& new.domain_rate_limits == (if 19 < upto && maps.domain_rate_limits matches Some(Ok(_)) {
        maps.domain_rate_limits->Some_0->Ok_0
    } else {
        old.domain_rate_limits
    })
    &&& new.schedule == (if 20 < upto && maps.schedule matches Some(Ok(_)) {
        maps.schedule->Some_0->Ok_0
    } else {
        old.schedule
    })
    &&& new.shutdown_grace_secs == (if 21 < upto { int_or(unsigned_var(vars, "MCIM_SHUTDOWN_GRACE_SECS"@, u64::MAX as int), old.shutdown_grace_secs as int) } else { old.shutdown_grace_secs as int })
}

/// When every override can be read, each variable that is set replaces
/// its setting with the value it reads as (a mapping with what its JSON
/// gave), and each setting whose variable is unset, or empty, keeps its
/// value.
pub proof fn law_valid_overrides_replace_each_setting(
    old: Config,
    new: Config,
    vars: Seq<(String, String)>,
    maps: MapOverrides,
)
    requires
        overrides_valid(vars, maps),
        overrides_applied(old, new, vars, maps, override_stage(vars, maps)),
    ensures
        bool_var(vars, "MCIM_DEBUG"@) matches Some(Some(b)) ==> new.debug == b,
        env_text(vars, "MCIM_DEBUG"@) is None ==> new.debug == old.debug,
        bool_var(vars, "MCIM_MONGODB_AUTH"@) matches Some(Some(b)) ==> new.mongodb.auth == b,
        env_text(vars, "MCIM_MONGODB_AUTH"@) is None ==> new.mongodb.auth == old.mongodb.auth,
        unsigned_var(vars, "MCIM_MONGODB_PORT"@, u16::MAX as int) matches Some(Some(n)) ==> new.mongodb.port == n,
        env_text(vars, "MCIM_MONGODB_PORT"@) is None ==> new.mongodb.port == old.mongodb.port,
        unsigned_var(vars, "MCIM_REDIS_PORT"@, u16::MAX as int) matches Some(Some(n)) ==> new.redis.port == n,
        env_text(vars, "MCIM_REDIS_PORT"@) is None ==> new.redis.port == old.redis.port,
        unsigned_var(vars, "MCIM_REDIS_DATABASE"@, u8::MAX as int) matches Some(Some(n)) ==> new.redis.database == n,
        env_text(vars, "MCIM_REDIS_DATABASE"@) is None ==> new.redis.database == old.redis.database,
        unsigned_var(vars, "MCIM_MAX_WORKERS"@, usize::MAX as int) matches Some(Some(n)) ==> new.max_workers == n,
        env_text(vars, "MCIM_MAX_WORKERS"@) is None ==> new.max_workers == old.max_workers,
        unsigned_var(vars, "MCIM_CURSEFORGE_CHUNK_SIZE"@, usize::MAX as int) matches Some(Some(n)) ==> new.curseforge_chunk_size == n,
        env_text(vars, "MCIM_CURSEFORGE_CHUNK_SIZE"@) is None ==> new.curseforge_chunk_size == old.curseforge_chunk_size,
        unsigned_var(vars, "MCIM_MODRINTH_CHUNK_SIZE"@, usize::MAX as int) matches Some(Some(n)) ==> new.modrinth_chunk_size == n,
        env_text(vars, "MCIM_MODRINTH_CHUNK_SIZE"@) is None ==> new.modrinth_chunk_size == old.modrinth_chunk_size,
        unsigned_var(vars, "MCIM_SHUTDOWN_GRACE_SECS"@, u64::MAX as int) matches Some(Some(n)) ==> new.shutdown_grace_secs == n,
        env_text(vars, "MCIM_SHUTDOWN_GRACE_SECS"@) is None ==> new.shutdown_grace_secs == old.shutdown_grace_secs,
        env_text(vars, "MCIM_MONGODB_HOST"@) matches Some(t) ==> new.mongodb.host@ == t,
        env_text(vars, "MCIM_MONGODB_HOST"@) is None ==> new.mongodb.host@ == old.mongodb.host@,
        env_text(vars, "MCIM_MONGODB_DATABASE"@) matches Some(t) ==> new.mongodb.database@ == t,
        env_text(vars, "MCIM_MONGODB_DATABASE"@) is None ==> new.mongodb.database@ == old.mongodb.database@,
        env_text(vars, "MCIM_REDIS_HOST"@) matches Some(t) ==> new.redis.host@ == t,
        env_text(vars, "MCIM_REDIS_HOST"@) is None ==> new.redis.host@ == old.redis.host@,
        env_text(vars, "MCIM_CURSEFORGE_API"@) matches Some(t) ==> new.curseforge_api@ == t,
        env_text(vars, "MCIM_CURSEFORGE_API"@) is None ==> new.curseforge_api@ == old.curseforge_api@,
        env_text(vars, "MCIM_MODRINTH_API"@) matches Some(t) ==> new.modrinth_api@ == t,
        env_text(vars, "MCIM_MODRINTH_API"@) is None ==> new.modrinth_api@ == old.modrinth_api@,
        env_text(vars, "MCIM_CURSEFORGE_API_KEY"@) matches Some(t) ==> new.curseforge_api_key@ == t,
        env_text(vars, "MCIM_CURSEFORGE_API_KEY"@) is None ==> new.curseforge_api_key@ == old.curseforge_api_key@,
        env_text(vars, "MCIM_TASK_API_ADDR"@) matches Some(t) ==> new.task_api_addr@ == t,
        env_text(vars, "MCIM_TASK_API_ADDR"@) is None ==> new.task_api_addr@ == old.task_api_addr@,
        env_text(vars, "MCIM_MONGODB_USER"@) matches Some(t) ==> new.mongodb.user matches Some(v) && v@ == t,
        env_text(vars, "MCIM_MONGODB_USER"@) is None ==> opt_view(new.mongodb.user) == opt_view(old.mongodb.user),
        env_text(vars, "MCIM_MONGODB_PASSWORD"@) matches Some(t) ==> new.mongodb.password matches Some(v) && v@ == t,
        env_text(vars, "MCIM_MONGODB_PASSWORD"@) is None ==> opt_view(new.mongodb.password) == opt_view(old.mongodb.password),
        env_text(vars, "MCIM_REDIS_PASSWORD"@) matches Some(t) ==> new.redis.password matches Some(v) && v@ == t,
        env_text(vars, "MCIM_REDIS_PASSWORD"@) is None ==> opt_view(new.redis.password) == opt_view(old.redis.password),
        env_text(vars, "MCIM_PROXY"@) matches Some(t) ==> new.proxy matches Some(v) && v@ == t,
        env_text(vars, "MCIM_PROXY"@) is None ==> opt_view(new.proxy) == opt_view(old.proxy),
        maps.domain_rate_limits matches Some(Ok(v)) ==> new.domain_rate_limits == v,
        maps.domain_rate_limits is None ==> new.domain_rate_limits == old.domain_rate_limits,
        maps.schedule matches Some(Ok(v)) ==> new.schedule == v,
        maps.schedule is None ==> new.schedule == old.schedule,
{
    assert(override_stage(vars, maps) == 22);
}

/// A value that cannot be read stops the overriding where it stands: the
/// settings read before it take their variables, the ones read after it
/// keep their values, and so do the mappings when the bad value comes
/// first.
pub proof fn law_bad_override_stops_there(old: Config, new: Config, vars: Seq<(String, String)>, maps: MapOverrides)
    requires
        !overrides_valid(vars, maps),
        overrides_applied(old, new, vars, maps, override_stage(vars, maps)),
    ensures
        new.shutdown_grace_secs == old.shutdown_grace_secs,
        bool_var(vars, "MCIM_DEBUG"@) is None ==> {
            &&& new.debug == old.debug
            &&& new.mongodb.host@ == old.mongodb.host@
            &&& new.max_workers == old.max_workers
            &&& new.schedule == old.schedule
            &&& new.domain_rate_limits == old.domain_rate_limits
        },
        unsigned_var(vars, "MCIM_REDIS_PORT"@, u16::MAX as int) is None && bool_var(vars, "MCIM_DEBUG"@) is Some
            && unsigned_var(vars, "MCIM_MONGODB_PORT"@, u16::MAX as int) is Some
            && bool_var(vars, "MCIM_MONGODB_AUTH"@) is Some ==> {
            &&& (env_text(vars, "MCIM_MONGODB_HOST"@) matches Some(t) ==> new.mongodb.host@ == t)
            &&& (bool_var(vars, "MCIM_MONGODB_AUTH"@) matches Some(Some(b)) ==> new.mongodb.auth == b)
            &&& new.redis.port == old.redis.port
            &&& new.max_workers == old.max_workers
            &&& opt_view(new.proxy) == opt_view(old.proxy)
        },
{
}

impl Config {
    /// Lets the environment override the file: a container can run with no
    /// configuration file at all. Scalars are overridden one by one, in a
    /// fixed order; the two mappings only whole. A value that is set but
    /// cannot be read is an error, and stops the overriding there: what
    /// came before it is applied, what comes after it is not.
    pub fn apply_overrides(&mut self, env: &Env, maps: MapOverrides) -> (r: Result<()>)
        ensures
            r is Ok <==> overrides_valid(env.vars@, maps),
            r matches Err(e) ==> e is Config && override_error(env.vars@, maps) == Some(e->Config_0@),
            overrides_applied(*old(self), *final(self), env.vars@, maps, override_stage(env.vars@, maps)),
            old(self).wf() && maps.wf() ==> final(self).wf(),
    {
        // Every value is read first; then the settings before the first one
        // that cannot be read are applied, in order, and that one's error is
        // the result.
        let debug = env.parse_bool("MCIM_DEBUG");
        let mongodb_port = env.parse_u16("MCIM_MONGODB_PORT");
        let mongodb_auth = env.parse_bool("MCIM_MONGODB_AUTH");
        let redis_port = env.parse_u16("MCIM_REDIS_PORT");
        let redis_database = env.parse_u8("MCIM_REDIS_DATABASE");
        let max_workers = env.parse_usize("MCIM_MAX_WORKERS");
        let curseforge_chunk = env.parse_usize("MCIM_CURSEFORGE_CHUNK_SIZE");
        let modrinth_chunk = env.parse_usize("MCIM_MODRINTH_CHUNK_SIZE");
        let rate_limits_bad = matches!(maps.domain_rate_limits, Some(Err(_)));
        let schedule_bad = matches!(maps.schedule, Some(Err(_)));
        let grace = env.parse_u64("MCIM_SHUTDOWN_GRACE_SECS");

        let stage: u8 = if debug.is_err() {
            0
        } else if mongodb_port.is_err() {
            2
        } else if mongodb_auth.is_err() {
            3
        } else if redis_port.is_err() {
            8
        } else if redis_database.is_err() {
            10
        } else if max_workers.is_err() {
            11
        } else if curseforge_chunk.is_err() {
            12
        } else if modrinth_chunk.is_err() {
            13
        } else if rate_limits_bad {
            19
        } else if schedule_bad {
            20
        } else if grace.is_err() {
            21
        } else {
            22
        };
        assert(stage == override_stage(env.vars@, maps));

        set_read(&mut self.debug, &debug, stage > 0);
        text_override(env, "MCIM_MONGODB_HOST", &mut self.mongodb.host, stage > 1);
        set_read(&mut self.mongodb.port, &mongodb_port, stage > 2);
        set_read(&mut self.mongodb.auth, &mongodb_auth, stage > 3);
        opt_text_override(env, "MCIM_MONGODB_USER", &mut self.mongodb.user, stage > 4);
        opt_text_override(env, "MCIM_MONGODB_PASSWORD", &mut self.mongodb.password, stage > 5);
        text_override(env, "MCIM_MONGODB_DATABASE", &mut self.mongodb.database, stage > 6);
        text_override(env, "MCIM_REDIS_HOST", &mut self.redis.host, stage > 7);
        set_read(&mut self.redis.port, &redis_port, stage > 8);
        opt_text_override(env, "MCIM_REDIS_PASSWORD", &mut self.redis.password, stage > 9);
        set_read(&mut self.redis.database, &redis_database, stage > 10);
        set_read(&mut self.max_workers, &max_workers, stage > 11);
        set_read(&mut self.curseforge_chunk_size, &curseforge_chunk, stage > 12);
        set_read(&mut self.modrinth_chunk_size, &modrinth_chunk, stage > 13);
        text_override(env, "MCIM_CURSEFORGE_API", &mut self.curseforge_api, stage > 14);
        text_override(env, "MCIM_MODRINTH_API", &mut self.modrinth_api, stage > 15);
        text_override(env, "MCIM_CURSEFORGE_API_KEY", &mut self.curseforge_api_key, stage > 16);
        opt_text_override(env, "MCIM_PROXY", &mut self.proxy, stage > 17);
        text_override(env, "MCIM_TASK_API_ADDR", &mut self.task_api_addr, stage > 18);
        let mut bad_json_reason: Option<Error> = None;
        match maps.domain_rate_limits {
            Some(Ok(v)) => {
                if stage > 19 {
                    self.domain_rate_limits = v;
                }
            },
            Some(Err(reason)) => {
                bad_json_reason = Some(bad_json("MCIM_DOMAIN_RATE_LIMITS", &reason));
            },
            None => {},
        }
        match maps.schedule {
            Some(Ok(v)) => {
                if stage > 20 {
                    self.schedule = v;
                }
            },
            Some(Err(reason)) => {
                if !rate_limits_bad {
                    bad_json_reason = Some(bad_json("MCIM_SCHEDULE", &reason));
                }
            },
            None => {},
        }
        set_read(&mut self.shutdown_grace_secs, &grace, stage > 21);

        if let Err(e) = debug {
            Err(e)
        } else if let Err(e) = mongodb_port {
            Err(e)
        } else if let Err(e) = mongodb_auth {
            Err(e)
        } else if let Err(e) = redis_port {
            Err(e)
        } else if let Err(e) = redis_database {
            Err(e)
        } else if let Err(e) = max_workers {
            Err(e)
        } else if let Err(e) = curseforge_chunk {
            Err(e)
        } else if let Err(e) = modrinth_chunk {
            Err(e)
        } else if let Some(e) = bad_json_reason {
            Err(e)
        } else if let Err(e) = grace {
            Err(e)
        } else {
            Ok(())
        }
    }
}

} // verus!
