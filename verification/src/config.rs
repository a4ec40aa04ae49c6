//! Typed configuration model and environment resolver. The environment is
//! resolved once from the values of two process variables, then selects the
//! configuration file; the loader merges file entries with an
//! environment-variable overlay and validates the result into typed sections.

use vstd::prelude::*;
use vstd::string::*;
use crate::error::AppError;
use crate::text::{all_digits, dec_u16, dec_val, has_prefix, lower_of, lowercase, parse_u16,
    spec_dec, str_eq};
use crate::yaml::{entries_view, is_parse_error, parse_entries, parse_spec, Entry, EntryV};

verus! {

/// The named deployment context, resolved once at startup.
pub enum Environment {
    Development,
    Production,
    Testing,
    Other(String),
}

/// The canonical name of an environment, as it appears in its file name.
pub open spec fn env_name(e: &Environment) -> Seq<char> {
    match e {
        Environment::Development => "development"@,
        Environment::Production => "production"@,
        Environment::Testing => "testing"@,
        Environment::Other(s) => s@,
    }
}

/// The environment an already lower-cased name denotes: the three known
/// names and their short forms, and anything else verbatim.
pub open spec fn env_rep_lowered(e: &Environment, low: Seq<char>) -> bool {
    if low == "development"@ || low == "dev"@ {
        e is Development
    } else if low == "production"@ || low == "prod"@ {
        e is Production
    } else if low == "testing"@ || low == "test"@ {
        e is Testing
    } else {
        e matches Environment::Other(s) && s@ == low
    }
}

/// Which environment a raw variable value denotes: its lowercase form is
/// matched against the known names; anything else is kept verbatim,
/// lower-cased. The result is fixed entirely by the lower-cased input.
pub open spec fn env_rep(e: &Environment, raw: Seq<char>) -> bool {
    env_rep_lowered(e, lower_of(raw))
}

impl Environment {
    /// The environment denoted by a name that is already lower-cased.
    pub fn from_lowered(low: &str) -> (r: Environment)
        ensures
            env_rep_lowered(&r, low@),
    {
        if str_eq(low, "development") || str_eq(low, "dev") {
            Environment::Development
        } else if str_eq(low, "production") || str_eq(low, "prod") {
            Environment::Production
        } else if str_eq(low, "testing") || str_eq(low, "test") {
            Environment::Testing
        } else {
            Environment::Other(String::from_str(low))
        }
    }

    /// The environment denoted by a raw variable value.
    pub fn from_name(raw: &str) -> (r: Environment)
        ensures
            env_rep(&r, raw@),
    {
        let low: String = lowercase(raw);
        Environment::from_lowered(low.as_str())
    }

    /// Resolves the active environment from the values of the preferred and
    /// fallback process variables; unset means the default environment.
    pub fn resolve(primary: Option<&str>, fallback: Option<&str>) -> (r: Environment)
        ensures
            primary matches Some(p) ==> env_rep(&r, p@),
            primary is None ==> (fallback matches Some(f) ==> env_rep(&r, f@)),
            primary is None && fallback is None ==> r is Development,
    {
        match primary {
            Some(p) => Environment::from_name(p),
            None => match fallback {
                Some(f) => Environment::from_name(f),
                None => Environment::Development,
            },
        }
    }

    /// The environment's canonical name.
    pub fn name(&self) -> (r: String)
        ensures
            r@ == env_name(self),
    {
        match self {
            Environment::Development => String::from_str("development"),
            Environment::Production => String::from_str("production"),
            Environment::Testing => String::from_str("testing"),
            Environment::Other(s) => s.clone(),
        }
    }

    /// The name of the configuration file this environment selects.
    pub fn config_file_name(&self) -> (r: String)
        ensures
            r@ == env_name(self) + ".yaml"@,
    {
        let mut s: String = self.name();
        s.append(".yaml");
        s
    }
}

impl Default for Environment {
    fn default() -> (r: Environment)
        ensures
            r is Development,
    {
        Environment::Development
    }
}

#[derive(Clone, Debug)]
pub struct ServerConfig {
    pub protocol: String,
    pub host: String,
    pub port: u16,
}

impl ServerConfig {
    /// The socket address `host:port`.
    pub fn address(&self) -> (r: String)
        ensures
            r@ == self.host@ + ":"@ + spec_dec(self.port as nat),
    {
        let mut s: String = self.host.clone();
        s.append(":");
        let p: String = dec_u16(self.port);
        s.append(p.as_str());
        s
    }

    /// The service URL `protocol://host:port`.
    pub fn url(&self) -> (r: String)
        ensures
            r@ == self.protocol@ + "://"@ + self.host@ + ":"@ + spec_dec(self.port as nat),
    {
        let mut s: String = self.protocol.clone();
        s.append("://");
        let a: String = self.address();
        s.append(a.as_str());
        proof {
            assert(s@ =~= self.protocol@ + "://"@ + self.host@ + ":"@ + spec_dec(
                self.port as nat,
            ));
        }
        s
    }
}

/// Logging sink configuration.
#[derive(Clone, Debug)]
pub struct Logger {
    pub level: String,
}

/// Connection parameters for the relational store.
#[derive(Clone, Debug)]
pub struct DatabaseConfig {
    pub url: String,
}

/// Connection parameters for the cache/broker.
#[derive(Clone, Debug)]
pub struct RedisConfig {
    pub url: String,
}

/// Token-signing and verification parameters.
#[derive(Clone, Debug)]
pub struct AuthConfig {
    pub secret: String,
}

/// The typed configuration model: immutable after loading, read only through
/// the per-section accessors.
#[derive(Clone, Debug)]
pub struct Config {
    pub server: ServerConfig,
    pub log: Logger,
    pub database: DatabaseConfig,
    pub redis: RedisConfig,
    pub auth: AuthConfig,
}

impl Config {
    pub fn log(&self) -> (r: &Logger)
        ensures
            *r == self.log,
    {
        &self.log
    }

    pub fn redis(&self) -> (r: &RedisConfig)
        ensures
            *r == self.redis,
    {
        &self.redis
    }

    pub fn database(&self) -> (r: &DatabaseConfig)
        ensures
            *r == self.database,
    {
        &self.database
    }

    pub fn server(&self) -> (r: &ServerConfig)
        ensures
            *r == self.server,
    {
        &self.server
    }

    pub fn auth(&self) -> (r: &AuthConfig)
        ensures
            *r == self.auth,
    {
        &self.auth
    }
}

/// Splits a key path on the double-underscore separator.
pub open spec fn split2_acc(s: Seq<char>, cur: Seq<char>) -> Seq<Seq<char>>
    decreases s.len(),
{
    if s.len() == 0 {
        seq![cur]
    } else if s.len() >= 2 && s[0] == '_' && s[1] == '_' {
        seq![cur] + split2_acc(s.skip(2), Seq::empty())
    } else {
        split2_acc(s.drop_first(), cur.push(s[0]))
    }
}

pub open spec fn split_sep(s: Seq<char>) -> Seq<Seq<char>> {
    split2_acc(s, Seq::empty())
}

/// Every segment of a split key path is nonempty.
pub open spec fn segs_ok(segs: Seq<Seq<char>>) -> bool {
    segs.len() > 0 && (forall|j: int| 0 <= j < segs.len() ==> #[trigger] segs[j].len() > 0)
}

/// The key path a process-variable name contributes: the name must carry the
/// `APP_` prefix; the remainder is lower-cased and split on `__`, and every
/// segment must be nonempty. Any other name contributes nothing.
pub open spec fn overlay_path(name: Seq<char>) -> Option<Seq<Seq<char>>> {
    if name.len() >= 4 && name.take(4) == "APP_"@ {
        let segs = split_sep(lower_of(name.skip(4)));
        if segs_ok(segs) {
            Some(segs)
        } else {
            None
        }
    } else {
        None
    }
}

pub open spec fn vars_view(vars: Seq<(String, String)>) -> Seq<(Seq<char>, Seq<char>)> {
    vars.map_values(|p: (String, String)| (p.0@, p.1@))
}

/// The overlay entries contributed by a list of process variables, in order.
pub open spec fn overlay_spec(vars: Seq<(Seq<char>, Seq<char>)>) -> Seq<EntryV>
    decreases vars.len(),
{
    if vars.len() == 0 {
        Seq::empty()
    } else {
        match overlay_path(vars[0].0) {
            None => overlay_spec(vars.drop_first()),
            Some(p) => seq![EntryV { path: p, value: vars[0].1 }] + overlay_spec(
                vars.drop_first(),
            ),
        }
    }
}

/// The value of a key path in a merged entry list: the latest entry for the
/// path wins, so sources appended later override earlier ones leaf by leaf.
pub open spec fn lookup(entries: Seq<EntryV>, path: Seq<Seq<char>>) -> Option<Seq<char>>
    decreases entries.len(),
{
    if entries.len() == 0 {
        None
    } else if entries.last().path == path {
        Some(entries.last().value)
    } else {
        lookup(entries.drop_last(), path)
    }
}

/// Appending an overlay overrides leaf values key for key: a path set by the
/// overlay takes its overlay value, and one the overlay does not set keeps
/// its base value.
pub proof fn lemma_overlay_precedence(base: Seq<EntryV>, ov: Seq<EntryV>, p: Seq<Seq<char>>)
    ensures
        lookup(ov, p) matches Some(v) ==> lookup(base + ov, p) == Some(v),
        lookup(ov, p) is None ==> lookup(base + ov, p) == lookup(base, p),
    decreases ov.len(),
{
    if ov.len() == 0 {
        assert(base + ov =~= base);
    } else {
        assert((base + ov).last() == ov.last());
        assert((base + ov).drop_last() =~= base + ov.drop_last());
        lemma_overlay_precedence(base, ov.drop_last(), p);
    }
}

/// All required keys are present in the merged entries and the port parses.
pub open spec fn typed_ok(es: Seq<EntryV>) -> bool {
    &&& lookup(es, seq!["server"@, "protocol"@]) is Some
    &&& lookup(es, seq!["server"@, "host"@]) is Some
    &&& (lookup(es, seq!["server"@, "port"@]) matches Some(p) && p.len() > 0 && all_digits(p)
        && dec_val(p) <= u16::MAX)
    &&& lookup(es, seq!["log"@, "level"@]) is Some
    &&& lookup(es, seq!["database"@, "url"@]) is Some
    &&& lookup(es, seq!["redis"@, "url"@]) is Some
    &&& lookup(es, seq!["auth"@, "secret"@]) is Some
}

/// The typed model carries exactly the merged leaf values.
pub open spec fn config_rep(c: &Config, es: Seq<EntryV>) -> bool {
    &&& lookup(es, seq!["server"@, "protocol"@]) == Some(c.server.protocol@)
    &&& lookup(es, seq!["server"@, "host"@]) == Some(c.server.host@)
    &&& (lookup(es, seq!["server"@, "port"@]) matches Some(p) && dec_val(p) == c.server.port)
    &&& lookup(es, seq!["log"@, "level"@]) == Some(c.log.level@)
    &&& lookup(es, seq!["database"@, "url"@]) == Some(c.database.url@)
    &&& lookup(es, seq!["redis"@, "url"@]) == Some(c.redis.url@)
    &&& lookup(es, seq!["auth"@, "secret"@]) == Some(c.auth.secret@)
}

/// The merged entry list of the two sources: file entries first, overlay
/// entries after them, so the overlay takes precedence under `lookup`.
pub open spec fn merged_of(text: Seq<char>, vars: Seq<(Seq<char>, Seq<char>)>) -> Option<
    Seq<EntryV>,
> {
    match parse_spec(text) {
        None => None,
        Some(f) => Some(f + overlay_spec(vars)),
    }
}

pub open spec fn config_view_eq(c1: &Config, c2: &Config) -> bool {
    &&& c1.server.protocol@ == c2.server.protocol@
    &&& c1.server.host@ == c2.server.host@
    &&& c1.server.port == c2.server.port
    &&& c1.log.level@ == c2.log.level@
    &&& c1.database.url@ == c2.database.url@
    &&& c1.redis.url@ == c2.redis.url@
    &&& c1.auth.secret@ == c2.auth.secret@
}

/// Loading is idempotent: two typed models obtained from identical file text
/// and identical process-variable state agree on every configuration value.
pub proof fn lemma_load_idempotent(
    text: Seq<char>,
    vars: Seq<(Seq<char>, Seq<char>)>,
    m: Seq<EntryV>,
    c1: &Config,
    c2: &Config,
)
    requires
        merged_of(text, vars) == Some(m),
        config_rep(c1, m),
        config_rep(c2, m),
    ensures
        config_view_eq(c1, c2),
{
}

fn split_keys(s: &str) -> (r: Vec<String>)
    ensures
        r.deep_view() == split_sep(s@),
{
    let len: usize = s.unicode_len();
    let mut acc: Vec<String> = Vec::new();
    let mut cur: String = String::new();
    let mut i: usize = 0;
    proof {
        assert(s@.skip(0) =~= s@);
        assert(acc.deep_view() =~= Seq::<Seq<char>>::empty());
        assert(Seq::<Seq<char>>::empty() + split2_acc(s@, Seq::empty()) =~= split2_acc(
            s@,
            Seq::empty(),
        ));
    }
    while i < len
        invariant
            len == s@.len(),
            i <= len,
            split_sep(s@) == acc.deep_view() + split2_acc(s@.skip(i as int), cur@),
        decreases len - i,
    {
        let c: char = s.get_char(i);
        proof {
            assert(s@.skip(i as int)[0] == s@[i as int]);
            assert(s@.skip(i as int).drop_first() =~= s@.skip(i + 1));
        }
        if c == '_' && i + 1 < len && s.get_char(i + 1) == '_' {
            proof {
                assert(s@.skip(i as int)[1] == s@[i + 1]);
                assert(s@.skip(i as int).skip(2) =~= s@.skip(i + 2));
            }
            let ghost old_deep = acc.deep_view();
            let ghost old_cur = cur@;
            let done: String = cur;
            cur = String::new();
            acc.push(done);
            proof {
                assert(acc.deep_view() =~= old_deep.push(old_cur));
                assert(old_deep.push(old_cur) + split2_acc(s@.skip(i + 2), Seq::empty()) =~=
                    old_deep + (seq![old_cur] + split2_acc(s@.skip(i + 2), Seq::empty())));
            }
            i = i + 2;
        } else {
            crate::text::push_char(&mut cur, c);
            i = i + 1;
        }
    }
    proof {
        assert(s@.skip(len as int) =~= Seq::<char>::empty());
    }
    let ghost old_deep = acc.deep_view();
    let ghost old_cur = cur@;
    acc.push(cur);
    proof {
        assert(acc.deep_view() =~= old_deep.push(old_cur));
        assert(old_deep + seq![old_cur] =~= old_deep.push(old_cur));
    }
    acc
}

fn var_path(name: &str) -> (r: Option<Vec<String>>)
    ensures
        match overlay_path(name@) {
            None => r is None,
            Some(p) => r matches Some(v) && v.deep_view() == p,
        },
{
    proof {
        reveal_strlit("APP_");
    }
    if !has_prefix(name, "APP_") {
        return None;
    }
    let nlen: usize = name.unicode_len();
    proof {
        assert(("APP_"@).len() == 4);
        assert(name@.len() >= 4);
        assert(name@.take(4) == "APP_"@);
    }
    let tail: &str = name.substring_char(4, nlen);
    proof {
        assert(tail@ =~= name@.skip(4));
    }
    let low: String = lowercase(tail);
    let segs: Vec<String> = split_keys(low.as_str());
    let ghost sv = split_sep(lower_of(name@.skip(4)));
    let n: usize = segs.len();
    if n == 0 {
        return None;
    }
    let mut i: usize = 0;
    while i < n
        invariant
            n == segs@.len(),
            i <= n,
            segs.deep_view() == sv,
            sv.len() == n,
            sv == split_sep(lower_of(name@.skip(4))),
            name@.len() >= 4 && name@.take(4) == "APP_"@,
            forall|j: int| 0 <= j < i ==> #[trigger] sv[j].len() > 0,
        decreases n - i,
    {
        let seg: &String = &segs[i];
        if seg.as_str().unicode_len() == 0 {
            proof {
                assert(sv[i as int] == segs@[i as int]@);
                assert(!segs_ok(sv)) by {
                    assert(0 <= i < sv.len() && !(sv[i as int].len() > 0));
                }
            }
            return None;
        }
        proof {
            assert(sv[i as int] == segs@[i as int]@);
        }
        i = i + 1;
    }
    proof {
        assert(segs_ok(sv));
    }
    Some(segs)
}

/// The overlay entries of a process-variable list, in list order.
pub fn overlay_entries(vars: &Vec<(String, String)>) -> (r: Vec<Entry>)
    ensures
        entries_view(r@) == overlay_spec(vars_view(vars@)),
{
    let ghost vv = vars_view(vars@);
    let n: usize = vars.len();
    let mut acc: Vec<Entry> = Vec::new();
    let mut i: usize = 0;
    proof {
        assert(vv.skip(0) =~= vv);
        assert(entries_view(acc@) =~= Seq::<EntryV>::empty());
        assert(Seq::<EntryV>::empty() + overlay_spec(vv) =~= overlay_spec(vv));
    }
    while i < n
        invariant
            n == vars@.len(),
            i <= n,
            vv == vars_view(vars@),
            vv.len() == n,
            overlay_spec(vv) == entries_view(acc@) + overlay_spec(vv.skip(i as int)),
        decreases n - i,
    {
        proof {
            assert(vv.skip(i as int)[0] == vv[i as int]);
            assert(vv[i as int] == (vars@[i as int].0@, vars@[i as int].1@));
            assert(vv.skip(i as int).drop_first() =~= vv.skip(i + 1));
        }
        let name: &String = &vars[i].0;
        match var_path(name.as_str()) {
            Some(path) => {
                let value: String = vars[i].1.clone();
                let ghost old_deep = entries_view(acc@);
                let e = Entry { path, value };
                let ghost ev = e@;
                acc.push(e);
                proof {
                    assert(entries_view(acc@) =~= old_deep.push(ev));
                    assert(old_deep.push(ev) + overlay_spec(vv.skip(i + 1)) =~= old_deep + (
                    seq![ev] + overlay_spec(vv.skip(i + 1))));
                }
            },
            None => {
            },
        }
        i = i + 1;
    }
    proof {
        assert(vv.skip(n as int) =~= Seq::<(Seq<char>, Seq<char>)>::empty());
        assert(entries_view(acc@) + Seq::<EntryV>::empty() =~= entries_view(acc@));
    }
    acc
}

/// The merged value of a two-segment key path, latest entry first.
pub fn lookup2(entries: &Vec<Entry>, a: &str, b: &str) -> (r: Option<String>)
    ensures
        match lookup(entries_view(entries@), seq![a@, b@]) {
            None => r is None,
            Some(v) => r matches Some(x) && x@ == v,
        },
{
    let ghost p = seq![a@, b@];
    let ghost ev = entries_view(entries@);
    let mut i: usize = entries.len();
    proof {
        assert(ev.take(entries@.len() as int) =~= ev);
    }
    while i > 0
        invariant
            i <= entries@.len(),
            ev == entries_view(entries@),
            ev.len() == entries@.len(),
            p == seq![a@, b@],
            lookup(ev, p) == lookup(ev.take(i as int), p),
        decreases i,
    {
        let e: &Entry = &entries[i - 1];
        proof {
            assert(ev.take(i as int).last() == ev[i - 1]);
            assert(ev[i - 1] == entries@[i - 1]@);
            assert(ev.take(i as int).drop_last() =~= ev.take(i - 1));
        }
        let plen: usize = e.path.len();
        if plen == 2 {
            let e0: &String = &e.path[0];
            let e1: &String = &e.path[1];
            let m0: bool = str_eq(e0.as_str(), a);
            let m1: bool = str_eq(e1.as_str(), b);
            proof {
                assert(e.path.deep_view()[0] == e.path@[0]@);
                assert(e.path.deep_view()[1] == e.path@[1]@);
            }
            if m0 && m1 {
                proof {
                    assert(e@.path =~= p);
                }
                return Some(e.value.clone());
            }
            proof {
                assert(e@.path != p);
            }
        } else {
            proof {
                assert(e@.path.len() == e.path@.len());
                assert(e@.path != p);
            }
        }
        i = i - 1;
    }
    proof {
        assert(ev.take(0) =~= Seq::<EntryV>::empty());
    }
    None
}

/// The message of every validation failure: a fixed prefix, then the
/// offending key path.
pub open spec fn missing_msg(path: Seq<char>) -> Seq<char> {
    "missing or invalid configuration key: "@ + path
}

/// The first required key, in validation order, that the merged entries fail:
/// the message the loader reports when validation rejects them.
pub open spec fn first_error_msg(es: Seq<EntryV>) -> Seq<char> {
    if lookup(es, seq!["server"@, "protocol"@]) is None {
        missing_msg("server.protocol"@)
    } else if lookup(es, seq!["server"@, "host"@]) is None {
        missing_msg("server.host"@)
    } else if !(lookup(es, seq!["server"@, "port"@]) matches Some(p) && p.len() > 0
        && all_digits(p) && dec_val(p) <= u16::MAX) {
        missing_msg("server.port"@)
    } else if lookup(es, seq!["log"@, "level"@]) is None {
        missing_msg("log.level"@)
    } else if lookup(es, seq!["database"@, "url"@]) is None {
        missing_msg("database.url"@)
    } else if lookup(es, seq!["redis"@, "url"@]) is None {
        missing_msg("redis.url"@)
    } else {
        missing_msg("auth.secret"@)
    }
}

fn missing_key(path: &str) -> (r: AppError)
    ensures
        r matches AppError::Config(m) && m@ == missing_msg(path@),
{
    let mut m: String = String::from_str("missing or invalid configuration key: ");
    m.append(path);
    AppError::Config(m)
}

impl Config {
    /// Validates merged entries into the typed model. Succeeds exactly when
    /// every required key is present and the port is written as plain decimal
    /// digits (no sign) within range; a missing or ill-typed key is a
    /// configuration-parse error naming it.
    pub fn from_entries(entries: &Vec<Entry>) -> (r: Result<Config, AppError>)
        ensures
            r is Ok <==> typed_ok(entries_view(entries@)),
            r matches Ok(c) ==> config_rep(&c, entries_view(entries@)),
            r matches Err(e) ==> (e matches AppError::Config(m) && m@ == first_error_msg(
                entries_view(entries@),
            )),
    {
        let protocol: String = match lookup2(entries, "server", "protocol") {
            Some(v) => v,
            None => {
                return Err(missing_key("server.protocol"));
            },
        };
        let host: String = match lookup2(entries, "server", "host") {
            Some(v) => v,
            None => {
                return Err(missing_key("server.host"));
            },
        };
        let port_text: String = match lookup2(entries, "server", "port") {
            Some(v) => v,
            None => {
                return Err(missing_key("server.port"));
            },
        };
        let port: u16 = match parse_u16(port_text.as_str()) {
            Some(v) => v,
            None => {
                return Err(missing_key("server.port"));
            },
        };
        let level: String = match lookup2(entries, "log", "level") {
            Some(v) => v,
            None => {
                return Err(missing_key("log.level"));
            },
        };
        let database_url: String = match lookup2(entries, "database", "url") {
            Some(v) => v,
            None => {
                return Err(missing_key("database.url"));
            },
        };
        let redis_url: String = match lookup2(entries, "redis", "url") {
            Some(v) => v,
            None => {
                return Err(missing_key("redis.url"));
            },
        };
        let secret: String = match lookup2(entries, "auth", "secret") {
            Some(v) => v,
            None => {
                return Err(missing_key("auth.secret"));
            },
        };
        Ok(
            Config {
                server: ServerConfig { protocol, host, port },
                log: Logger { level },
                database: DatabaseConfig { url: database_url },
                redis: RedisConfig { url: redis_url },
                auth: AuthConfig { secret },
            },
        )
    }

    /// Loads the typed configuration from the two layered sources: the
    /// configuration file's text, then the process-variable overlay, merged
    /// leaf for leaf with the overlay taking precedence, then validated.
    pub fn load(file_text: &str, vars: &Vec<(String, String)>) -> (r: Result<Config, AppError>)
        ensures
            match merged_of(file_text@, vars_view(vars@)) {
                None => r matches Err(e) && is_parse_error(&e),
                Some(m) => {
                    &&& (r is Ok <==> typed_ok(m))
                    &&& (r matches Ok(c) ==> config_rep(&c, m))
                    &&& (r matches Err(e) ==> (e matches AppError::Config(em) && em@
                        == first_error_msg(m)))
                },
            },
    {
        match parse_entries(file_text) {
            Err(e) => Err(e),
            Ok(file_entries) => {
                let mut merged: Vec<Entry> = file_entries;
                let ghost file_snap = merged@;
                let mut ov: Vec<Entry> = overlay_entries(vars);
                let ghost ov_snap = ov@;
                merged.append(&mut ov);
                proof {
                    assert(merged@ =~= file_snap + ov_snap);
                    assert(entries_view(merged@) =~= entries_view(file_snap) + entries_view(
                        ov_snap,
                    ));
                }
                Config::from_entries(&merged)
            },
        }
    }
}

} // verus!
