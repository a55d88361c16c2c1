use vstd::prelude::*;

verus! {

/// Errors raised while loading the configuration document. Both are fatal
/// to startup.
#[derive(Debug, PartialEq)]
pub enum ConfigError {
    /// The document is not valid YAML of the expected shape (a mapping whose
    /// `upstream_servers` key holds a list of strings, whose optional
    /// `server` key holds a mapping of `ip` and `port`, and whose optional
    /// `threads_number` key holds an unsigned integer).
    ParseError(String),
    /// The document parsed, but holds a wrong value; each entry is one
    /// diagnostic line.
    ValueError(Vec<String>),
}

/// What the `upstream_servers` key of the document holds: `Err` when the
/// document does not parse as the expected shape at this key, `Ok(None)`
/// when the key is absent, `Ok(Some(list))` otherwise.
pub uninterp spec fn upstreams_field(s: Seq<char>) -> Result<Option<Seq<Seq<char>>>, ()>;

/// What the `server.ip` key of the document holds, as `upstreams_field`.
pub uninterp spec fn ip_field(s: Seq<char>) -> Result<Option<Seq<char>>, ()>;

/// What the `server.port` key of the document holds, as `upstreams_field`.
pub uninterp spec fn port_field(s: Seq<char>) -> Result<Option<u64>, ()>;

/// What the `threads_number` key of the document holds, as `upstreams_field`.
pub uninterp spec fn threads_field(s: Seq<char>) -> Result<Option<u64>, ()>;

pub open spec fn strs_view(v: Option<Vec<String>>) -> Option<Seq<Seq<char>>> {
    match v {
        Some(vs) => Some(vs@.map_values(|x: String| x@)),
        None => None,
    }
}

pub open spec fn str_view(v: Option<String>) -> Option<Seq<char>> {
    match v {
        Some(x) => Some(x@),
        None => None,
    }
}

/// Relies on serde_yml::from_str and the serde_yml::Value accessors
/// (as_mapping, get, as_sequence, as_str): reads the `upstream_servers`
/// key of the document. The result depends on the text alone.
#[verifier::external_body]
fn read_upstreams(content: &str) -> (r: Result<Option<Vec<String>>, ()>)
    ensures
        match r {
            Ok(v) => upstreams_field(content@) == Ok::<Option<Seq<Seq<char>>>, ()>(strs_view(v)),
            Err(_) => upstreams_field(content@) is Err,
        },
{
    let doc: serde_yml::Value = serde_yml::from_str(content).map_err(|_| ())?;
    if doc.as_mapping().is_none() {
        return Err(());
    }
    let field = match doc.get("upstream_servers") {
        Some(f) => f,
        None => return Ok(None),
    };
    let items = field.as_sequence().ok_or(())?;
    items
        .iter()
        .map(|item| item.as_str().map(str::to_owned).ok_or(()))
        .collect::<Result<Vec<String>, ()>>()
        .map(Some)
}

/// Relies on serde_yml::from_str and the serde_yml::Value accessors
/// (as_mapping, get, as_str): reads the `server.ip` key of the document.
/// The result depends on the text alone.
#[verifier::external_body]
fn read_ip(content: &str) -> (r: Result<Option<String>, ()>)
    ensures
        match r {
            Ok(v) => ip_field(content@) == Ok::<Option<Seq<char>>, ()>(str_view(v)),
            Err(_) => ip_field(content@) is Err,
        },
{
    let doc: serde_yml::Value = serde_yml::from_str(content).map_err(|_| ())?;
    if doc.as_mapping().is_none() {
        return Err(());
    }
    let server = match doc.get("server") {
        Some(s) => s,
        None => return Ok(None),
    };
    if server.as_mapping().is_none() {
        return Err(());
    }
    match server.get("ip") {
        Some(v) => v.as_str().map(|s| Some(s.to_owned())).ok_or(()),
        None => Ok(None),
    }
}

/// Relies on serde_yml::from_str and the serde_yml::Value accessors
/// (as_mapping, get, as_u64): reads the `server.port` key of the document.
/// The result depends on the text alone.
#[verifier::external_body]
fn read_port(content: &str) -> (r: Result<Option<u64>, ()>)
    ensures
        match r {
            Ok(v) => port_field(content@) == Ok::<Option<u64>, ()>(v),
            Err(_) => port_field(content@) is Err,
        },
{
    let doc: serde_yml::Value = serde_yml::from_str(content).map_err(|_| ())?;
    if doc.as_mapping().is_none() {
        return Err(());
    }
    let server = match doc.get("server") {
        Some(s) => s,
        None => return Ok(None),
    };
    if server.as_mapping().is_none() {
        return Err(());
    }
    match server.get("port") {
        Some(v) => v.as_u64().map(Some).ok_or(()),
        None => Ok(None),
    }
}

/// Relies on serde_yml::from_str and the serde_yml::Value accessors
/// (as_mapping, get, as_u64): reads the `threads_number` key of the
/// document. The result depends on the text alone.
#[verifier::external_body]
fn read_threads(content: &str) -> (r: Result<Option<u64>, ()>)
    ensures
        match r {
            Ok(v) => threads_field(content@) == Ok::<Option<u64>, ()>(v),
            Err(_) => threads_field(content@) is Err,
        },
{
    let doc: serde_yml::Value = serde_yml::from_str(content).map_err(|_| ())?;
    if doc.as_mapping().is_none() {
        return Err(());
    }
    match doc.get("threads_number") {
        Some(v) => v.as_u64().map(Some).ok_or(()),
        None => Ok(None),
    }
}

/// The validated startup configuration: where to listen, which upstream
/// servers to forward to, and how many worker threads to run.
#[derive(Debug, PartialEq)]
pub struct Config {
    pub server: ServerConfig,
    pub upstream_servers: Vec<String>,
    pub threads_number: usize,
}

/// The listen address: an IP (default `"0.0.0.0"`) and a port (default 0).
#[derive(Debug, PartialEq)]
pub struct ServerConfig {
    pub ip: String,
    pub port: u32,
}

impl ServerConfig {
    /// The `"ip:port"` string of the listen address.
    pub fn ip_port(&self) -> (r: String)
        ensures
            r@ == self.ip@ + ":"@ + crate::decimal::dec_rep(self.port as nat),
    {
        let mut s = self.ip.clone();
        s.append(":");
        crate::decimal::push_decimal(&mut s, self.port);
        s
    }

    /// The listen IP used when the configuration names none.
    pub fn default_ip() -> (r: String)
        ensures
            r@ == "0.0.0.0"@,
    {
        "0.0.0.0".to_owned()
    }
}

impl Default for ServerConfig {
    /// The listen address used when the configuration names none:
    /// `0.0.0.0:0`.
    fn default() -> (r: ServerConfig)
        ensures
            r.ip@ == "0.0.0.0"@,
            r.port == 0,
    {
        ServerConfig { ip: ServerConfig::default_ip(), port: 0 }
    }
}

/// The spec-level picture of a parsed configuration.
pub ghost struct ConfigModel {
    pub ip: Seq<char>,
    pub port: u32,
    pub upstream_servers: Seq<Seq<char>>,
    pub threads_number: usize,
}

impl Config {
    pub open spec fn model(self) -> ConfigModel {
        ConfigModel {
            ip: self.server.ip@,
            port: self.server.port,
            upstream_servers: self.upstream_servers@.map_values(|x: String| x@),
            threads_number: self.threads_number,
        }
    }
}

/// Every present field of the document has the expected type and fits its
/// target, and the required `upstream_servers` list is present.
pub open spec fn doc_well_formed(s: Seq<char>) -> bool {
    &&& upstreams_field(s) matches Ok(Some(_))
    &&& ip_field(s) is Ok
    &&& match port_field(s) {
        Ok(Some(p)) => p <= u32::MAX,
        Ok(None) => true,
        Err(_) => false,
    }
    &&& match threads_field(s) {
        Ok(Some(t)) => t <= usize::MAX,
        Ok(None) => true,
        Err(_) => false,
    }
}

pub open spec fn doc_upstreams(s: Seq<char>) -> Seq<Seq<char>> {
    match upstreams_field(s) {
        Ok(Some(u)) => u,
        _ => Seq::empty(),
    }
}

/// The configuration a well-formed document denotes, with the defaults
/// filled in: ip `"0.0.0.0"`, port 0, and the caller-supplied thread count.
pub open spec fn parsed_model(s: Seq<char>, default_threads: usize) -> ConfigModel {
    ConfigModel {
        ip: match ip_field(s) {
            Ok(Some(i)) => i,
            _ => "0.0.0.0"@,
        },
        port: match port_field(s) {
            Ok(Some(p)) => p as u32,
            _ => 0,
        },
        upstream_servers: doc_upstreams(s),
        threads_number: match threads_field(s) {
            Ok(Some(t)) => t as usize,
            _ => default_threads,
        },
    }
}

/// The one diagnostic the value check can raise.
pub open spec fn empty_pool_diagnostic() -> Seq<char> {
    "'upstream_servers' is empty. Please, provide at least one upstream server."@
}

/// Exactly what loading a configuration document returns: the document's
/// model on success; a parse error exactly when the document is not
/// well-formed; the value error exactly when it is well-formed but its
/// endpoint list is empty.
pub open spec fn parse_post(s: Seq<char>, default_threads: usize, r: Result<
    Config,
    ConfigError,
>) -> bool {
    match r {
        Ok(c) => {
            &&& doc_well_formed(s)
            &&& doc_upstreams(s).len() > 0
            &&& c.model() == parsed_model(s, default_threads)
        },
        Err(e) => match e {
            ConfigError::ParseError(_) => !doc_well_formed(s),
            ConfigError::ValueError(msgs) => {
                &&& doc_well_formed(s)
                &&& doc_upstreams(s).len() == 0
                &&& msgs@.map_values(|m: String| m@) == seq![empty_pool_diagnostic()]
            },
        },
    }
}

impl Config {
    /// Checks the parsed values; today the one rule is that
    /// `upstream_servers` must not be empty.
    pub fn check(&self) -> (r: Option<ConfigError>)
        ensures
            match r {
                Some(e) => {
                    &&& self.upstream_servers@.len() == 0
                    &&& e matches ConfigError::ValueError(msgs) && msgs@.map_values(
                        |m: String| m@,
                    ) == seq![empty_pool_diagnostic()]
                },
                None => self.upstream_servers@.len() > 0,
            },
    {
        if self.upstream_servers.len() == 0 {
            let mut msgs: Vec<String> = Vec::new();
            msgs.push(
                "'upstream_servers' is empty. Please, provide at least one upstream server.".to_owned(),
            );
            proof {
                assert(msgs@.map_values(|m: String| m@) =~= seq![empty_pool_diagnostic()]);
            }
            Some(ConfigError::ValueError(msgs))
        } else {
            None
        }
    }

    /// Loads a configuration from the text of a YAML document.
    ///
    /// `default_threads` is the worker-thread count used when the document
    /// names none; the caller supplies it (ordinarily the host's available
    /// parallelism).
    pub fn new(content: &str, default_threads: usize) -> (r: Result<Config, ConfigError>)
        ensures
            parse_post(content@, default_threads, r),
    {
        let upstream_servers = match read_upstreams(content) {
            Ok(Some(u)) => u,
            Ok(None) => {
                return Err(
                    ConfigError::ParseError("missing field 'upstream_servers'".to_owned()),
                );
            },
            Err(_) => {
                return Err(ConfigError::ParseError("invalid configuration document".to_owned()));
            },
        };
        let ip = match read_ip(content) {
            Ok(Some(i)) => i,
            Ok(None) => ServerConfig::default_ip(),
            Err(_) => {
                return Err(ConfigError::ParseError("invalid 'server.ip' value".to_owned()));
            },
        };
        let port64 = match read_port(content) {
            Ok(Some(p)) => p,
            Ok(None) => 0,
            Err(_) => {
                return Err(ConfigError::ParseError("invalid 'server.port' value".to_owned()));
            },
        };
        if port64 > u32::MAX as u64 {
            return Err(ConfigError::ParseError("invalid 'server.port' value".to_owned()));
        }
        let threads_number = match read_threads(content) {
            Ok(Some(t)) => {
                if t > usize::MAX as u64 {
                    return Err(
                        ConfigError::ParseError("invalid 'threads_number' value".to_owned()),
                    );
                }
                t as usize
            },
            Ok(None) => default_threads,
            Err(_) => {
                return Err(ConfigError::ParseError("invalid 'threads_number' value".to_owned()));
            },
        };
        let config = Config {
            server: ServerConfig { ip, port: port64 as u32 },
            upstream_servers,
            threads_number,
        };
        if let Some(e) = config.check() {
            return Err(e);
        }
        Ok(config)
    }
}

/// The configuration inside a successful outcome.
pub open spec fn ok_of(r: Result<Config, ConfigError>) -> Config
    recommends
        r is Ok,
{
    match r {
        Ok(c) => c,
        Err(_) => arbitrary(),
    }
}

/// The error inside a failed outcome.
pub open spec fn err_of(r: Result<Config, ConfigError>) -> ConfigError
    recommends
        r is Err,
{
    match r {
        Ok(_) => arbitrary(),
        Err(e) => e,
    }
}

/// Idempotence of configuration parsing: two outcomes that the loading
/// contract admits for the same document and the same default thread count
/// agree — both succeed with structurally equal configurations, or both
/// fail with the same error kind.
pub proof fn lemma_parse_idempotent(
    s: Seq<char>,
    default_threads: usize,
    r1: Result<Config, ConfigError>,
    r2: Result<Config, ConfigError>,
)
    requires
        parse_post(s, default_threads, r1),
        parse_post(s, default_threads, r2),
    ensures
        r1 is Ok <==> r2 is Ok,
        r1 is Ok && r2 is Ok ==> ok_of(r1).model() == ok_of(r2).model(),
        r1 is Err && r2 is Err ==> ((err_of(r1) is ParseError <==> err_of(r2) is ParseError) && (
        err_of(r1) is ValueError <==> err_of(r2) is ValueError)),
{
}

/// A well-formed document whose `upstream_servers` list is empty is always
/// rejected, and always with the value-error kind carrying the same single
/// diagnostic — never accepted, never a parse error.
pub proof fn lemma_empty_pool_always_value_error(
    s: Seq<char>,
    default_threads: usize,
    r: Result<Config, ConfigError>,
)
    requires
        parse_post(s, default_threads, r),
        doc_well_formed(s),
        doc_upstreams(s).len() == 0,
    ensures
        r is Err,
        err_of(r) matches ConfigError::ValueError(msgs) && msgs@.map_values(|m: String| m@)
            == seq![empty_pool_diagnostic()],
{
}

} // verus!
