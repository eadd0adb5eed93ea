//! Configuration.
use vstd::prelude::*;
use vstd::string::*;

use crate::mirror::{quoted, quoted_text};
use crate::text::opt_view;

verus! {

/// What a mirror is made from.
#[derive(Debug)]
pub struct MirrorConfig {
    pub url: String,
    /// The path of the cache dir.
    pub cache_dir: Vec<u8>,
    pub token: Option<String>,
    /// The user that the token belongs to.
    pub token_user: String,
    /// How many nanoseconds the last sync attempt counts as fresh.
    pub ttl: u128,
    /// How many nanoseconds a git command may run.
    pub git_timeout: u128,
    /// Whether file contents are left out until they are needed.
    pub blobless: bool,
}

/// The view of a [`MirrorConfig`].
#[verifier::ext_equal]
pub struct MirrorConfigView {
    pub url: Seq<char>,
    pub cache_dir: Seq<u8>,
    pub token: Option<Seq<char>>,
    pub token_user: Seq<char>,
    pub ttl: nat,
    pub git_timeout: nat,
    pub blobless: bool,
}

impl View for MirrorConfig {
    type V = MirrorConfigView;

    open spec fn view(&self) -> MirrorConfigView {
        MirrorConfigView {
            url: self.url@,
            cache_dir: self.cache_dir@,
            token: opt_view(self.token),
            token_user: self.token_user@,
            ttl: self.ttl as nat,
            git_timeout: self.git_timeout as nat,
            blobless: self.blobless,
        }
    }
}

/// The address of a socket.
#[derive(Clone, Copy, PartialEq, Eq, Structural, Debug)]
pub enum SocketAddress {
    V4 { ip: u32, port: u16 },
    V6 { ip6: u128, port: u16, flow_info: u32, scope_id: u32 },
}

/// A text that should be the address of a socket, and what parsing it gave.
#[derive(Debug)]
pub struct BindRead {
    pub text: String,
    pub parsed: Result<SocketAddress, String>,
}

/// Where the repository is, where it is cached, and where it is served.
#[derive(Debug)]
pub struct Config {
    pub repo_url: String,
    /// The path of the cache dir.
    pub cache_dir: Vec<u8>,
    pub bind: SocketAddress,
}

/// The view of a [`Config`].
#[verifier::ext_equal]
pub struct ConfigView {
    pub repo_url: Seq<char>,
    pub cache_dir: Seq<u8>,
    pub bind: SocketAddress,
}

impl View for Config {
    type V = ConfigView;

    open spec fn view(&self) -> ConfigView {
        ConfigView { repo_url: self.repo_url@, cache_dir: self.cache_dir@, bind: self.bind }
    }
}

/// The bytes `./cache`.
pub open spec fn default_cache_dir() -> Seq<u8> {
    seq![46, 47, 99, 97, 99, 104, 101]
}

/// Where the server listens if nothing is said: on all interfaces, at port 8080.
pub open spec fn default_bind() -> SocketAddress {
    SocketAddress::V4 { ip: 0, port: 8080 }
}

/// What is said about an address `quoted` in quotation marks that cannot be parsed.
pub open spec fn bind_error_text(quoted: Seq<char>, cause: Seq<char>) -> Seq<char> {
    "GIT_SERVE_BIND="@ + quoted + " is not a socket address: "@ + cause
}

/// What is said about an address `quoted` in quotation marks that cannot be parsed.
pub fn bind_error(quoted: &str, cause: &str) -> (r: String)
    ensures
        r@ == bind_error_text(quoted@, cause@),
{
    "GIT_SERVE_BIND=".to_owned().concat(quoted).concat(" is not a socket address: ").concat(cause)
}

/// The configuration that the environment says. The URL must be set; all else has a default.
pub open spec fn config_from(
    repo_url: Option<Seq<char>>,
    cache_dir: Option<Seq<u8>>,
    bind: Option<BindRead>,
) -> Result<ConfigView, Seq<char>> {
    match repo_url {
        None => Err("GIT_SERVE_REPO_URL must be set"@),
        Some(repo_url) => {
            let cache_dir = match cache_dir {
                Some(dir) => dir,
                None => default_cache_dir(),
            };
            match bind {
                None => Ok(ConfigView { repo_url, cache_dir, bind: default_bind() }),
                Some(read) => match read.parsed {
                    Ok(bind) => Ok(ConfigView { repo_url, cache_dir, bind }),
                    Err(e) => Err(bind_error_text(quoted_text(read.text@), e@)),
                },
            }
        },
    }
}

/// The view of a configuration that may be lacking.
pub open spec fn config_view(r: Result<Config, String>) -> Result<ConfigView, Seq<char>> {
    match r {
        Ok(config) => Ok(config@),
        Err(e) => Err(e@),
    }
}

impl Config {
    /// The configuration that the values of `GIT_SERVE_REPO_URL`, `GIT_SERVE_CACHE_DIR` and
    /// `GIT_SERVE_BIND` say, as far as these variables are set.
    pub fn from_env(
        repo_url: Option<String>,
        cache_dir: Option<Vec<u8>>,
        bind: Option<BindRead>,
    ) -> (r: Result<Config, String>)
        ensures
            config_view(r) == config_from(opt_view(repo_url), opt_view(cache_dir), bind),
    {
        let repo_url = match repo_url {
            Some(url) => url,
            None => return Err("GIT_SERVE_REPO_URL must be set".to_owned()),
        };
        let cache_dir = match cache_dir {
            Some(dir) => dir,
            None => {
                let dir: Vec<u8> = vec![46, 47, 99, 97, 99, 104, 101];
                assert(dir@ =~= default_cache_dir());
                dir
            },
        };
        let bind = match bind {
            None => SocketAddress::V4 { ip: 0, port: 8080 },
            Some(read) => match read.parsed {
                Ok(bind) => bind,
                Err(e) => {
                    return Err(bind_error(quoted(read.text.as_str()).as_str(), e.as_str()));
                },
            },
        };
        Ok(Config { repo_url, cache_dir, bind })
    }
}

/// A configuration takes each value that is set as it is, and a default in place of each that is
/// not: the dir `./cache`, and port 8080 on all interfaces.
pub proof fn law_set_values_are_taken(
    url: Seq<char>,
    cache_dir: Option<Seq<u8>>,
    bind: Option<BindRead>,
)
    requires
        bind is Some ==> bind->0.parsed is Ok,
    ensures
        config_from(Some(url), cache_dir, bind) matches Ok(config) && {
            &&& config.repo_url == url
            &&& cache_dir matches Some(dir) ==> config.cache_dir == dir
            &&& cache_dir is None ==> config.cache_dir.len() == "./cache"@.len()
            &&& cache_dir is None ==> forall|i: int|
                0 <= i < "./cache"@.len() ==> #[trigger] config.cache_dir[i]
                    == "./cache"@[i] as u32
            &&& bind matches Some(read) ==> config.bind == read.parsed->Ok_0
            &&& bind is None ==> config.bind == (SocketAddress::V4 { ip: 0, port: 8080 })
        },
{
    reveal_strlit("./cache");
}

/// Without a URL there is no configuration, whatever else is set; nor with an address that cannot
/// be parsed, and the error names the address and the cause.
pub proof fn law_bad_values_are_refused(
    url: Seq<char>,
    cache_dir: Option<Seq<u8>>,
    bind: Option<BindRead>,
    read: BindRead,
)
    ensures
        config_from(None, cache_dir, bind) == Err::<ConfigView, _>(
            "GIT_SERVE_REPO_URL must be set"@,
        ),
        read.parsed matches Err(cause) ==> config_from(Some(url), cache_dir, Some(read)) == Err::<
            ConfigView,
            _,
        >(
            "GIT_SERVE_BIND="@ + quoted_text(read.text@) + " is not a socket address: "@
                + cause@,
        ),
        bind_error_text(url, read.text@) == "GIT_SERVE_BIND="@ + url
            + " is not a socket address: "@ + read.text@,
{
}

/// A configuration is seen with all its parts.
pub proof fn law_configurations_are_seen_in_full(
    mirror: MirrorConfig,
    config: Config,
    result: Result<Config, String>,
)
    ensures
        mirror@.url == mirror.url@,
        mirror@.cache_dir == mirror.cache_dir@,
        mirror.token matches Some(token) ==> mirror@.token == Some(token@),
        mirror.token is None ==> mirror@.token is None,
        mirror@.token_user == mirror.token_user@,
        mirror@.ttl == mirror.ttl,
        mirror@.git_timeout == mirror.git_timeout,
        mirror@.blobless == mirror.blobless,
        config@.repo_url == config.repo_url@,
        config@.cache_dir == config.cache_dir@,
        config@.bind == config.bind,
        result matches Ok(c) ==> config_view(result) == Ok::<_, Seq<char>>(c@),
        result matches Err(e) ==> config_view(result) == Err::<ConfigView, Seq<char>>(e@),
{
}

} // verus!
