//! Configuration, from the environment.
use vstd::prelude::*;

use crate::error::ConfigError;
use crate::store::freshness::{Span, NANOS};
use crate::store::sql::text_if_any;
use crate::text::{
    blank, is_blank, parse_u64, strip_trailing, trim, trimmed, unsigned, unsigned_refusal,
    without_trailing,
};

verus! {

pub const APP: &'static str = "actual-mcp";

pub const HOME: &'static str = "HOME";

pub const ACTUAL_SERVER_URL: &'static str = "ACTUAL_SERVER_URL";

pub const ACTUAL_PASSWORD: &'static str = "ACTUAL_PASSWORD";

pub const ACTUAL_SYNC_ID: &'static str = "ACTUAL_SYNC_ID";

pub const ACTUAL_CACHE_DIR: &'static str = "ACTUAL_CACHE_DIR";

pub const XDG_CACHE_HOME: &'static str = "XDG_CACHE_HOME";

pub const ACTUAL_TTL_SECONDS: &'static str = "ACTUAL_TTL_SECONDS";

pub const DEFAULT_TTL_SECONDS: u64 = 60;

/// Something that must not be shown. It has no way to print itself but
/// [`Secret::redacted`].
pub struct Secret(String);

impl View for Secret {
    type V = Seq<char>;

    closed spec fn view(&self) -> Seq<char> {
        self.0@
    }
}

impl Secret {
    pub fn new(s: String) -> (r: Self)
        ensures
            r@ == s@,
    {
        Secret(s)
    }

    pub fn expose(&self) -> (r: &str)
        ensures
            r@ == self@,
    {
        self.0.as_str()
    }

    /// What stands for the secret where values are printed.
    pub fn redacted(&self) -> (r: String)
        ensures
            r@ == "Secret(***)"@,
    {
        "Secret(***)".to_owned()
    }
}

impl Clone for Secret {
    fn clone(&self) -> (r: Self)
        ensures
            r@ == self@,
    {
        Secret(self.0.clone())
    }
}

/// A directory, as the parts that are joined to make its path.
#[derive(Debug, PartialEq)]
pub struct CacheDir {
    pub parts: Vec<String>,
}

pub struct Config {
    pub server_url: String,
    pub password: Secret,
    pub sync_id: Option<String>,
    pub cache_dir: CacheDir,
    pub ttl: Span,
}

/// Some variables by their names.
pub type Env = spec_fn(Seq<char>) -> Option<Seq<char>>;

/// `get` looks variables up in `env`.
pub open spec fn looks_up<F: Fn(&str) -> Option<String>>(get: F, env: Env) -> bool {
    forall|name: &str, value: Option<String>| #[trigger]
        call_ensures(get, (name,), value) ==> text_if_any(value) == env(name@)
}

/// `get` was asked for this variable, and answered with this value.
pub open spec fn asked<F: Fn(&str) -> Option<String>>(
    get: F,
    name: Seq<char>,
    value: Option<Seq<char>>,
) -> bool {
    exists|key: &str, r: Option<String>| #[trigger]
        call_ensures(get, (key,), r) && key@ == name && text_if_any(r) == value
}

/// The variable is one that is looked up, given what those before it hold.
pub open spec fn consulted(env: Env, name: Seq<char>) -> bool {
    ||| name == ACTUAL_SERVER_URL@
    ||| given(env, ACTUAL_SERVER_URL@) is Some && {
        ||| name == ACTUAL_PASSWORD@
        ||| given(env, ACTUAL_PASSWORD@) is Some && {
            ||| name == ACTUAL_SYNC_ID@
            ||| name == ACTUAL_CACHE_DIR@
            ||| name == XDG_CACHE_HOME@ && env(ACTUAL_CACHE_DIR@) is None
            ||| name == HOME@ && env(ACTUAL_CACHE_DIR@) is None && env(XDG_CACHE_HOME@) is None
            ||| name == ACTUAL_TTL_SECONDS@ && cache_dir(env) is Some
        }
    }
}

/// `get` was asked for every variable that is looked up, and answered with what
/// it holds in `env`.
pub open spec fn came_back<F: Fn(&str) -> Option<String>>(get: F, env: Env) -> bool {
    forall|name: Seq<char>| #[trigger] consulted(env, name) ==> asked(get, name, env(name))
}

/// A variable that is set to more than white space.
pub open spec fn given(env: Env, name: Seq<char>) -> Option<Seq<char>> {
    unless_blank(env(name))
}

/// A value, unless it is nothing but white space.
pub open spec fn unless_blank(value: Option<Seq<char>>) -> Option<Seq<char>> {
    match value {
        Some(text) => if is_blank(text) {
            None
        } else {
            Some(text)
        },
        None => None,
    }
}

/// The parts of the path of the cache directory: the one that is set, or else
/// one of our own in the user's cache directory, or else one in the user's home.
pub open spec fn cache_dir(env: Env) -> Option<Seq<Seq<char>>> {
    match env(ACTUAL_CACHE_DIR@) {
        Some(dir) => Some(seq![dir]),
        None => match env(XDG_CACHE_HOME@) {
            Some(dir) => Some(seq![dir, APP@]),
            None => match env(HOME@) {
                Some(home) => Some(seq![home, ".cache"@, APP@]),
                None => None,
            },
        },
    }
}

/// The number of seconds that is set, or the default.
pub open spec fn ttl_seconds(env: Env) -> Option<nat> {
    match env(ACTUAL_TTL_SECONDS@) {
        None => Some(DEFAULT_TTL_SECONDS as nat),
        Some(raw) => match unsigned(trimmed(raw)) {
            Some(n) => if n <= u64::MAX {
                Some(n)
            } else {
                None
            },
            None => None,
        },
    }
}

/// The configuration is the one that the variables call for.
pub open spec fn configures(env: Env, config: Config) -> bool {
    &&& given(env, ACTUAL_SERVER_URL@) matches Some(url) && config.server_url@
        == without_trailing(trimmed(url), '/')
    &&& given(env, ACTUAL_PASSWORD@) == Some(config.password@)
    &&& text_if_any(config.sync_id) == given(env, ACTUAL_SYNC_ID@)
    &&& cache_dir(env) == Some(crate::text::texts(config.cache_dir.parts@))
    &&& ttl_seconds(env) matches Some(n) && config.ttl@ == n * NANOS
}

/// The error is the first one that the variables call for.
pub open spec fn refuses(env: Env, e: ConfigError) -> bool {
    if given(env, ACTUAL_SERVER_URL@) is None {
        e matches ConfigError::Missing(var) && var@ == ACTUAL_SERVER_URL@
    } else if given(env, ACTUAL_PASSWORD@) is None {
        e matches ConfigError::Missing(var) && var@ == ACTUAL_PASSWORD@
    } else if cache_dir(env) is None {
        e is NoCacheDir
    } else {
        &&& ttl_seconds(env) is None
        &&& e matches ConfigError::Invalid { var, reason } && var@ == ACTUAL_TTL_SECONDS@
            && reason@ == unsigned_refusal(trimmed(env(ACTUAL_TTL_SECONDS@)->0))
    }
}

/// Variables by their values.
spec fn variables(
    url: Option<Seq<char>>,
    password: Option<Seq<char>>,
    id: Option<Seq<char>>,
    cache: Option<Seq<char>>,
    user_cache: Option<Seq<char>>,
    home: Option<Seq<char>>,
    ttl: Option<Seq<char>>,
) -> Env {
    |name: Seq<char>|
        if name == ACTUAL_SERVER_URL@ {
            url
        } else if name == ACTUAL_PASSWORD@ {
            password
        } else if name == ACTUAL_SYNC_ID@ {
            id
        } else if name == ACTUAL_CACHE_DIR@ {
            cache
        } else if name == XDG_CACHE_HOME@ {
            user_cache
        } else if name == HOME@ {
            home
        } else {
            ttl
        }
}

/// The names of the variables differ.
proof fn names_differ()
    ensures
        ACTUAL_SERVER_URL@.len() == 17,
        ACTUAL_PASSWORD@.len() == 15,
        ACTUAL_SYNC_ID@.len() == 14,
        ACTUAL_CACHE_DIR@.len() == 16,
        XDG_CACHE_HOME@.len() == 14,
        HOME@.len() == 4,
        ACTUAL_TTL_SECONDS@.len() == 18,
        ACTUAL_SYNC_ID@[0] != XDG_CACHE_HOME@[0],
{
    reveal_strlit("ACTUAL_SERVER_URL");
    reveal_strlit("ACTUAL_PASSWORD");
    reveal_strlit("ACTUAL_SYNC_ID");
    reveal_strlit("ACTUAL_CACHE_DIR");
    reveal_strlit("XDG_CACHE_HOME");
    reveal_strlit("HOME");
    reveal_strlit("ACTUAL_TTL_SECONDS");
}

impl Config {
    /// Functional core: `get` looks up a variable.
    pub fn from_vars<F: Fn(&str) -> Option<String>>(get: F) -> (r: Result<Self, ConfigError>)
        requires
            forall|name: &str| call_requires(get, (name,)),
        ensures
            exists|env: Env| #[trigger]
                came_back(get, env) && match r {
                    Ok(config) => configures(env, config),
                    Err(e) => refuses(env, e),
                },
            forall|env: Env| #[trigger]
                looks_up(get, env) ==> match r {
                    Ok(config) => configures(env, config),
                    Err(e) => refuses(env, e),
                },
    {
        proof {
            names_differ();
        }
        let url = required(&get, ACTUAL_SERVER_URL);
        let ghost at = choose|value: Option<Seq<char>>| #[trigger]
            asked(get, ACTUAL_SERVER_URL@, value) && taken(value, ACTUAL_SERVER_URL, url);
        assert(url is Err ==> came_back(
            get,
            variables(at, None, None, None, None, None, None),
        ));
        let server_url = match url {
            Ok(url) => strip_trailing(trim(url.as_str()).as_str(), '/'),
            Err(e) => {
                return Err(e);
            },
        };

        // Wrap the password immediately, so that the raw text has a short life.
        let password = required(&get, ACTUAL_PASSWORD);
        let ghost word = choose|value: Option<Seq<char>>| #[trigger]
            asked(get, ACTUAL_PASSWORD@, value) && taken(value, ACTUAL_PASSWORD, password);
        assert(password is Err ==> came_back(
            get,
            variables(at, word, None, None, None, None, None),
        ));
        let password = match password {
            Ok(password) => Secret::new(password),
            Err(e) => {
                return Err(e);
            },
        };

        let sync_id = get(ACTUAL_SYNC_ID);
        let ghost id = text_if_any(sync_id);
        assert(asked(get, ACTUAL_SYNC_ID@, id));
        let sync_id = match sync_id {
            Some(id) => if blank(id.as_str()) {
                None
            } else {
                Some(id)
            },
            None => None,
        };

        let ghost mut own: Option<Seq<char>> = None;
        let ghost mut shared: Option<Seq<char>> = None;
        let ghost mut home_dir: Option<Seq<char>> = None;
        let mut parts: Vec<String> = Vec::new();
        match get(ACTUAL_CACHE_DIR) {
            Some(dir) => {
                proof {
                    own = Some(dir@);
                }
                parts.push(dir);
            },
            None => match get(XDG_CACHE_HOME) {
                Some(dir) => {
                    proof {
                        shared = Some(dir@);
                    }
                    parts.push(dir);
                    parts.push(APP.to_owned());
                },
                None => match get(HOME) {
                    Some(home) => {
                        proof {
                            home_dir = Some(home@);
                        }
                        parts.push(home);
                        parts.push(".cache".to_owned());
                        parts.push(APP.to_owned());
                    },
                    None => {
                        assert(asked(get, HOME@, None));
                        assert(asked(get, XDG_CACHE_HOME@, None));
                        assert(asked(get, ACTUAL_CACHE_DIR@, None));
                        assert(came_back(get, variables(at, word, id, None, None, None, None)));
                        return Err(ConfigError::NoCacheDir);
                    },
                },
            },
        }
        assert(asked(get, ACTUAL_CACHE_DIR@, own));
        assert(own is None ==> asked(get, XDG_CACHE_HOME@, shared));
        assert(own is None && shared is None ==> asked(get, HOME@, home_dir));
        assert forall|env: Env| #[trigger] looks_up(get, env) implies cache_dir(env) == Some(
            crate::text::texts(parts@),
        ) by {
            assert(crate::text::texts(parts@) =~= cache_dir(env)->0);
        }

        let limit = get(ACTUAL_TTL_SECONDS);
        let ghost env = variables(at, word, id, own, shared, home_dir, text_if_any(limit));
        assert(asked(get, ACTUAL_TTL_SECONDS@, text_if_any(limit)));
        assert(crate::text::texts(parts@) =~= cache_dir(env)->0);
        assert(came_back(get, env));
        let ttl: u64 = match limit {
            None => DEFAULT_TTL_SECONDS,
            Some(raw) => match parse_u64(trim(raw.as_str()).as_str()) {
                Ok(n) => n,
                Err(reason) => {
                    return Err(ConfigError::Invalid { var: ACTUAL_TTL_SECONDS, reason });
                },
            },
        };

        Ok(
            Config {
                server_url,
                password,
                sync_id,
                cache_dir: CacheDir { parts },
                ttl: Span::from_secs(ttl),
            },
        )
    }
}

/// The result of reading a variable that has to be set, given its value.
spec fn taken(value: Option<Seq<char>>, key: &str, r: Result<String, ConfigError>) -> bool {
    match r {
        Ok(text) => unless_blank(value) == Some(text@),
        Err(e) => unless_blank(value) is None && (e matches ConfigError::Missing(var) && var@
            == key@),
    }
}

/// Reads a variable that has to be set.
fn required<F: Fn(&str) -> Option<String>>(get: &F, key: &'static str) -> (r: Result<
    String,
    ConfigError,
>)
    requires
        forall|name: &str| call_requires(*get, (name,)),
    ensures
        exists|value: Option<Seq<char>>| #[trigger] asked(*get, key@, value) && taken(value, key, r),
{
    let found = get(key);
    assert(asked(*get, key@, text_if_any(found)));
    match found {
        Some(value) => if blank(value.as_str()) {
            Err(ConfigError::Missing(key))
        } else {
            Ok(value)
        },
        None => Err(ConfigError::Missing(key)),
    }
}

// ----------------------------------------------------------------- laws -----
/// A variable of nothing but white space is as good as one that is not set.
pub proof fn blank_is_missing(env: Env, name: Seq<char>)
    requires
        env(name) matches Some(value) && is_blank(value),
    ensures
        given(env, name) is None,
{
}

/// A cache directory that is set wins over all others.
pub proof fn an_explicit_cache_dir_wins(env: Env, dir: Seq<char>)
    requires
        env(ACTUAL_CACHE_DIR@) == Some(dir),
    ensures
        cache_dir(env) == Some(seq![dir]),
{
}

/// The server's address ends in no slash, so that paths can be put behind it.
pub proof fn an_address_ends_in_no_slash(env: Env, config: Config)
    requires
        configures(env, config),
    ensures
        config.server_url@.len() > 0 ==> config.server_url@.last() != '/',
{
    crate::text::nothing_trails(trimmed(given(env, ACTUAL_SERVER_URL@)->0), '/');
}

/// What is set is what is used: the address without white space round it and
/// without slashes behind it, the password untouched, and the budget as it is
/// named, unless its name is blank.
pub proof fn what_is_set_is_used(
    env: Env,
    config: Config,
    before: Seq<char>,
    address: Seq<char>,
    slashes: Seq<char>,
    behind: Seq<char>,
)
    requires
        configures(env, config),
        is_blank(before),
        is_blank(behind),
        address.len() > 0,
        !crate::text::white_space(address[0]),
        !crate::text::white_space(address.last()),
        address.last() != '/',
        forall|i: int| 0 <= i < slashes.len() ==> #[trigger] slashes[i] == '/',
        env("ACTUAL_SERVER_URL"@) == Some(before + (address + slashes) + behind),
    ensures
        config.server_url@ == address,
        env("ACTUAL_PASSWORD"@) == Some(config.password@),
        config.sync_id matches Some(id) ==> env("ACTUAL_SYNC_ID"@) == Some(id@) && !is_blank(id@),
        config.sync_id is None ==> match env("ACTUAL_SYNC_ID"@) {
            Some(id) => is_blank(id),
            None => true,
        },
{
    let whole = address + slashes;
    assert(whole[0] == address[0]);
    if slashes.len() > 0 {
        assert(slashes[slashes.len() - 1] == '/');
        assert(whole.last() == '/');
    } else {
        assert(whole =~= address);
    }
    crate::text::trimming_takes_only_the_ends(before, whole, behind);
    crate::text::stripping_takes_only_the_end(address, '/', slashes);
}

/// The cache directory is the one that is set, or else one of our own where the
/// user's caches are, or else where they are by custom.
pub proof fn caches_have_their_place(env: Env)
    ensures
        env("ACTUAL_CACHE_DIR"@) matches Some(dir) ==> cache_dir(env) == Some(seq![dir]),
        env("ACTUAL_CACHE_DIR"@) is None ==> {
            &&& env("XDG_CACHE_HOME"@) matches Some(dir) ==> cache_dir(env) == Some(
                seq![dir, "actual-mcp"@],
            )
            &&& env("XDG_CACHE_HOME"@) is None ==> {
                &&& env("HOME"@) matches Some(home) ==> cache_dir(env) == Some(
                    seq![home, ".cache"@, "actual-mcp"@],
                )
                &&& env("HOME"@) is None ==> cache_dir(env) is None
            }
        },
{
}

/// The refresh interval is the number of seconds that is set, and a minute where
/// none is.
pub proof fn an_interval_is_in_seconds(env: Env, config: Config, seconds: nat)
    requires
        configures(env, config),
        seconds <= u64::MAX,
    ensures
        env("ACTUAL_TTL_SECONDS"@) is None ==> config.ttl@ == 60 * 1_000_000_000,
        env("ACTUAL_TTL_SECONDS"@) == Some(crate::text::decimal(seconds)) ==> config.ttl@ == seconds
            * 1_000_000_000,
{
    let digits = crate::text::decimal(seconds);
    crate::text::a_decimal_reads_back(seconds);
    crate::text::decimals_are_not_blank(seconds);
    let none = Seq::<char>::empty();
    crate::text::trimming_takes_only_the_ends(none, digits, none);
    assert(none + digits + none =~= digits);
}

/// Nothing is refused where everything that is needed is set.
pub proof fn only_what_is_missing_is_refused(env: Env, e: ConfigError)
    requires
        env("ACTUAL_SERVER_URL"@) matches Some(url) && !is_blank(url),
        env("ACTUAL_PASSWORD"@) matches Some(password) && !is_blank(password),
        cache_dir(env) is Some,
        env("ACTUAL_TTL_SECONDS"@) is None,
    ensures
        !refuses(env, e),
{
}

/// The variables are enough where the address and the password are more than
/// blank, there is a place for the cache, and the interval, where it is set, is a
/// number; then they are used, and otherwise the first that is missing is named.
pub proof fn a_configuration_needs_its_variables<F: Fn(&str) -> Option<String>>(
    get: F,
    env: Env,
    r: Result<Config, ConfigError>,
)
    requires
        call_ensures(Config::from_vars::<F>, (get,), r),
        looks_up(get, env),
    ensures
        r is Ok <==> {
            &&& env("ACTUAL_SERVER_URL"@) matches Some(url) && !is_blank(url)
            &&& env("ACTUAL_PASSWORD"@) matches Some(password) && !is_blank(password)
            &&& env("ACTUAL_CACHE_DIR"@) is Some || env("XDG_CACHE_HOME"@) is Some || env(
                "HOME"@,
            ) is Some
            &&& match env("ACTUAL_TTL_SECONDS"@) {
                None => true,
                Some(text) => unsigned(trimmed(text)) matches Some(n) && n <= u64::MAX,
            }
        },
        r matches Ok(config) ==> configures(env, config),
        !(env("ACTUAL_SERVER_URL"@) matches Some(url) && !is_blank(url)) ==> (r matches Err(
            ConfigError::Missing(var),
        ) && var@ == "ACTUAL_SERVER_URL"@),
{
}

} // verus!
