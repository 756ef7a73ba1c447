//! Rules of talking to `api.met.no` and `frost.met.no`: the identifying
//! `User-Agent`, base URLs, credentials and errors.
use vstd::prelude::*;
use vstd::string::{StrSliceExecFns, StringExecFns};

use url::Url;

use crate::text::{contains, contains_char, contains_text, decimal, push_decimal, trim, trimmed};

pub mod laws;

verus! {

/// Errors surfaced by the client.
#[derive(Debug, PartialEq, Eq)]
pub enum ClientError {
    InvalidUserAgent(&'static str),
    InvalidBaseUrl(String),
    /// A required credential (e.g. the Frost `client_id`) is not configured.
    MissingCredentials(&'static str),
    Http { status: u16, body: Option<String> },
    Network(String),
    Decode(String),
}

impl ClientError {
    /// The error in words.
    pub open spec fn message_text(self) -> Seq<char> {
        match self {
            ClientError::InvalidUserAgent(why) => "invalid User-Agent: "@ + why@,
            ClientError::InvalidBaseUrl(why) => "invalid base URL: "@ + why@,
            ClientError::MissingCredentials(what) => "missing credentials: "@ + what@,
            ClientError::Http { status, body } => "HTTP error: "@ + decimal(status as nat) + (
            match body {
                Some(b) => " ("@ + b@ + ")"@,
                None => ""@,
            }),
            ClientError::Network(why) => "network error: "@ + why@,
            ClientError::Decode(why) => "could not parse response: "@ + why@,
        }
    }

    /// The error in words.
    pub fn message(&self) -> (text: String)
        ensures
            text@ == self.message_text(),
    {
        let mut text = String::new();
        match self {
            ClientError::InvalidUserAgent(why) => {
                text.append("invalid User-Agent: ");
                text.append(why);
            },
            ClientError::InvalidBaseUrl(why) => {
                text.append("invalid base URL: ");
                text.append(why.as_str());
            },
            ClientError::MissingCredentials(what) => {
                text.append("missing credentials: ");
                text.append(what);
            },
            ClientError::Http { status, body } => {
                text.append("HTTP error: ");
                push_decimal(&mut text, *status as u64);
                match body {
                    Some(b) => {
                        text.append(" (");
                        text.append(b.as_str());
                        text.append(")");
                    },
                    None => {
                        text.append("");
                    },
                }
            },
            ClientError::Network(why) => {
                text.append("network error: ");
                text.append(why.as_str());
            },
            ClientError::Decode(why) => {
                text.append("could not parse response: ");
                text.append(why.as_str());
            },
        }
        proof {
            assert(text@ =~= self.message_text());
        }
        text
    }
}

// ---- User-Agent ----

/// Tokens that MET bans from the header.
pub open spec fn has_banned_token(header: Seq<char>) -> bool {
    ||| contains_text(header, "okhttp"@)
    ||| contains_text(header, "Dalvik"@)
    ||| contains_text(header, "fhttp"@)
    ||| contains_text(header, "Java"@)
}

/// A contact looks like an email address or a URL.
pub open spec fn looks_like_contact(contact: Seq<char>) -> bool {
    contact.contains('@') || contains_text(contact, "://"@) || contact.contains('.')
}

/// `app/version contact`.
pub open spec fn header_text(app: Seq<char>, version: Seq<char>, contact: Seq<char>) -> Seq<char> {
    trimmed(app) + "/"@ + trimmed(version) + " "@ + trimmed(contact)
}

/// A MET-TOS-compliant `User-Agent`. Validates at construction so downstream
/// code can trust the value.
#[derive(Debug)]
pub struct UserAgent {
    header: String,
}

impl View for UserAgent {
    type V = Seq<char>;

    closed spec fn view(&self) -> Seq<char> {
        self.header@
    }
}

/// Why a `User-Agent` is refused, if it is.
pub open spec fn refusal(app: Seq<char>, version: Seq<char>, contact: Seq<char>) -> Option<
    Seq<char>,
> {
    if trimmed(app).len() == 0 {
        Some("app name must not be empty"@)
    } else if trimmed(version).len() == 0 {
        Some("version must not be empty"@)
    } else if trimmed(contact).len() == 0 {
        Some("contact (email or URL) must not be empty"@)
    } else if !looks_like_contact(trimmed(contact)) {
        Some("contact must look like an email or URL"@)
    } else if has_banned_token(header_text(app, version, contact)) {
        Some("uses a banned User-Agent token"@)
    } else {
        None
    }
}

impl UserAgent {
    #[verifier::type_invariant]
    spec fn compliant(self) -> bool {
        !has_banned_token(self.header@)
    }

    /// `app` is something like `"grusindeks"`; `version` like `"0.1.0"`;
    /// `contact` an email address or URL where the operator can be reached.
    pub fn new(app: &str, version: &str, contact: &str) -> (result: Result<Self, ClientError>)
        ensures
            match refusal(app@, version@, contact@) {
                Some(why) => result matches Err(ClientError::InvalidUserAgent(said)) && said@
                    == why,
                None => result matches Ok(agent) && agent@ == header_text(
                    app@,
                    version@,
                    contact@,
                ),
            },
    {
        let a = trim(app);
        if a.is_empty() {
            return Err(ClientError::InvalidUserAgent("app name must not be empty"));
        }
        let v = trim(version);
        if v.is_empty() {
            return Err(ClientError::InvalidUserAgent("version must not be empty"));
        }
        let c = trim(contact);
        if c.is_empty() {
            return Err(ClientError::InvalidUserAgent("contact (email or URL) must not be empty"));
        }
        if !(contains_char(c, '@') || contains(c, "://") || contains_char(c, '.')) {
            return Err(ClientError::InvalidUserAgent("contact must look like an email or URL"));
        }
        let mut header = String::new();
        header.append(a);
        header.append("/");
        header.append(v);
        header.append(" ");
        header.append(c);
        proof {
            assert(header@ =~= header_text(app@, version@, contact@));
        }
        if contains(header.as_str(), "okhttp") || contains(header.as_str(), "Dalvik") || contains(
            header.as_str(),
            "fhttp",
        ) || contains(header.as_str(), "Java") {
            return Err(ClientError::InvalidUserAgent("uses a banned User-Agent token"));
        }
        Ok(UserAgent { header })
    }

    /// The header value. It never holds a banned token.
    pub fn as_str(&self) -> (header: &str)
        ensures
            header@ == self@,
            !has_banned_token(header@),
    {
        proof {
            use_type_invariant(self);
        }
        self.header.as_str()
    }
}

// ---- Configuration ----

/// Configuration of the client.
#[derive(Debug)]
pub struct MetClientConfig {
    pub user_agent: UserAgent,
    /// Base URL for `api.met.no`.
    pub api_base: String,
    /// Base URL for `frost.met.no`.
    pub frost_base: String,
    /// Frost requires HTTP Basic auth with a `client_id` (password is empty).
    pub frost_client_id: Option<String>,
    pub timeout_secs: u64,
    /// Where the anonymous endpoints are cached, if anywhere.
    pub cache_dir: Option<String>,
}

impl MetClientConfig {
    pub const DEFAULT_API_BASE: &'static str = "https://api.met.no/";

    pub const DEFAULT_FROST_BASE: &'static str = "https://frost.met.no/";

    /// The real endpoints, a timeout of 15 seconds, no cache.
    pub fn production(user_agent: UserAgent, frost_client_id: Option<String>) -> (config: Self)
        ensures
            config.user_agent == user_agent,
            config.api_base@ == MetClientConfig::DEFAULT_API_BASE@,
            config.frost_base@ == MetClientConfig::DEFAULT_FROST_BASE@,
            config.frost_client_id == frost_client_id,
            config.timeout_secs == 15,
            config.cache_dir is None,
    {
        MetClientConfig {
            user_agent,
            api_base: MetClientConfig::DEFAULT_API_BASE.to_owned(),
            frost_base: MetClientConfig::DEFAULT_FROST_BASE.to_owned(),
            frost_client_id,
            timeout_secs: 15,
            cache_dir: None,
        }
    }

    /// The configuration of a run. Base URLs may be overridden. Responses are
    /// cached under `cache_dir`, else under `default_cache_dir` where there is
    /// one; not at all while `api_base` is overridden.
    pub fn for_run(
        user_agent: UserAgent,
        frost_client_id: Option<String>,
        api_base: Option<String>,
        frost_base: Option<String>,
        cache_dir: Option<String>,
        default_cache_dir: Option<String>,
    ) -> (config: Self)
        ensures
            config.user_agent == user_agent,
            config.frost_client_id == frost_client_id,
            config.timeout_secs == 15,
            config.api_base@ == (match api_base {
                Some(base) => base@,
                None => MetClientConfig::DEFAULT_API_BASE@,
            }),
            config.frost_base@ == (match frost_base {
                Some(base) => base@,
                None => MetClientConfig::DEFAULT_FROST_BASE@,
            }),
            config.cache_dir == (if api_base is Some {
                None
            } else if cache_dir is Some {
                cache_dir
            } else {
                default_cache_dir
            }),
    {
        let mut config = MetClientConfig::production(user_agent, frost_client_id);
        match api_base {
            Some(base) => {
                config.api_base = base;
            },
            None => {
                config.cache_dir = match cache_dir {
                    Some(dir) => Some(dir),
                    None => default_cache_dir,
                };
            },
        }
        match frost_base {
            Some(base) => {
                config.frost_base = base;
            },
            None => {},
        }
        config
    }
}

// ---- URLs ----

/// What [`url::Url::join`] makes of a base URL and a reference: the absolute
/// URL, or the words of its error.
pub uninterp spec fn url_join(base: Seq<char>, reference: Seq<char>) -> Result<
    Seq<char>,
    Seq<char>,
>;

/// What [`url::Url::query_pairs_mut`] makes of a URL whose query is cleared
/// and then given these names and values: the URL, or the words of the error
/// where the text is no URL.
pub uninterp spec fn url_with_query(url: Seq<char>, pairs: Seq<(Seq<char>, Seq<char>)>) -> Result<
    Seq<char>,
    Seq<char>,
>;

/// What a fallible text says.
pub open spec fn result_view(result: Result<String, String>) -> Result<Seq<char>, Seq<char>> {
    match result {
        Ok(text) => Ok(text@),
        Err(why) => Err(why@),
    }
}

/// What names and values say.
pub open spec fn pair_views(pairs: Seq<(String, String)>) -> Seq<(Seq<char>, Seq<char>)> {
    pairs.map_values(|p: (String, String)| (p.0@, p.1@))
}

/// `url::Url::join` on the URL that `base` reads as: the result is a function
/// of the two texts.
#[verifier::external_body]
fn join_url(base: &str, reference: &str) -> (result: Result<String, String>)
    ensures
        result_view(result) == url_join(base@, reference@),
{
    match Url::parse(base).and_then(|url| url.join(reference)) {
        Ok(url) => Ok(url.into()),
        Err(e) => Err(e.to_string()),
    }
}

/// `url::Url::query_pairs_mut`, then `clear` and `extend_pairs`, on the URL
/// that `url` reads as: the result is a function of the URL and of the names
/// and values, in their order.
#[verifier::external_body]
pub(crate) fn set_query(url: &str, pairs: &Vec<(String, String)>) -> (result: Result<String, String>)
    ensures
        result_view(result) == url_with_query(url@, pair_views(pairs@)),
{
    match Url::parse(url) {
        Ok(mut url) => {
            url.query_pairs_mut().clear().extend_pairs(pairs);
            Ok(url.into())
        }
        Err(e) => Err(e.to_string()),
    }
}

/// `path` without the slashes that it starts with.
pub open spec fn without_leading_slashes(path: Seq<char>) -> Seq<char>
    decreases path.len(),
{
    if path.len() > 0 && path[0] == '/' {
        without_leading_slashes(path.drop_first())
    } else {
        path
    }
}

proof fn lemma_without_leading_slashes(path: Seq<char>, from: int)
    requires
        0 <= from <= path.len(),
        forall|i: int| 0 <= i < from ==> #[trigger] path[i] == '/',
        from < path.len() ==> path[from] != '/',
    ensures
        without_leading_slashes(path) == path.subrange(from, path.len() as int),
    decreases from,
{
    if from == 0 {
        assert(path.subrange(0, path.len() as int) =~= path);
    } else {
        let rest = path.drop_first();
        assert forall|i: int| 0 <= i < from - 1 implies #[trigger] rest[i] == '/' by {
            assert(rest[i] == path[i + 1]);
        }
        assert(path[0] == '/');
        lemma_without_leading_slashes(rest, from - 1);
        assert(rest.subrange(from - 1, rest.len() as int) =~= path.subrange(
            from,
            path.len() as int,
        ));
    }
}

/// The outcome of building a URL: the URL, or an invalid base URL.
pub open spec fn is_url_outcome(
    result: Result<String, ClientError>,
    built: Result<Seq<char>, Seq<char>>,
) -> bool {
    match built {
        Ok(url) => result matches Ok(text) && text@ == url,
        Err(why) => result matches Err(ClientError::InvalidBaseUrl(said)) && said@ == why,
    }
}

/// Turn what building a URL gave into the client's own result.
pub fn url_outcome(built: Result<String, String>) -> (result: Result<String, ClientError>)
    ensures
        is_url_outcome(result, result_view(built)),
{
    match built {
        Ok(url) => Ok(url),
        Err(why) => Err(ClientError::InvalidBaseUrl(why)),
    }
}

/// Build an absolute URL relative to `base`.
fn url_under(base: &str, path: &str) -> (result: Result<String, ClientError>)
    ensures
        is_url_outcome(result, url_join(base@, without_leading_slashes(path@))),
{
    let n: usize = path.unicode_len();
    let mut from: usize = 0;
    while from < n && path.get_char(from) == '/'
        invariant
            from <= n,
            n == path@.len(),
            forall|i: int| 0 <= i < from ==> #[trigger] path@[i] == '/',
        decreases n - from,
    {
        from = from + 1;
    }
    proof {
        lemma_without_leading_slashes(path@, from as int);
    }
    url_outcome(join_url(base, path.substring_char(from, n)))
}

/// The endpoints to ask, and how to present oneself to them.
#[derive(Debug)]
pub struct MetClient {
    config: MetClientConfig,
}

impl MetClient {
    pub closed spec fn spec_config(self) -> MetClientConfig {
        self.config
    }

    pub fn new(config: MetClientConfig) -> (client: Self)
        ensures
            client.spec_config() == config,
    {
        MetClient { config }
    }

    pub fn config(&self) -> (config: &MetClientConfig)
        ensures
            *config == self.spec_config(),
    {
        &self.config
    }

    /// Build an absolute URL relative to `api_base`.
    pub fn api_url(&self, path: &str) -> (result: Result<String, ClientError>)
        ensures
            is_url_outcome(result, url_join(self.spec_config().api_base@, without_leading_slashes(path@))),
    {
        url_under(self.config.api_base.as_str(), path)
    }

    /// Build an absolute URL relative to `frost_base`.
    pub fn frost_url(&self, path: &str) -> (result: Result<String, ClientError>)
        ensures
            is_url_outcome(result, url_join(self.spec_config().frost_base@, without_leading_slashes(path@))),
    {
        url_under(self.config.frost_base.as_str(), path)
    }

    /// The URL for a point under `path`. The coordinates come with four
    /// decimals: more would break the terms of service.
    pub fn point_url(&self, path: &str, lat: &str, lon: &str) -> (result: Result<
        String,
        ClientError,
    >)
        ensures
            match url_join(self.spec_config().api_base@, without_leading_slashes(path@)) {
                Ok(url) => is_url_outcome(
                    result,
                    url_with_query(url, seq![("lat"@, lat@), ("lon"@, lon@)]),
                ),
                Err(why) => is_url_outcome(result, Err(why)),
            },
    {
        match self.api_url(path) {
            Ok(url) => {
                let mut pairs: Vec<(String, String)> = Vec::new();
                pairs.push(("lat".to_owned(), lat.to_owned()));
                pairs.push(("lon".to_owned(), lon.to_owned()));
                proof {
                    assert(pair_views(pairs@) =~= seq![("lat"@, lat@), ("lon"@, lon@)]);
                }
                url_outcome(set_query(url.as_str(), &pairs))
            },
            Err(e) => Err(e),
        }
    }
}

} // verus!
