//! Configuration helpers: the texts of the listener addresses and URLs built from the
//! configuration, and the filter that keeps noisy log targets out of the log.

use crate::error::GoatNsError;
use crate::external::string_push;
use vstd::prelude::*;
use vstd::string::StringSliceAdditionalSpecFns;

verus! {

/// The character of a decimal digit.
pub open spec fn digit_char(d: nat) -> char {
    ((48 + d) as u8) as char
}

/// The decimal text of a number, without leading zeros.
pub open spec fn decimal_text(n: nat) -> Seq<char>
    decreases n,
{
    if n < 10 {
        seq![digit_char(n)]
    } else {
        decimal_text(n / 10).push(digit_char(n % 10))
    }
}

fn push_decimal(s: &mut String, n: u64)
    ensures
        final(s)@ == old(s)@ + decimal_text(n as nat),
    decreases n,
{
    if n >= 10 {
        push_decimal(s, n / 10);
    }
    let d: u8 = (n % 10) as u8;
    let c: char = (48u8 + d) as char;
    string_push(s, c);
    proof {
        assert(final(s)@ =~= old(s)@ + decimal_text(n as nat));
    }
}

/// The decimal text of a number.
pub fn decimal_string(n: u64) -> (r: String)
    ensures
        r@ == decimal_text(n as nat),
{
    let mut s = String::new();
    push_decimal(&mut s, n);
    assert(s@ =~= decimal_text(n as nat));
    s
}

/// `host:port`, the text of a listener address.
pub open spec fn host_port_text(host: Seq<char>, port: u16) -> Seq<char> {
    host + ":"@ + decimal_text(port as nat)
}

/// The text of a listener address on `host` and `port`: `host:port`.
pub fn listener_address_text(host: &str, port: u16) -> (r: String)
    ensures
        r@ == host_port_text(host@, port),
{
    let mut s = String::from_str(host);
    s.append(":");
    let p = decimal_string(port as u64);
    s.append(p.as_str());
    s
}

/// The URL of the status page: `https://hostname:port/status`.
pub open spec fn status_url_text(hostname: Seq<char>, api_port: u16) -> Seq<char> {
    "https://"@ + host_port_text(hostname, api_port) + "/status"@
}

/// The text of the status page URL, see [status_url_text].
pub fn status_url(hostname: &str, api_port: u16) -> (r: String)
    ensures
        r@ == status_url_text(hostname@, api_port),
{
    let mut s = String::from_str("https://");
    let hp = listener_address_text(hostname, api_port);
    s.append(hp.as_str());
    s.append("/status");
    s
}

/// The OAuth2 redirect URL built from the host name and API port when none is
/// configured: `https://hostname/auth/login` on port 443, otherwise with `:port` after the
/// host name.
pub open spec fn default_redirect_text(hostname: Seq<char>, api_port: u16) -> Seq<char> {
    if api_port == 443 {
        "https://"@ + hostname + "/auth/login"@
    } else {
        "https://"@ + host_port_text(hostname, api_port) + "/auth/login"@
    }
}

/// The default OAuth2 redirect URL text, see [default_redirect_text].
pub fn default_redirect_url(hostname: &str, api_port: u16) -> (r: String)
    ensures
        r@ == default_redirect_text(hostname@, api_port),
{
    let mut s = String::from_str("https://");
    if api_port == 443 {
        s.append(hostname);
    } else {
        let hp = listener_address_text(hostname, api_port);
        s.append(hp.as_str());
    }
    s.append("/auth/login");
    s
}

/// Keeps the log lines of some targets out of the log: those whose target starts with one
/// of the filters.
pub struct LogFilter {
    filters: Vec<&'static str>,
}

fn starts_with(text: &str, prefix: &str) -> (r: bool)
    ensures
        r == prefix@.is_prefix_of(text@),
{
    let n = prefix.unicode_len();
    let m = text.unicode_len();
    if n > m {
        return false;
    }
    let mut i: usize = 0;
    while i < n
        invariant
            n == prefix@.len(),
            m == text@.len(),
            n <= m,
            i <= n,
            forall|k: int| 0 <= k < i ==> prefix@[k] == text@[k],
        decreases n - i,
    {
        if prefix.get_char(i) != text.get_char(i) {
            return false;
        }
        i = i + 1;
    }
    true
}

impl LogFilter {
    /// A filter for the given target prefixes.
    pub fn new(filters: Vec<&'static str>) -> (r: LogFilter)
        ensures
            r.prefixes() == filters@.map_values(|f: &'static str| f@),
    {
        LogFilter { filters }
    }

    /// The target prefixes that are filtered out.
    pub closed spec fn prefixes(&self) -> Seq<Seq<char>> {
        self.filters@.map_values(|f: &'static str| f@)
    }

    /// Whether the log lines of `target` are kept out: its name starts with one of the
    /// filters.
    pub fn suppresses(&self, target: &str) -> (r: bool)
        ensures
            r == exists|i: int| 0 <= i < self.prefixes().len() && (#[trigger] self.prefixes()[i]).is_prefix_of(target@),
    {
        let mut i: usize = 0;
        while i < self.filters.len()
            invariant
                0 <= i <= self.filters@.len(),
                forall|k: int| 0 <= k < i ==> !(#[trigger] self.prefixes()[k]).is_prefix_of(target@),
            decreases self.filters@.len() - i,
        {
            if starts_with(target, self.filters[i]) {
                assert(self.prefixes()[i as int] == self.filters@[i as int]@);
                return true;
            }
            assert(self.prefixes()[i as int] == self.filters@[i as int]@);
            i = i + 1;
        }
        false
    }
}

/// A parsed URL.
#[verifier::external_type_specification]
#[verifier::external_body]
pub struct ExUrl(url::Url);

/// The error `url::Url::parse` and `url::Url::join` report.
#[verifier::external_type_specification]
#[verifier::external_body]
pub struct ExUrlParseError(url::ParseError);

/// The text a URL holds: its serialization.
pub uninterp spec fn url_serialization(u: url::Url) -> Seq<char>;

/// What `url::Url::parse` makes of a text: the serialization of the absolute URL it
/// spells, or `None` when it spells none.
pub uninterp spec fn url_parsed(input: Seq<char>) -> Option<Seq<char>>;

/// What `url::Url::path` gives for the URL with a serialization: its path.
pub uninterp spec fn url_path_of(serialization: Seq<char>) -> Seq<char>;

/// What `url::Url::join` gives for the URL with a serialization and an input text: the
/// serialization of the URL the input names relative to it, or `None` when it names none.
pub uninterp spec fn url_joined(serialization: Seq<char>, input: Seq<char>) -> Option<Seq<char>>;

/// Calls `url::Url::parse`; the outcome is named [url_parsed].
#[verifier::external_body]
fn url_parse(input: &str) -> (r: Result<url::Url, url::ParseError>)
    ensures
        r is Ok <==> url_parsed(input@) is Some,
        r matches Ok(u) ==> Some(url_serialization(u)) == url_parsed(input@),
{
    url::Url::parse(input)
}

/// Calls `url::Url::path`; the result is named [url_path_of].
#[verifier::external_body]
fn url_path(u: &url::Url) -> (r: &str)
    ensures
        r@ == url_path_of(url_serialization(*u)),
{
    u.path()
}

/// Calls `url::Url::join`; the outcome is named [url_joined].
#[verifier::external_body]
fn url_join(u: &url::Url, input: &str) -> (r: Result<url::Url, url::ParseError>)
    ensures
        r is Ok <==> url_joined(url_serialization(*u), input@) is Some,
        r matches Ok(v) ==> Some(url_serialization(v)) == url_joined(url_serialization(*u), input@),
{
    u.join(input)
}

/// Calls `url::Url::as_str`: the URL's serialization.
#[verifier::external_body]
fn url_as_str(u: &url::Url) -> (r: &str)
    ensures
        r@ == url_serialization(*u),
{
    u.as_str()
}

/// Whether a text ends with another.
pub open spec fn ends_with(s: Seq<char>, suffix: Seq<char>) -> bool {
    suffix.len() <= s.len() && s.skip(s.len() - suffix.len()) == suffix
}

/// Whether `s` ends with `suffix`, see [ends_with].
pub fn str_ends_with(s: &str, suffix: &str) -> (r: bool)
    ensures
        r == ends_with(s@, suffix@),
{
    let n = s.unicode_len();
    let m = suffix.unicode_len();
    if m > n {
        return false;
    }
    let start = n - m;
    let mut i: usize = 0;
    while i < m
        invariant
            n == s@.len(),
            m == suffix@.len(),
            start == n - m,
            i <= m,
            forall|k: int| 0 <= k < i ==> s@[start + k] == suffix@[k],
        decreases m - i,
    {
        if s.get_char(start + i) != suffix.get_char(i) {
            assert(s@.skip(start as int)[i as int] != suffix@[i as int]);
            return false;
        }
        i = i + 1;
    }
    assert(s@.skip(start as int) =~= suffix@);
    true
}

/// The path the OAuth2 redirect URL must end with.
pub open spec fn login_path() -> Seq<char> {
    "/auth/login"@
}

/// The OAuth2 redirect URL: a configured URL that parses, as it is when its path already
/// ends with `/auth/login` and otherwise with its path replaced through joining
/// `/auth/login`; with none configured (or one that does not parse), the default URL built
/// from the host name and API port (see [default_redirect_text]), parsed. `None` where
/// that join or that parse fails.
pub open spec fn redirect_text(configured: Option<Seq<char>>, hostname: Seq<char>, api_port: u16) -> Option<Seq<char>> {
    match configured {
        Some(t) if url_parsed(t) is Some => {
            let u = url_parsed(t)->0;
            if ends_with(url_path_of(u), login_path()) {
                Some(u)
            } else {
                url_joined(u, login_path())
            }
        },
        _ => url_parsed(default_redirect_text(hostname, api_port)),
    }
}

/// The OAuth2 redirect URL, see [redirect_text]; an error where the configured URL cannot
/// take the login path or the default URL does not parse.
pub fn redirect_url(configured: Option<&str>, hostname: &str, api_port: u16) -> (r: Result<String, GoatNsError>)
    ensures
        match redirect_text(
            match configured {
                Some(t) => Some(t@),
                None => None,
            },
            hostname@,
            api_port,
        ) {
            Some(t) => r matches Ok(v) && v@ == t,
            None => r matches Err(e) && e is InvalidValue,
        },
{
    let parsed = match configured {
        Some(t) => match url_parse(t) {
            Ok(u) => Some(u),
            Err(_) => None,
        },
        None => None,
    };
    match parsed {
        Some(u) => {
            if str_ends_with(url_path(&u), "/auth/login") {
                Ok(String::from_str(url_as_str(&u)))
            } else {
                match url_join(&u, "/auth/login") {
                    Ok(v) => Ok(String::from_str(url_as_str(&v))),
                    Err(_) => Err(GoatNsError::InvalidValue(String::from_str("The configured OAuth2 redirect URL cannot take the login path"))),
                }
            }
        },
        None => {
            let text = default_redirect_url(hostname, api_port);
            match url_parse(text.as_str()) {
                Ok(u) => Ok(String::from_str(url_as_str(&u))),
                Err(_) => Err(GoatNsError::InvalidValue(String::from_str("Failed to parse hostname/api_port into a valid URL"))),
            }
        },
    }
}

} // verus!
