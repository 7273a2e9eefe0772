//! Some items for implementing [Content-Security-Policy](https://developer.mozilla.org/en-US/docs/Web/HTTP/Headers/Content-Security-Policy/)
//! headers: the directives, their source values, and the text they put in a header.

use crate::error::GoatNsError;
use vstd::prelude::*;
use vstd::string::StringSliceAdditionalSpecFns;

verus! {

/// The kinds of CSP directive.
#[derive(Clone, Copy, Debug, Eq, PartialEq)]
pub enum CspDirectiveType {
    ChildSrc,
    ConnectSrc,
    DefaultSrc,
    FontSrc,
    ImgSrc,
    ManifestSrc,
    MediaSrc,
    ObjectSrc,
    PrefetchSrc,
    ScriptSource,
    ScriptSourceElem,
    StyleSource,
    StyleSourceElem,
    WorkerSource,
    BaseUri,
    Sandbox,
    FormAction,
    FrameAncestors,
    /// Experimental!
    NavigateTo,
    /// Experimental/Deprecated, you should use this AND report-to
    ReportUri,
    /// Experimental/Deprecated, you should use this AND report-uri
    ReportTo,
    /// Experimental!
    RequireTrustedTypesFor,
    /// Experimental!
    TrustedTypes,
    UpgradeInsecureRequests,
}

/// The name a directive goes by in a header.
pub open spec fn directive_type_name(t: CspDirectiveType) -> Seq<char> {
    match t {
        CspDirectiveType::ChildSrc => "child-src"@,
        CspDirectiveType::ConnectSrc => "connect-src"@,
        CspDirectiveType::DefaultSrc => "default-src"@,
        CspDirectiveType::FontSrc => "font-src"@,
        CspDirectiveType::ImgSrc => "img-src"@,
        CspDirectiveType::ManifestSrc => "manifest-src"@,
        CspDirectiveType::MediaSrc => "media-src"@,
        CspDirectiveType::ObjectSrc => "object-src"@,
        CspDirectiveType::PrefetchSrc => "prefetch-src"@,
        CspDirectiveType::ScriptSource => "script-src"@,
        CspDirectiveType::ScriptSourceElem => "script-src-elem"@,
        CspDirectiveType::StyleSource => "style-src"@,
        CspDirectiveType::StyleSourceElem => "style-src-elem"@,
        CspDirectiveType::WorkerSource => "worker-src"@,
        CspDirectiveType::BaseUri => "base-uri"@,
        CspDirectiveType::Sandbox => "sandbox"@,
        CspDirectiveType::FormAction => "form-action"@,
        CspDirectiveType::FrameAncestors => "frame-ancestors"@,
        CspDirectiveType::NavigateTo => "navigate-to"@,
        CspDirectiveType::ReportUri => "report-uri"@,
        CspDirectiveType::ReportTo => "report-to"@,
        CspDirectiveType::RequireTrustedTypesFor => "require-trusted-types-for"@,
        CspDirectiveType::TrustedTypes => "trusted-types"@,
        CspDirectiveType::UpgradeInsecureRequests => "upgrade-insecure-requests"@,
    }
}

impl CspDirectiveType {
    /// The directive's name, see [directive_type_name].
    pub fn as_str(self) -> (r: &'static str)
        ensures
            r@ == directive_type_name(self),
    {
        match self {
            CspDirectiveType::ChildSrc => "child-src",
            CspDirectiveType::ConnectSrc => "connect-src",
            CspDirectiveType::DefaultSrc => "default-src",
            CspDirectiveType::FontSrc => "font-src",
            CspDirectiveType::ImgSrc => "img-src",
            CspDirectiveType::ManifestSrc => "manifest-src",
            CspDirectiveType::MediaSrc => "media-src",
            CspDirectiveType::ObjectSrc => "object-src",
            CspDirectiveType::PrefetchSrc => "prefetch-src",
            CspDirectiveType::ScriptSource => "script-src",
            CspDirectiveType::ScriptSourceElem => "script-src-elem",
            CspDirectiveType::StyleSource => "style-src",
            CspDirectiveType::StyleSourceElem => "style-src-elem",
            CspDirectiveType::WorkerSource => "worker-src",
            CspDirectiveType::BaseUri => "base-uri",
            CspDirectiveType::Sandbox => "sandbox",
            CspDirectiveType::FormAction => "form-action",
            CspDirectiveType::FrameAncestors => "frame-ancestors",
            CspDirectiveType::NavigateTo => "navigate-to",
            CspDirectiveType::ReportUri => "report-uri",
            CspDirectiveType::ReportTo => "report-to",
            CspDirectiveType::RequireTrustedTypesFor => "require-trusted-types-for",
            CspDirectiveType::TrustedTypes => "trusted-types",
            CspDirectiveType::UpgradeInsecureRequests => "upgrade-insecure-requests",
        }
    }

    /// The directive's name as an owned string.
    pub fn into_string(self) -> (r: String)
        ensures
            r@ == directive_type_name(self),
    {
        String::from_str(self.as_str())
    }
}

/// Enum for [CSP source values](https://developer.mozilla.org/en-US/docs/Web/HTTP/Headers/Content-Security-Policy/Sources#sources)
#[derive(Clone, Copy, Debug, Eq, PartialEq)]
pub enum CspValue {
    /// The source value `'none'`
    NoneValue,
    /// Equivalent to 'self' but can't just `Self` in rust
    SelfSite,
    StrictDynamic,
    ReportSample,
    UnsafeInline,
    UnsafeEval,
    UnsafeHashes,
    /// Experimental!
    UnsafeAllowRedirects,
    Host { value: &'static str },
    SchemeHttps,
    SchemeHttp,
    SchemeData,
    SchemeOther { value: &'static str },
    Nonce { value: &'static str },
    Sha256 { value: &'static str },
    Sha384 { value: &'static str },
    Sha512 { value: &'static str },
}

/// The text of a source value in a header.
pub open spec fn csp_value_text(v: CspValue) -> Seq<char> {
    match v {
        CspValue::NoneValue => "'none'"@,
        CspValue::SelfSite => "'self'"@,
        CspValue::StrictDynamic => "'strict-dynamic'"@,
        CspValue::ReportSample => "'report-sample'"@,
        CspValue::UnsafeInline => "'unsafe-inline'"@,
        CspValue::UnsafeEval => "'unsafe-eval'"@,
        CspValue::UnsafeHashes => "'unsafe-hashes'"@,
        CspValue::UnsafeAllowRedirects => "'unsafe-allow-redirects'"@,
        CspValue::SchemeHttps => "https:"@,
        CspValue::SchemeHttp => "http:"@,
        CspValue::SchemeData => "data:"@,
        CspValue::Host { value } => value@,
        CspValue::SchemeOther { value } => value@,
        CspValue::Nonce { value } => "nonce-"@ + value@,
        CspValue::Sha256 { value } => "sha256-"@ + value@,
        CspValue::Sha384 { value } => "sha384-"@ + value@,
        CspValue::Sha512 { value } => "sha512-"@ + value@,
    }
}

fn prefixed(prefix: &str, value: &str) -> (r: String)
    ensures
        r@ == prefix@ + value@,
{
    let mut s = String::from_str(prefix);
    s.append(value);
    s
}

impl CspValue {
    /// The value's text, see [csp_value_text].
    pub fn into_string(self) -> (r: String)
        ensures
            r@ == csp_value_text(self),
    {
        match self {
            CspValue::NoneValue => String::from_str("'none'"),
            CspValue::SelfSite => String::from_str("'self'"),
            CspValue::StrictDynamic => String::from_str("'strict-dynamic'"),
            CspValue::ReportSample => String::from_str("'report-sample'"),
            CspValue::UnsafeInline => String::from_str("'unsafe-inline'"),
            CspValue::UnsafeEval => String::from_str("'unsafe-eval'"),
            CspValue::UnsafeHashes => String::from_str("'unsafe-hashes'"),
            CspValue::UnsafeAllowRedirects => String::from_str("'unsafe-allow-redirects'"),
            CspValue::SchemeHttps => String::from_str("https:"),
            CspValue::SchemeHttp => String::from_str("http:"),
            CspValue::SchemeData => String::from_str("data:"),
            CspValue::Host { value } => String::from_str(value),
            CspValue::SchemeOther { value } => String::from_str(value),
            CspValue::Nonce { value } => prefixed("nonce-", value),
            CspValue::Sha256 { value } => prefixed("sha256-", value),
            CspValue::Sha384 { value } => prefixed("sha384-", value),
            CspValue::Sha512 { value } => prefixed("sha512-", value),
        }
    }
}

/// One directive: its kind and its source values.
#[derive(Debug, Clone)]
pub struct CspDirective {
    pub directive_type: CspDirectiveType,
    pub values: Vec<CspValue>,
}

/// The values of a directive as they follow its name: each preceded by a space.
pub open spec fn values_text(vs: Seq<CspValue>) -> Seq<char>
    decreases vs.len(),
{
    if vs.len() == 0 {
        Seq::empty()
    } else {
        values_text(vs.drop_last()) + " "@ + csp_value_text(vs.last())
    }
}

/// The text of a directive on its own: its values, each preceded by a space, then `;`.
/// The directive's name is not part of it.
pub open spec fn directive_text(d: CspDirective) -> Seq<char> {
    values_text(d.values@) + ";"@
}

/// The text of a directive inside a full header: a space, its name, a space, its values
/// each preceded by a space, then `;`.
pub open spec fn directive_header_text(d: CspDirective) -> Seq<char> {
    " "@ + directive_type_name(d.directive_type) + " "@ + values_text(d.values@) + ";"@
}

/// The text of a list of directives in a header, one after the other.
pub open spec fn directives_header_text(ds: Seq<CspDirective>) -> Seq<char>
    decreases ds.len(),
{
    if ds.len() == 0 {
        Seq::empty()
    } else {
        directives_header_text(ds.drop_last()) + directive_header_text(ds.last())
    }
}

fn append_values(res: &mut String, values: &Vec<CspValue>)
    ensures
        final(res)@ == old(res)@ + values_text(values@),
{
    let ghost start = res@;
    let mut i: usize = 0;
    while i < values.len()
        invariant
            0 <= i <= values@.len(),
            res@ == start + values_text(values@.take(i as int)),
        decreases values@.len() - i,
    {
        assert(values@.take(i + 1).drop_last() =~= values@.take(i as int));
        let text = values[i].into_string();
        res.append(" ");
        res.append(text.as_str());
        proof {
            assert(res@ =~= start + values_text(values@.take(i + 1)));
        }
        i = i + 1;
    }
    assert(values@.take(values@.len() as int) =~= values@);
}

impl CspDirective {
    /// A directive of the given kind with the given values.
    pub fn from(directive_type: CspDirectiveType, values: Vec<CspValue>) -> (r: Self)
        ensures
            r.directive_type == directive_type,
            r.values@ == values@,
    {
        CspDirective { directive_type, values }
    }

    /// Build a default-src 'self' directive
    pub fn default_self() -> (r: Self)
        ensures
            r.directive_type == CspDirectiveType::DefaultSrc,
            r.values@ == seq![CspValue::SelfSite],
    {
        CspDirective { directive_type: CspDirectiveType::DefaultSrc, values: vec![CspValue::SelfSite] }
    }

    /// The directive's text, see [directive_text].
    pub fn to_string(&self) -> (r: String)
        ensures
            r@ == directive_text(*self),
    {
        let mut res = String::new();
        append_values(&mut res, &self.values);
        res.append(";");
        res
    }
}

/// Whether a byte may stand in an HTTP header value: a tab, or anything from the space
/// up except DEL.
pub open spec fn header_value_byte(b: u8) -> bool {
    (b >= 32 && b != 127) || b == 9
}

/// The bytes a header value holds.
pub uninterp spec fn header_value_bytes(v: http::HeaderValue) -> Seq<u8>;

/// Calls `http::HeaderValue::from_str`: it succeeds exactly when every byte of the text
/// may stand in a header value (see [header_value_byte]), and the value then holds a copy
/// of the text's bytes.
#[verifier::external_body]
fn header_value_from_str(s: &str) -> (r: Result<http::HeaderValue, http::header::InvalidHeaderValue>)
    ensures
        r is Ok <==> forall|i: int| 0 <= i < s.spec_bytes().len() ==> header_value_byte(#[trigger] s.spec_bytes()[i]),
        r matches Ok(v) ==> header_value_bytes(v) == s.spec_bytes(),
{
    http::HeaderValue::from_str(s)
}

/// An HTTP header value.
#[verifier::external_type_specification]
#[verifier::external_body]
pub struct ExHeaderValue(http::HeaderValue);

/// The error `http::HeaderValue::from_str` reports.
#[verifier::external_type_specification]
#[verifier::external_body]
pub struct ExInvalidHeaderValue(http::header::InvalidHeaderValue);

/// A compiled set of regular expressions.
#[verifier::external_type_specification]
#[verifier::external_body]
pub struct ExRegexSet(regex::RegexSet);

/// Whether `regex::RegexSet::new` compiles a list of patterns, under the crate's default
/// limits.
pub uninterp spec fn regex_set_compiles(patterns: Seq<Seq<char>>) -> bool;

/// The texts of a list of pattern strings.
pub open spec fn pattern_texts(patterns: Seq<&str>) -> Seq<Seq<char>> {
    patterns.map_values(|p: &str| p@)
}

/// Calls `regex::RegexSet::new` on the patterns: it succeeds exactly when they compile,
/// see [regex_set_compiles]. The lone pattern `.*` (any character, repeated) is valid
/// syntax and compiles.
#[verifier::external_body]
fn regex_set_new(patterns: &Vec<&str>) -> (r: Result<regex::RegexSet, regex::Error>)
    ensures
        r is Ok <==> regex_set_compiles(pattern_texts(patterns@)),
        pattern_texts(patterns@) == seq![".*"@] ==> r is Ok,
{
    regex::RegexSet::new(patterns)
}

/// Turns a header text into a header value holding the text's bytes; an error when a
/// byte of it may not stand in a header value.
pub fn header_value(text: &str) -> (r: Result<http::HeaderValue, GoatNsError>)
    ensures
        r is Ok <==> forall|i: int| 0 <= i < text.spec_bytes().len() ==> header_value_byte(#[trigger] text.spec_bytes()[i]),
        r matches Ok(v) ==> header_value_bytes(v) == text.spec_bytes(),
        r matches Err(e) ==> e is InvalidValue,
{
    match header_value_from_str(text) {
        Ok(v) => Ok(v),
        Err(_) => Err(GoatNsError::InvalidValue(String::from_str("Invalid header value"))),
    }
}

/// Build these to find urls to add headers to
pub struct CspUrlMatcher {
    pub matcher: regex::RegexSet,
    pub directives: Vec<CspDirective>,
}

impl CspUrlMatcher {
    /// A matcher with no directives yet.
    pub fn new(matcher: regex::RegexSet) -> (r: Self)
        ensures
            r.matcher == matcher,
            r.directives@.len() == 0,
    {
        CspUrlMatcher { matcher, directives: Vec::new() }
    }

    /// Adds a directive after those already there, and hands the matcher back for more.
    pub fn with_directive(&mut self, directive: CspDirective) -> (r: &mut Self)
        ensures
            r.matcher == old(self).matcher,
            r.directives@ == old(self).directives@.push(directive),
            *final(self) == *final(r),
    {
        self.directives.push(directive);
        self
    }

    /// Exposes the internal matcher's `is_match` as a struct method: whether any of the
    /// set's patterns matches the text.
    #[verifier::external_body]
    pub fn is_match(&self, text: &str) -> bool {
        self.matcher.is_match(text)
    }

    /// Build a matcher which will emit `default-src 'self';` for all matches, with the
    /// match-everything pattern `.*`.
    pub fn default_all_self() -> (r: Result<Self, GoatNsError>)
        ensures
            r is Ok,
            r matches Ok(m) ==> m.directives@.len() == 1 && m.directives@[0].directive_type
                == CspDirectiveType::DefaultSrc && m.directives@[0].values@ == seq![CspValue::SelfSite],
    {
        let patterns: Vec<&str> = vec![".*"];
        assert(pattern_texts(patterns@) =~= seq![".*"@]);
        match regex_set_new(&patterns) {
            Ok(matcher) => Ok(Self::default_self(matcher)),
            Err(_) => Err(GoatNsError::Regex(String::from_str("Failed to compile the matcher"))),
        }
    }

    /// Build a matcher which will emit `default-src 'self';` for given matches
    pub fn default_self(matcher: regex::RegexSet) -> (r: Self)
        ensures
            r.matcher == matcher,
            r.directives@.len() == 1,
            r.directives@[0].directive_type == CspDirectiveType::DefaultSrc,
            r.directives@[0].values@ == seq![CspValue::SelfSite],
    {
        let d = CspDirective::default_self();
        CspUrlMatcher { matcher, directives: vec![d] }
    }

    /// The statement as it should show up in the headers, see [directives_header_text].
    pub fn header_text(&self) -> (r: String)
        ensures
            r@ == directives_header_text(self.directives@),
    {
        let mut res = String::new();
        let mut i: usize = 0;
        while i < self.directives.len()
            invariant
                0 <= i <= self.directives@.len(),
                res@ == directives_header_text(self.directives@.take(i as int)),
            decreases self.directives@.len() - i,
        {
            assert(self.directives@.take(i + 1).drop_last() =~= self.directives@.take(i as int));
            let directive = &self.directives[i];
            let name = directive.directive_type.as_str();
            res.append(" ");
            res.append(name);
            res.append(" ");
            append_values(&mut res, &directive.values);
            res.append(";");
            proof {
                assert(res@ =~= directives_header_text(self.directives@.take(i + 1)));
            }
            i = i + 1;
        }
        assert(self.directives@.take(self.directives@.len() as int) =~= self.directives@);
        res
    }

    /// The statement as a header value holding the bytes of its text (see
    /// [directives_header_text]); an error when a byte of that text may not stand in a
    /// header value.
    pub fn header_value(&self) -> (r: Result<http::HeaderValue, GoatNsError>)
        ensures
            r is Ok <==> forall|i: int|
                0 <= i < vstd::utf8::encode_utf8(directives_header_text(self.directives@)).len()
                    ==> header_value_byte(
                    #[trigger] vstd::utf8::encode_utf8(directives_header_text(self.directives@))[i],
                ),
            r matches Ok(v) ==> header_value_bytes(v) == vstd::utf8::encode_utf8(
                directives_header_text(self.directives@),
            ),
    {
        let text = self.header_text();
        let s = text.as_str();
        assert(s.spec_bytes() == vstd::utf8::encode_utf8(directives_header_text(self.directives@)));
        header_value(s)
    }
}

} // verus!
