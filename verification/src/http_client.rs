//! Requests, responses and what is reported on the way.

use regex::Regex;
use vstd::prelude::*;

use crate::headers::{place_ignoring_case, with_field, without_field, Headers};
use crate::text::{byte_len, decimal, decimal_string, length, same};

verus! {

// ── Method ────────────────────────────────────────────────────────────────────

/// Whether a character may stand in a method or in the name of a header.
pub open spec fn is_token_char(c: char) -> bool {
    ||| 'a' <= c <= 'z'
    ||| 'A' <= c <= 'Z'
    ||| '0' <= c <= '9'
    ||| c == '!' || c == '#' || c == '$' || c == '%' || c == '&' || c == '\''
    ||| c == '*' || c == '+' || c == '-' || c == '.' || c == '^' || c == '_'
    ||| c == '`' || c == '|' || c == '~'
}

/// Whether a text is a token: one or more token characters.
pub open spec fn is_token(s: Seq<char>) -> bool {
    s.len() > 0 && forall|i: int| 0 <= i < s.len() ==> is_token_char(#[trigger] s[i])
}

/// `hyper::Method`'s parsing: a text is the name of a method exactly if it is
/// a token.
#[verifier::external_body]
fn is_method_name(s: &str) -> (r: bool)
    ensures
        r == is_token(s@),
{
    s.parse::<hyper::Method>().is_ok()
}

/// The name of a method that has no variant of its own.
#[derive(Debug, PartialEq, Eq)]
pub struct ExtensionMethod(String);

impl ExtensionMethod {
    #[verifier::type_invariant]
    spec fn is_extension(self) -> bool {
        is_token(self.0@) && !is_standard(self.0@)
    }
}

impl View for ExtensionMethod {
    type V = Seq<char>;

    closed spec fn view(&self) -> Seq<char> {
        self.0@
    }
}

/// An HTTP method.
#[derive(Debug, PartialEq, Eq)]
pub enum HttpMethod {
    GET,
    POST,
    PUT,
    PATCH,
    DELETE,
    HEAD,
    OPTIONS,
    CONNECT,
    TRACE,
    Extension(ExtensionMethod),
}

impl View for HttpMethod {
    type V = Seq<char>;

    /// The method as it is sent.
    open spec fn view(&self) -> Seq<char> {
        match self {
            HttpMethod::GET => "GET"@,
            HttpMethod::POST => "POST"@,
            HttpMethod::PUT => "PUT"@,
            HttpMethod::PATCH => "PATCH"@,
            HttpMethod::DELETE => "DELETE"@,
            HttpMethod::HEAD => "HEAD"@,
            HttpMethod::OPTIONS => "OPTIONS"@,
            HttpMethod::CONNECT => "CONNECT"@,
            HttpMethod::TRACE => "TRACE"@,
            HttpMethod::Extension(name) => name@,
        }
    }
}

/// Whether a text is one of the methods that have a variant of their own.
pub open spec fn is_standard(s: Seq<char>) -> bool {
    ||| s == "GET"@
    ||| s == "POST"@
    ||| s == "PUT"@
    ||| s == "PATCH"@
    ||| s == "DELETE"@
    ||| s == "HEAD"@
    ||| s == "OPTIONS"@
    ||| s == "CONNECT"@
    ||| s == "TRACE"@
}

impl HttpMethod {
    /// Reads a method.  Every token is one.
    pub fn parse(s: &str) -> (r: Option<HttpMethod>)
        ensures
            r is Some == is_token(s@),
            r matches Some(m) ==> m@ == s@ && (m is Extension <==> !is_standard(s@)),
    {
        if !is_method_name(s) {
            return None;
        }
        if same(s, "GET") {
            Some(HttpMethod::GET)
        } else if same(s, "POST") {
            Some(HttpMethod::POST)
        } else if same(s, "PUT") {
            Some(HttpMethod::PUT)
        } else if same(s, "PATCH") {
            Some(HttpMethod::PATCH)
        } else if same(s, "DELETE") {
            Some(HttpMethod::DELETE)
        } else if same(s, "HEAD") {
            Some(HttpMethod::HEAD)
        } else if same(s, "OPTIONS") {
            Some(HttpMethod::OPTIONS)
        } else if same(s, "CONNECT") {
            Some(HttpMethod::CONNECT)
        } else if same(s, "TRACE") {
            Some(HttpMethod::TRACE)
        } else {
            Some(HttpMethod::Extension(ExtensionMethod(s.to_owned())))
        }
    }

    /// The method as it is sent, which is a token.
    pub fn as_str(&self) -> (r: &str)
        ensures
            r@ == self@,
            is_token(r@),
    {
        proof {
            lemma_method_names_are_tokens();
            if !(self is Extension) {
                assert(is_standard(self@));
            }
        }
        match self {
            HttpMethod::GET => "GET",
            HttpMethod::POST => "POST",
            HttpMethod::PUT => "PUT",
            HttpMethod::PATCH => "PATCH",
            HttpMethod::DELETE => "DELETE",
            HttpMethod::HEAD => "HEAD",
            HttpMethod::OPTIONS => "OPTIONS",
            HttpMethod::CONNECT => "CONNECT",
            HttpMethod::TRACE => "TRACE",
            HttpMethod::Extension(name) => {
                proof {
                    use_type_invariant(name);
                }
                name.0.as_str()
            },
        }
    }

    /// A copy of the method as it is sent.
    pub fn to_string(&self) -> (r: String)
        ensures
            r@ == self@,
            is_token(r@),
    {
        self.as_str().to_owned()
    }

    /// The method after this one in the round that the user steps through.
    pub fn next(&self) -> (r: HttpMethod)
        ensures
            r@ == next_method(self@),
            !(r is Extension),
    {
        proof {
            lemma_method_names_differ();
        }
        match self {
            HttpMethod::GET => HttpMethod::POST,
            HttpMethod::POST => HttpMethod::PUT,
            HttpMethod::PUT => HttpMethod::PATCH,
            HttpMethod::PATCH => HttpMethod::DELETE,
            HttpMethod::DELETE => HttpMethod::HEAD,
            HttpMethod::HEAD => HttpMethod::OPTIONS,
            HttpMethod::OPTIONS => HttpMethod::GET,
            HttpMethod::CONNECT => HttpMethod::GET,
            HttpMethod::TRACE => HttpMethod::GET,
            HttpMethod::Extension(name) => {
                proof {
                    use_type_invariant(name);
                }
                HttpMethod::GET
            },
        }
    }
}

/// The method after this one in the round that the user steps through.  Any
/// method outside the round leads into it.
pub open spec fn next_method(name: Seq<char>) -> Seq<char> {
    if name == "GET"@ {
        "POST"@
    } else if name == "POST"@ {
        "PUT"@
    } else if name == "PUT"@ {
        "PATCH"@
    } else if name == "PATCH"@ {
        "DELETE"@
    } else if name == "DELETE"@ {
        "HEAD"@
    } else if name == "HEAD"@ {
        "OPTIONS"@
    } else {
        "GET"@
    }
}

/// No two methods have the same name.
proof fn lemma_method_names_differ()
    ensures
        "GET"@ != "POST"@ && "GET"@ != "PUT"@ && "GET"@ != "PATCH"@ && "GET"@ != "DELETE"@
            && "GET"@ != "HEAD"@ && "GET"@ != "OPTIONS"@ && "GET"@ != "CONNECT"@ && "GET"@
            != "TRACE"@,
        "POST"@ != "PUT"@ && "POST"@ != "PATCH"@ && "POST"@ != "DELETE"@ && "POST"@ != "HEAD"@
            && "POST"@ != "OPTIONS"@ && "POST"@ != "CONNECT"@ && "POST"@ != "TRACE"@,
        "PUT"@ != "PATCH"@ && "PUT"@ != "DELETE"@ && "PUT"@ != "HEAD"@ && "PUT"@ != "OPTIONS"@
            && "PUT"@ != "CONNECT"@ && "PUT"@ != "TRACE"@,
        "PATCH"@ != "DELETE"@ && "PATCH"@ != "HEAD"@ && "PATCH"@ != "OPTIONS"@ && "PATCH"@
            != "CONNECT"@ && "PATCH"@ != "TRACE"@,
        "DELETE"@ != "HEAD"@ && "DELETE"@ != "OPTIONS"@ && "DELETE"@ != "CONNECT"@ && "DELETE"@
            != "TRACE"@,
        "HEAD"@ != "OPTIONS"@ && "HEAD"@ != "CONNECT"@ && "HEAD"@ != "TRACE"@,
        "OPTIONS"@ != "CONNECT"@ && "OPTIONS"@ != "TRACE"@,
{
    reveal_strlit("GET");
    reveal_strlit("POST");
    reveal_strlit("PUT");
    reveal_strlit("PATCH");
    reveal_strlit("DELETE");
    reveal_strlit("HEAD");
    reveal_strlit("OPTIONS");
    reveal_strlit("CONNECT");
    reveal_strlit("TRACE");
    assert("GET"@.len() == 3 && "PUT"@.len() == 3 && "POST"@.len() == 4 && "HEAD"@.len() == 4);
    assert("PATCH"@.len() == 5 && "TRACE"@.len() == 5 && "DELETE"@.len() == 6);
    assert("OPTIONS"@.len() == 7 && "CONNECT"@.len() == 7);
    assert("GET"@[0] == 'G' && "PUT"@[0] == 'P');
    assert("POST"@[0] == 'P' && "HEAD"@[0] == 'H');
    assert("PATCH"@[0] == 'P' && "TRACE"@[0] == 'T');
    assert("OPTIONS"@[0] == 'O' && "CONNECT"@[0] == 'C');
}

/// The methods with a variant of their own are tokens.
proof fn lemma_method_names_are_tokens()
    ensures
        forall|s: Seq<char>| #[trigger] is_standard(s) ==> is_token(s),
{
    reveal_strlit("GET");
    reveal_strlit("POST");
    reveal_strlit("PUT");
    reveal_strlit("PATCH");
    reveal_strlit("DELETE");
    reveal_strlit("HEAD");
    reveal_strlit("OPTIONS");
    reveal_strlit("CONNECT");
    reveal_strlit("TRACE");
}

/// Seven steps lead once around, and every method leads into the round.
pub proof fn lemma_methods_go_around(name: Seq<char>)
    ensures
        next_method("GET"@) == "POST"@,
        next_method("POST"@) == "PUT"@,
        next_method("PUT"@) == "PATCH"@,
        next_method("PATCH"@) == "DELETE"@,
        next_method("DELETE"@) == "HEAD"@,
        next_method("HEAD"@) == "OPTIONS"@,
        next_method("OPTIONS"@) == "GET"@,
        !is_standard(name) ==> next_method(name) == "GET"@,
{
    lemma_method_names_differ();
}

impl Clone for ExtensionMethod {
    fn clone(&self) -> (r: ExtensionMethod)
        ensures
            r@ == self@,
    {
        proof {
            use_type_invariant(self);
        }
        ExtensionMethod(self.0.clone())
    }
}

impl Clone for HttpMethod {
    fn clone(&self) -> (r: HttpMethod)
        ensures
            r@ == self@,
            r is Extension == self is Extension,
            !(self is Extension) ==> r == *self,
    {
        match self {
            HttpMethod::GET => HttpMethod::GET,
            HttpMethod::POST => HttpMethod::POST,
            HttpMethod::PUT => HttpMethod::PUT,
            HttpMethod::PATCH => HttpMethod::PATCH,
            HttpMethod::DELETE => HttpMethod::DELETE,
            HttpMethod::HEAD => HttpMethod::HEAD,
            HttpMethod::OPTIONS => HttpMethod::OPTIONS,
            HttpMethod::CONNECT => HttpMethod::CONNECT,
            HttpMethod::TRACE => HttpMethod::TRACE,
            HttpMethod::Extension(name) => HttpMethod::Extension(name.clone()),
        }
    }
}

// ── Texts with a meaning ──────────────────────────────────────────────────────

/// The address of a request, as the user wrote it.
#[derive(Debug, PartialEq, Eq)]
pub struct UrlString(String);

impl View for UrlString {
    type V = Seq<char>;

    closed spec fn view(&self) -> Seq<char> {
        self.0@
    }
}

impl UrlString {
    pub fn new(s: String) -> (r: UrlString)
        ensures
            r@ == s@,
    {
        UrlString(s)
    }

    /// The text itself.
    pub fn as_str(&self) -> (r: &str)
        ensures
            r@ == self@,
    {
        self.0.as_str()
    }

    /// A copy of the text.
    pub fn to_string(&self) -> (r: String)
        ensures
            r@ == self@,
    {
        self.0.clone()
    }
}

impl Clone for UrlString {
    fn clone(&self) -> (r: UrlString)
        ensures
            r@ == self@,
    {
        UrlString(self.0.clone())
    }
}

impl std::ops::Deref for UrlString {
    type Target = str;

    fn deref(&self) -> (r: &str)
        ensures
            r@ == self@,
    {
        self.0.as_str()
    }
}

impl From<String> for UrlString {
    fn from(s: String) -> (r: UrlString)
        ensures
            r@ == s@,
    {
        UrlString(s)
    }
}

impl vstd::std_specs::convert::FromSpecImpl<String> for UrlString {
    open spec fn obeys_from_spec() -> bool {
        false
    }

    open spec fn from_spec(s: String) -> UrlString {
        arbitrary()
    }
}

impl<'a> From<&'a str> for UrlString {
    fn from(s: &'a str) -> (r: UrlString)
        ensures
            r@ == s@,
    {
        UrlString(s.to_owned())
    }
}

impl<'a> vstd::std_specs::convert::FromSpecImpl<&'a str> for UrlString {
    open spec fn obeys_from_spec() -> bool {
        false
    }

    open spec fn from_spec(s: &'a str) -> UrlString {
        arbitrary()
    }
}

impl From<UrlString> for String {
    fn from(u: UrlString) -> (r: String)
        ensures
            r@ == u@,
    {
        u.0
    }
}

impl vstd::std_specs::convert::FromSpecImpl<UrlString> for String {
    open spec fn obeys_from_spec() -> bool {
        false
    }

    open spec fn from_spec(u: UrlString) -> String {
        arbitrary()
    }
}

/// The name of a header.
#[derive(Debug, PartialEq, Eq, Hash)]
pub struct HeaderName(String);

impl View for HeaderName {
    type V = Seq<char>;

    closed spec fn view(&self) -> Seq<char> {
        self.0@
    }
}

impl HeaderName {
    pub fn new(s: String) -> (r: HeaderName)
        ensures
            r@ == s@,
    {
        HeaderName(s)
    }

    /// The text itself.
    pub fn as_str(&self) -> (r: &str)
        ensures
            r@ == self@,
    {
        self.0.as_str()
    }

    /// A copy of the text.
    pub fn to_string(&self) -> (r: String)
        ensures
            r@ == self@,
    {
        self.0.clone()
    }
}

impl Clone for HeaderName {
    fn clone(&self) -> (r: HeaderName)
        ensures
            r@ == self@,
    {
        HeaderName(self.0.clone())
    }
}

impl std::ops::Deref for HeaderName {
    type Target = str;

    fn deref(&self) -> (r: &str)
        ensures
            r@ == self@,
    {
        self.0.as_str()
    }
}

impl From<String> for HeaderName {
    fn from(s: String) -> (r: HeaderName)
        ensures
            r@ == s@,
    {
        HeaderName(s)
    }
}

impl vstd::std_specs::convert::FromSpecImpl<String> for HeaderName {
    open spec fn obeys_from_spec() -> bool {
        false
    }

    open spec fn from_spec(s: String) -> HeaderName {
        arbitrary()
    }
}

impl<'a> From<&'a str> for HeaderName {
    fn from(s: &'a str) -> (r: HeaderName)
        ensures
            r@ == s@,
    {
        HeaderName(s.to_owned())
    }
}

impl<'a> vstd::std_specs::convert::FromSpecImpl<&'a str> for HeaderName {
    open spec fn obeys_from_spec() -> bool {
        false
    }

    open spec fn from_spec(s: &'a str) -> HeaderName {
        arbitrary()
    }
}

impl std::borrow::Borrow<str> for HeaderName {
    fn borrow(&self) -> (r: &str)
        ensures
            <str as View>::view(r) == self@,
    {
        self.0.as_str()
    }
}

/// The value of a header.
#[derive(Debug, PartialEq, Eq)]
pub struct HeaderValue(String);

impl View for HeaderValue {
    type V = Seq<char>;

    closed spec fn view(&self) -> Seq<char> {
        self.0@
    }
}

impl HeaderValue {
    pub fn new(s: String) -> (r: HeaderValue)
        ensures
            r@ == s@,
    {
        HeaderValue(s)
    }

    /// The text itself.
    pub fn as_str(&self) -> (r: &str)
        ensures
            r@ == self@,
    {
        self.0.as_str()
    }

    /// A copy of the text.
    pub fn to_string(&self) -> (r: String)
        ensures
            r@ == self@,
    {
        self.0.clone()
    }
}

impl Clone for HeaderValue {
    fn clone(&self) -> (r: HeaderValue)
        ensures
            r@ == self@,
    {
        HeaderValue(self.0.clone())
    }
}

impl std::ops::Deref for HeaderValue {
    type Target = str;

    fn deref(&self) -> (r: &str)
        ensures
            r@ == self@,
    {
        self.0.as_str()
    }
}

impl From<String> for HeaderValue {
    fn from(s: String) -> (r: HeaderValue)
        ensures
            r@ == s@,
    {
        HeaderValue(s)
    }
}

impl vstd::std_specs::convert::FromSpecImpl<String> for HeaderValue {
    open spec fn obeys_from_spec() -> bool {
        false
    }

    open spec fn from_spec(s: String) -> HeaderValue {
        arbitrary()
    }
}

impl<'a> From<&'a str> for HeaderValue {
    fn from(s: &'a str) -> (r: HeaderValue)
        ensures
            r@ == s@,
    {
        HeaderValue(s.to_owned())
    }
}

impl<'a> vstd::std_specs::convert::FromSpecImpl<&'a str> for HeaderValue {
    open spec fn obeys_from_spec() -> bool {
        false
    }

    open spec fn from_spec(s: &'a str) -> HeaderValue {
        arbitrary()
    }
}

impl std::borrow::Borrow<str> for HeaderValue {
    fn borrow(&self) -> (r: &str)
        ensures
            <str as View>::view(r) == self@,
    {
        self.0.as_str()
    }
}

/// A filter in the language of jq.
#[derive(Debug, PartialEq, Eq)]
pub struct JqFilter(String);

impl View for JqFilter {
    type V = Seq<char>;

    closed spec fn view(&self) -> Seq<char> {
        self.0@
    }
}

impl JqFilter {
    pub fn new(s: String) -> (r: JqFilter)
        ensures
            r@ == s@,
    {
        JqFilter(s)
    }

    /// The text itself.
    pub fn as_str(&self) -> (r: &str)
        ensures
            r@ == self@,
    {
        self.0.as_str()
    }

    /// A copy of the text.
    pub fn to_string(&self) -> (r: String)
        ensures
            r@ == self@,
    {
        self.0.clone()
    }
}

impl Clone for JqFilter {
    fn clone(&self) -> (r: JqFilter)
        ensures
            r@ == self@,
    {
        JqFilter(self.0.clone())
    }
}

impl std::ops::Deref for JqFilter {
    type Target = str;

    fn deref(&self) -> (r: &str)
        ensures
            r@ == self@,
    {
        self.0.as_str()
    }
}

impl From<String> for JqFilter {
    fn from(s: String) -> (r: JqFilter)
        ensures
            r@ == s@,
    {
        JqFilter(s)
    }
}

impl vstd::std_specs::convert::FromSpecImpl<String> for JqFilter {
    open spec fn obeys_from_spec() -> bool {
        false
    }

    open spec fn from_spec(s: String) -> JqFilter {
        arbitrary()
    }
}

impl<'a> From<&'a str> for JqFilter {
    fn from(s: &'a str) -> (r: JqFilter)
        ensures
            r@ == s@,
    {
        JqFilter(s.to_owned())
    }
}

impl<'a> vstd::std_specs::convert::FromSpecImpl<&'a str> for JqFilter {
    open spec fn obeys_from_spec() -> bool {
        false
    }

    open spec fn from_spec(s: &'a str) -> JqFilter {
        arbitrary()
    }
}

impl Default for JqFilter {
    /// The filter that keeps everything.
    fn default() -> (r: JqFilter)
        ensures
            r@ == "."@,
    {
        JqFilter(".".to_owned())
    }
}

// ── Regular expressions ───────────────────────────────────────────────────────

/// A compiled regular expression of the regex crate.
#[verifier::external_type_specification]
#[verifier::external_body]
pub struct ExRegex(Regex);

/// What the regex crate finds wrong with a pattern.  It is only handed on.
#[verifier::external_type_specification]
#[verifier::external_body]
pub struct ExRegexError(regex::Error);

/// The pattern that a regular expression was compiled from, which
/// `Regex::as_str` gives back.
pub uninterp spec fn regex_source(re: Regex) -> Seq<char>;

/// Whether `Regex::new` accepts a pattern.
pub uninterp spec fn regex_valid(pattern: Seq<char>) -> bool;

/// What `Regex::replace` leaves of a text when the first match of the pattern
/// is replaced by nothing.
pub uninterp spec fn regex_remove_first(pattern: Seq<char>, text: Seq<char>) -> Seq<char>;

/// `Regex::new`: compiles a pattern, or says what is wrong with it.  The
/// result keeps the pattern.
pub assume_specification[ Regex::new ](re: &str) -> (r: Result<Regex, regex::Error>)
    ensures
        r is Ok == regex_valid(re@),
        r matches Ok(compiled) ==> regex_source(compiled) == re@,
;

/// `Regex`'s clone: the same expression again.
pub assume_specification[ <Regex as Clone>::clone ](re: &Regex) -> (r: Regex)
    ensures
        regex_source(r) == regex_source(*re),
;

/// `Regex::replace` with an empty replacement: the text without the first
/// match, or the whole text where there is none.
#[verifier::external_body]
fn remove_first(re: &Regex, text: &str) -> (r: String)
    ensures
        r@ == regex_remove_first(regex_source(*re), text@),
{
    re.replace(text, "").into_owned()
}

/// A pattern together with its compiled form, where it has one.
#[derive(Debug)]
pub struct RegexPattern {
    pattern: String,
    compiled: Option<Box<Regex>>,
}

impl View for RegexPattern {
    type V = Seq<char>;

    closed spec fn view(&self) -> Seq<char> {
        self.pattern@
    }
}

impl RegexPattern {
    /// A compiled form is that of the pattern, and every valid pattern has
    /// one.
    #[verifier::type_invariant]
    spec fn in_step(self) -> bool {
        &&& self.compiled is Some == regex_valid(self.pattern@)
        &&& self.compiled matches Some(re) ==> regex_source(*re) == self.pattern@
    }

    /// Compiles the pattern where that is possible.
    pub fn new(pattern: String) -> (r: RegexPattern)
        ensures
            r@ == pattern@,
    {
        let compiled = match Regex::new(pattern.as_str()) {
            Ok(re) => Some(Box::new(re)),
            Err(_) => None,
        };
        RegexPattern { pattern, compiled }
    }

    /// The pattern.
    pub fn pattern(&self) -> (r: &str)
        ensures
            r@ == self@,
    {
        self.pattern.as_str()
    }

    /// A copy of the pattern.
    pub fn to_string(&self) -> (r: String)
        ensures
            r@ == self@,
    {
        self.pattern.clone()
    }

    /// The compiled form, if the pattern is valid.
    pub fn compiled(&self) -> (r: Option<&Regex>)
        ensures
            r is Some == regex_valid(self@),
            r matches Some(re) ==> regex_source(*re) == self@,
    {
        proof {
            use_type_invariant(self);
        }
        match &self.compiled {
            Some(re) => Some(&**re),
            None => None,
        }
    }

    /// Compiles the pattern anew.
    pub fn compile(&self) -> (r: Result<Regex, regex::Error>)
        ensures
            r is Ok == regex_valid(self@),
            r matches Ok(re) ==> regex_source(re) == self@,
    {
        Regex::new(self.pattern.as_str())
    }

    /// Puts another pattern in place, and its compiled form with it.
    pub fn set_pattern(&mut self, pattern: String)
        ensures
            final(self)@ == pattern@,
    {
        *self = RegexPattern::new(pattern);
    }

    /// The text without the first match, or nothing if the pattern is not
    /// valid.
    pub fn remove_first_match(&self, text: &str) -> (r: Option<String>)
        ensures
            r is Some == regex_valid(self@),
            r matches Some(t) ==> t@ == regex_remove_first(self@, text@),
    {
        match self.compiled() {
            Some(re) => Some(remove_first(re, text)),
            None => None,
        }
    }
}

impl Clone for RegexPattern {
    fn clone(&self) -> (r: RegexPattern)
        ensures
            r@ == self@,
    {
        proof {
            use_type_invariant(self);
        }
        let compiled = match &self.compiled {
            Some(re) => Some(Box::new((**re).clone())),
            None => None,
        };
        RegexPattern { pattern: self.pattern.clone(), compiled }
    }
}

impl std::ops::Deref for RegexPattern {
    type Target = str;

    fn deref(&self) -> (r: &str)
        ensures
            r@ == self@,
    {
        self.pattern.as_str()
    }
}

impl PartialEq for RegexPattern {
    fn eq(&self, other: &RegexPattern) -> (r: bool) {
        same(self.pattern.as_str(), other.pattern.as_str())
    }
}

impl vstd::std_specs::cmp::PartialEqSpecImpl for RegexPattern {
    open spec fn obeys_eq_spec() -> bool {
        true
    }

    open spec fn eq_spec(&self, other: &RegexPattern) -> bool {
        self@ == other@
    }
}

impl Eq for RegexPattern {

}

impl From<String> for RegexPattern {
    fn from(s: String) -> (r: RegexPattern)
        ensures
            r@ == s@,
    {
        RegexPattern::new(s)
    }
}

impl vstd::std_specs::convert::FromSpecImpl<String> for RegexPattern {
    open spec fn obeys_from_spec() -> bool {
        false
    }

    open spec fn from_spec(s: String) -> RegexPattern {
        arbitrary()
    }
}

impl<'a> From<&'a str> for RegexPattern {
    fn from(s: &'a str) -> (r: RegexPattern)
        ensures
            r@ == s@,
    {
        RegexPattern::new(s.to_owned())
    }
}

impl<'a> vstd::std_specs::convert::FromSpecImpl<&'a str> for RegexPattern {
    open spec fn obeys_from_spec() -> bool {
        false
    }

    open spec fn from_spec(s: &'a str) -> RegexPattern {
        arbitrary()
    }
}

// ── Defaults ──────────────────────────────────────────────────────────────────

/// The pattern of the prefix that is taken off each streamed line: a field
/// name with its colon.
pub open spec fn prefix_pattern() -> Seq<char> {
    r"^\w+:\s*"@
}

/// The pattern of the suffix that is taken off each streamed line: white
/// space.
pub open spec fn suffix_pattern() -> Seq<char> {
    r"\s*$"@
}

pub fn default_jq_filter() -> (r: JqFilter)
    ensures
        r@ == "."@,
{
    JqFilter::default()
}

pub fn is_default_jq_filter(f: &JqFilter) -> (r: bool)
    ensures
        r == (f@ == "."@),
{
    same(f.as_str(), ".")
}

pub fn default_prefix_regex() -> (r: RegexPattern)
    ensures
        r@ == prefix_pattern(),
{
    RegexPattern::new(r"^\w+:\s*".to_owned())
}

pub fn is_default_prefix_regex(r: &RegexPattern) -> (is: bool)
    ensures
        is == (r@ == prefix_pattern()),
{
    same(r.pattern(), r"^\w+:\s*")
}

pub fn default_suffix_regex() -> (r: RegexPattern)
    ensures
        r@ == suffix_pattern(),
{
    RegexPattern::new(r"\s*$".to_owned())
}

pub fn is_default_suffix_regex(r: &RegexPattern) -> (is: bool)
    ensures
        is == (r@ == suffix_pattern()),
{
    same(r.pattern(), r"\s*$")
}

// ── Events ────────────────────────────────────────────────────────────────────

/// What happens to a request on its way.
#[derive(Debug)]
pub enum RequestEvent {
    Started,
    ResolvingHost(String),
    HostResolved,
    Connecting,
    TlsHandshakeStarted,
    TlsHandshakeComplete,
    SendingRequest,
    RequestSent,
    WaitingForResponse,
    ReceivingHeaders,
    HeadersReceived(u16),
    BodyChunk(String),
    Completed(usize),
    TemporaryConnectionProblem(String),
    Failed(String),
}

/// What an event says.
#[verifier::ext_equal]
pub ghost enum EventModel {
    Started,
    ResolvingHost(Seq<char>),
    HostResolved,
    Connecting,
    TlsHandshakeStarted,
    TlsHandshakeComplete,
    SendingRequest,
    RequestSent,
    WaitingForResponse,
    ReceivingHeaders,
    HeadersReceived(u16),
    BodyChunk(Seq<char>),
    Completed(nat),
    TemporaryConnectionProblem(Seq<char>),
    Failed(Seq<char>),
}

impl View for RequestEvent {
    type V = EventModel;

    open spec fn view(&self) -> EventModel {
        match self {
            RequestEvent::Started => EventModel::Started,
            RequestEvent::ResolvingHost(host) => EventModel::ResolvingHost(host@),
            RequestEvent::HostResolved => EventModel::HostResolved,
            RequestEvent::Connecting => EventModel::Connecting,
            RequestEvent::TlsHandshakeStarted => EventModel::TlsHandshakeStarted,
            RequestEvent::TlsHandshakeComplete => EventModel::TlsHandshakeComplete,
            RequestEvent::SendingRequest => EventModel::SendingRequest,
            RequestEvent::RequestSent => EventModel::RequestSent,
            RequestEvent::WaitingForResponse => EventModel::WaitingForResponse,
            RequestEvent::ReceivingHeaders => EventModel::ReceivingHeaders,
            RequestEvent::HeadersReceived(status) => EventModel::HeadersReceived(*status),
            RequestEvent::BodyChunk(chunk) => EventModel::BodyChunk(chunk@),
            RequestEvent::Completed(size) => EventModel::Completed(*size as nat),
            RequestEvent::TemporaryConnectionProblem(text) => {
                EventModel::TemporaryConnectionProblem(text@)
            },
            RequestEvent::Failed(text) => EventModel::Failed(text@),
        }
    }
}

impl EventModel {
    /// How the event is shown to the user.
    pub open spec fn text(self) -> Seq<char> {
        match self {
            EventModel::Started => "Request started"@,
            EventModel::ResolvingHost(host) => "Resolving host: "@ + host,
            EventModel::HostResolved => "Host resolved"@,
            EventModel::Connecting => "Connecting to server"@,
            EventModel::TlsHandshakeStarted => "Starting TLS handshake"@,
            EventModel::TlsHandshakeComplete => "TLS handshake complete"@,
            EventModel::SendingRequest => "Sending request"@,
            EventModel::RequestSent => "Request sent"@,
            EventModel::WaitingForResponse => "Waiting for response"@,
            EventModel::ReceivingHeaders => "Receiving headers"@,
            EventModel::HeadersReceived(status) => "Headers received (Status: "@ + decimal(
                status as nat,
            ) + ")"@,
            EventModel::BodyChunk(chunk) => "Body chunk ("@ + decimal(byte_len(chunk))
                + " bytes)"@,
            EventModel::Completed(size) => "Request completed: "@ + decimal(size)
                + " total bytes"@,
            EventModel::TemporaryConnectionProblem(text) => "Temporary issue with connection: "@
                + text,
            EventModel::Failed(text) => "Request failed: "@ + text,
        }
    }
}

/// Two texts joined.
pub(crate) fn joined(a: &str, b: &str) -> (r: String)
    ensures
        r@ == a@ + b@,
{
    let mut r = a.to_owned();
    r.append(b);
    r
}

impl RequestEvent {
    /// How the event is shown to the user.
    pub fn to_string(&self) -> (r: String)
        ensures
            r@ == self@.text(),
    {
        match self {
            RequestEvent::Started => "Request started".to_owned(),
            RequestEvent::ResolvingHost(host) => joined("Resolving host: ", host.as_str()),
            RequestEvent::HostResolved => "Host resolved".to_owned(),
            RequestEvent::Connecting => "Connecting to server".to_owned(),
            RequestEvent::TlsHandshakeStarted => "Starting TLS handshake".to_owned(),
            RequestEvent::TlsHandshakeComplete => "TLS handshake complete".to_owned(),
            RequestEvent::SendingRequest => "Sending request".to_owned(),
            RequestEvent::RequestSent => "Request sent".to_owned(),
            RequestEvent::WaitingForResponse => "Waiting for response".to_owned(),
            RequestEvent::ReceivingHeaders => "Receiving headers".to_owned(),
            RequestEvent::HeadersReceived(status) => {
                let mut r = joined(
                    "Headers received (Status: ",
                    decimal_string(*status as usize).as_str(),
                );
                r.append(")");
                r
            },
            RequestEvent::BodyChunk(chunk) => {
                let mut r = joined(
                    "Body chunk (",
                    decimal_string(length(chunk.as_str())).as_str(),
                );
                r.append(" bytes)");
                r
            },
            RequestEvent::Completed(size) => {
                let mut r = joined("Request completed: ", decimal_string(*size).as_str());
                r.append(" total bytes");
                r
            },
            RequestEvent::TemporaryConnectionProblem(text) => joined(
                "Temporary issue with connection: ",
                text.as_str(),
            ),
            RequestEvent::Failed(text) => joined("Request failed: ", text.as_str()),
        }
    }
}

impl Clone for RequestEvent {
    fn clone(&self) -> (r: RequestEvent)
        ensures
            r@ == self@,
    {
        match self {
            RequestEvent::Started => RequestEvent::Started,
            RequestEvent::ResolvingHost(host) => RequestEvent::ResolvingHost(host.clone()),
            RequestEvent::HostResolved => RequestEvent::HostResolved,
            RequestEvent::Connecting => RequestEvent::Connecting,
            RequestEvent::TlsHandshakeStarted => RequestEvent::TlsHandshakeStarted,
            RequestEvent::TlsHandshakeComplete => RequestEvent::TlsHandshakeComplete,
            RequestEvent::SendingRequest => RequestEvent::SendingRequest,
            RequestEvent::RequestSent => RequestEvent::RequestSent,
            RequestEvent::WaitingForResponse => RequestEvent::WaitingForResponse,
            RequestEvent::ReceivingHeaders => RequestEvent::ReceivingHeaders,
            RequestEvent::HeadersReceived(status) => RequestEvent::HeadersReceived(*status),
            RequestEvent::BodyChunk(chunk) => RequestEvent::BodyChunk(chunk.clone()),
            RequestEvent::Completed(size) => RequestEvent::Completed(*size),
            RequestEvent::TemporaryConnectionProblem(text) => {
                RequestEvent::TemporaryConnectionProblem(text.clone())
            },
            RequestEvent::Failed(text) => RequestEvent::Failed(text.clone()),
        }
    }
}

// ── HTTP request ──────────────────────────────────────────────────────────────

/// A request as the user writes it.
#[derive(Debug)]
pub struct HttpRequest {
    pub method: HttpMethod,
    pub url: UrlString,
    pub headers: Headers,
    pub body: Option<String>,
    pub jq_filter: JqFilter,
    pub stream_prefix_regex: RegexPattern,
    pub stream_suffix_regex: RegexPattern,
}

/// The text of an optional string.
pub open spec fn text_of(s: Option<String>) -> Option<Seq<char>> {
    match s {
        Some(t) => Some(t@),
        None => None,
    }
}

/// What a request says.
#[verifier::ext_equal]
pub ghost struct RequestModel {
    pub method: Seq<char>,
    pub url: Seq<char>,
    pub headers: Seq<(Seq<char>, Seq<char>)>,
    pub body: Option<Seq<char>>,
    pub jq_filter: Seq<char>,
    pub stream_prefix_regex: Seq<char>,
    pub stream_suffix_regex: Seq<char>,
}

impl View for HttpRequest {
    type V = RequestModel;

    open spec fn view(&self) -> RequestModel {
        RequestModel {
            method: self.method@,
            url: self.url@,
            headers: self.headers@,
            body: text_of(self.body),
            jq_filter: self.jq_filter@,
            stream_prefix_regex: self.stream_prefix_regex@,
            stream_suffix_regex: self.stream_suffix_regex@,
        }
    }
}

/// A request with nothing but a method and an address.
pub open spec fn bare_request(method: Seq<char>, url: Seq<char>) -> RequestModel {
    RequestModel {
        method,
        url,
        headers: Seq::empty(),
        body: None,
        jq_filter: "."@,
        stream_prefix_regex: prefix_pattern(),
        stream_suffix_regex: suffix_pattern(),
    }
}

impl HttpRequest {
    /// A request with nothing but a method and an address.
    pub fn new<U: Into<UrlString>>(method: HttpMethod, url: U) -> (r: HttpRequest)
        ensures
            call_ensures(U::into, (url,), r.url),
            r@ == bare_request(method@, r.url@),
            r.method == method,
    {
        HttpRequest {
            method,
            url: url.into(),
            headers: Headers::new(),
            body: None,
            jq_filter: JqFilter::default(),
            stream_prefix_regex: default_prefix_regex(),
            stream_suffix_regex: default_suffix_regex(),
        }
    }

    /// The request with one more header.
    pub fn with_header<K: Into<HeaderName>, V: Into<HeaderValue>>(
        self,
        key: K,
        value: V,
    ) -> (r: HttpRequest)
        ensures
            exists|k: HeaderName, v: HeaderValue|
                #![trigger k@, v@]
                call_ensures(K::into, (key,), k) && call_ensures(V::into, (value,), v) && r@ == (
                RequestModel { headers: with_field(self@.headers, k@, v@), ..self@ }),
            r.method == self.method,
    {
        let mut request = self;
        request.add_header(key, value);
        request
    }

    /// The request with a body.
    pub fn with_body(self, body: String) -> (r: HttpRequest)
        ensures
            r@ == (RequestModel { body: Some(body@), ..self@ }),
            r.method == self.method,
    {
        let mut request = self;
        request.body = Some(body);
        request
    }

    /// Sets a header.
    pub fn add_header<K: Into<HeaderName>, V: Into<HeaderValue>>(&mut self, key: K, value: V)
        ensures
            exists|k: HeaderName, v: HeaderValue|
                #![trigger k@, v@]
                call_ensures(K::into, (key,), k) && call_ensures(V::into, (value,), v)
                    && final(self)@ == (RequestModel {
                    headers: with_field(old(self)@.headers, k@, v@),
                    ..old(self)@
                }),
            final(self).method == old(self).method,
    {
        let k: HeaderName = key.into();
        let v: HeaderValue = value.into();
        let ghost name = k;
        let ghost text = v;
        self.headers.insert(k, v);
        proof {
            assert(self@.headers == with_field(old(self)@.headers, name@, text@));
        }
    }

    /// Sets the body.
    pub fn set_body(&mut self, body: String)
        ensures
            final(self)@ == (RequestModel { body: Some(body@), ..old(self)@ }),
            final(self).method == old(self).method,
    {
        self.body = Some(body);
    }

    /// Removes the header that has this name but for the case of its letters.
    pub fn remove_header(&mut self, key: &str) -> (r: Option<HeaderValue>)
        ensures
            final(self)@ == (RequestModel {
                headers: without_field(old(self)@.headers, key@),
                ..old(self)@
            }),
            final(self).method == old(self).method,
            r is Some == place_ignoring_case(old(self)@.headers, key@) is Some,
            r matches Some(v) ==> v@ == old(self)@.headers[place_ignoring_case(
                old(self)@.headers,
                key@,
            )->0].1,
    {
        self.headers.remove_ignoring_case(key)
    }
}

/// A copy of an optional string.
pub(crate) fn copy_text(s: &Option<String>) -> (r: Option<String>)
    ensures
        text_of(r) == text_of(*s),
        r is Some == s is Some,
{
    match s {
        Some(t) => Some(t.clone()),
        None => None,
    }
}

impl Clone for HttpRequest {
    fn clone(&self) -> (r: HttpRequest)
        ensures
            r@ == self@,
    {
        HttpRequest {
            method: self.method.clone(),
            url: self.url.clone(),
            headers: self.headers.clone(),
            body: copy_text(&self.body),
            jq_filter: self.jq_filter.clone(),
            stream_prefix_regex: self.stream_prefix_regex.clone(),
            stream_suffix_regex: self.stream_suffix_regex.clone(),
        }
    }
}

// ── HTTP response ─────────────────────────────────────────────────────────────

/// A number that cannot be a status code.
#[derive(Debug, Clone, Copy, PartialEq, Eq, Structural)]
pub struct InvalidStatusCode;

/// A status code, of three digits.
#[derive(Debug, Clone, Copy, PartialEq, Eq, Structural)]
pub struct StatusCode {
    code: u16,
}

/// What `StatusCode::canonical_reason` of hyper calls a status code.
pub uninterp spec fn reason_phrase(code: u16) -> Option<Seq<char>>;

/// `hyper::StatusCode::canonical_reason`: the standard phrase of a code, if
/// there is one.
#[verifier::external_body]
fn find_reason(code: u16) -> (r: Option<&'static str>)
    ensures
        r is Some == reason_phrase(code) is Some,
        r matches Some(text) ==> reason_phrase(code) == Some(text@),
{
    hyper::StatusCode::from_u16(code).ok().and_then(|status| status.canonical_reason())
}

impl View for StatusCode {
    type V = u16;

    closed spec fn view(&self) -> u16 {
        self.code
    }
}

/// How a status code is shown: the number and its phrase.
pub open spec fn status_text(code: u16) -> Seq<char> {
    decimal(code as nat) + " "@ + (match reason_phrase(code) {
        Some(text) => text,
        None => "<unknown status code>"@,
    })
}

impl StatusCode {
    #[verifier::type_invariant]
    spec fn three_digits(self) -> bool {
        100 <= self.code <= 999
    }

    /// The status code of this number, which has to have three digits.
    pub fn from_u16(code: u16) -> (r: Result<StatusCode, InvalidStatusCode>)
        ensures
            r is Ok == (100 <= code <= 999),
            r matches Ok(status) ==> status@ == code,
    {
        if code < 100 || code >= 1000 {
            Err(InvalidStatusCode)
        } else {
            Ok(StatusCode { code })
        }
    }

    pub fn as_u16(&self) -> (r: u16)
        ensures
            r == self@,
            100 <= r <= 999,
    {
        proof {
            use_type_invariant(self);
        }
        self.code
    }

    /// The standard phrase of the code, if there is one.
    pub fn canonical_reason(&self) -> (r: Option<&'static str>)
        ensures
            r is Some == reason_phrase(self@) is Some,
            r matches Some(text) ==> reason_phrase(self@) == Some(text@),
    {
        find_reason(self.code)
    }

    /// The number and its phrase.
    pub fn to_string(&self) -> (r: String)
        ensures
            r@ == status_text(self@),
    {
        let mut r = decimal_string(self.code as usize);
        r.append(" ");
        match self.canonical_reason() {
            Some(text) => r.append(text),
            None => r.append("<unknown status code>"),
        }
        r
    }
}

/// A response as it was received.
#[derive(Debug)]
pub struct HttpResponse {
    pub status_code: StatusCode,
    pub headers: Headers,
    pub body: String,
}

/// What a response says.
#[verifier::ext_equal]
pub ghost struct ResponseModel {
    pub status: u16,
    pub headers: Seq<(Seq<char>, Seq<char>)>,
    pub body: Seq<char>,
}

impl View for HttpResponse {
    type V = ResponseModel;

    open spec fn view(&self) -> ResponseModel {
        ResponseModel { status: self.status_code@, headers: self.headers@, body: self.body@ }
    }
}

/// Whether a status reports success.
pub open spec fn success_status(status: u16) -> bool {
    200 <= status < 300
}

/// Whether a status blames the client.
pub open spec fn client_error_status(status: u16) -> bool {
    400 <= status < 500
}

/// Whether a status blames the server.
pub open spec fn server_error_status(status: u16) -> bool {
    500 <= status < 600
}

/// No status is of two of the three kinds.
pub proof fn lemma_status_kinds_exclude(status: u16)
    ensures
        !(success_status(status) && client_error_status(status)),
        !(success_status(status) && server_error_status(status)),
        !(client_error_status(status) && server_error_status(status)),
{
}

impl HttpResponse {
    pub fn is_success(&self) -> (r: bool)
        ensures
            r == success_status(self@.status),
    {
        let code = self.status_code.as_u16();
        200 <= code && code < 300
    }

    pub fn is_client_error(&self) -> (r: bool)
        ensures
            r == client_error_status(self@.status),
    {
        let code = self.status_code.as_u16();
        400 <= code && code < 500
    }

    pub fn is_server_error(&self) -> (r: bool)
        ensures
            r == server_error_status(self@.status),
    {
        let code = self.status_code.as_u16();
        500 <= code && code < 600
    }
}

impl Clone for HttpResponse {
    fn clone(&self) -> (r: HttpResponse)
        ensures
            r@ == self@,
    {
        HttpResponse {
            status_code: self.status_code,
            headers: self.headers.clone(),
            body: self.body.clone(),
        }
    }
}

// ── Errors ────────────────────────────────────────────────────────────────────

/// What was behind an error: its message, and what was behind that.
#[derive(Debug)]
pub struct ErrorSource {
    message: String,
    source: Option<Box<ErrorSource>>,
}

impl View for ErrorSource {
    type V = Seq<Seq<char>>;

    /// The messages, from the nearest cause to the farthest.
    closed spec fn view(&self) -> Seq<Seq<char>> {
        self.messages()
    }
}

impl ErrorSource {
    spec fn messages(&self) -> Seq<Seq<char>>
        decreases self,
    {
        seq![self.message@] + (match self.source {
            Some(next) => next.messages(),
            None => Seq::empty(),
        })
    }

    /// A cause with what was behind it.
    pub fn new(message: String, source: Option<Box<ErrorSource>>) -> (r: ErrorSource)
        ensures
            r@ == seq![message@] + causes(source),
    {
        ErrorSource { message, source }
    }

    /// What was behind this cause.
    pub fn source(&self) -> (r: Option<&ErrorSource>)
        ensures
            r is Some == (self@.len() > 1),
            r matches Some(next) ==> next@ == self@.skip(1),
    {
        match &self.source {
            Some(next) => {
                proof {
                    assert(self@.skip(1) =~= next@);
                    lemma_messages(**next);
                }
                Some(&**next)
            },
            None => None,
        }
    }

    /// The message of this cause.
    pub fn to_string(&self) -> (r: String)
        ensures
            r@ == self@[0],
    {
        self.message.clone()
    }
}

proof fn lemma_messages(source: ErrorSource)
    ensures
        source@.len() >= 1,
{
}

impl Clone for ErrorSource {
    /// Keeps the message, and nothing of what was behind it.
    fn clone(&self) -> (r: ErrorSource)
        ensures
            r@ == seq![self@[0]],
    {
        let r = ErrorSource { message: self.message.clone(), source: None };
        proof {
            assert(r@ =~= seq![self@[0]]);
        }
        r
    }
}

/// The messages of an optional cause.
pub open spec fn causes(source: Option<Box<ErrorSource>>) -> Seq<Seq<char>> {
    match source {
        Some(s) => s@,
        None => Seq::empty(),
    }
}

/// Why there is no response.
#[derive(Debug)]
pub enum HttpError {
    InvalidUrl { msg: String, source: Option<Box<ErrorSource>> },
    InvalidHeader { msg: String, source: Option<Box<ErrorSource>> },
    RequestFailed { msg: String, source: Option<Box<ErrorSource>> },
    ResponseParseError { msg: String, source: Option<Box<ErrorSource>> },
}

/// The kinds of errors.
#[derive(Debug, Clone, Copy, PartialEq, Eq, Structural)]
pub enum ErrorKind {
    InvalidUrl,
    InvalidHeader,
    RequestFailed,
    ResponseParseError,
}

/// What an error says.
#[verifier::ext_equal]
pub ghost struct ErrorModel {
    pub kind: ErrorKind,
    pub msg: Seq<char>,
    pub causes: Seq<Seq<char>>,
}

impl View for HttpError {
    type V = ErrorModel;

    open spec fn view(&self) -> ErrorModel {
        match self {
            HttpError::InvalidUrl { msg, source } => ErrorModel {
                kind: ErrorKind::InvalidUrl,
                msg: msg@,
                causes: causes(*source),
            },
            HttpError::InvalidHeader { msg, source } => ErrorModel {
                kind: ErrorKind::InvalidHeader,
                msg: msg@,
                causes: causes(*source),
            },
            HttpError::RequestFailed { msg, source } => ErrorModel {
                kind: ErrorKind::RequestFailed,
                msg: msg@,
                causes: causes(*source),
            },
            HttpError::ResponseParseError { msg, source } => ErrorModel {
                kind: ErrorKind::ResponseParseError,
                msg: msg@,
                causes: causes(*source),
            },
        }
    }
}

impl ErrorModel {
    /// How the error is shown to the user.
    pub open spec fn text(self) -> Seq<char> {
        match self.kind {
            ErrorKind::InvalidUrl => "Invalid URL: "@ + self.msg,
            ErrorKind::InvalidHeader => "Invalid header: "@ + self.msg,
            ErrorKind::RequestFailed => "Request failed: "@ + self.msg,
            ErrorKind::ResponseParseError => "Response parse error: "@ + self.msg,
        }
    }

    /// What a copy of the error says: of its causes only the nearest.
    pub open spec fn shortened(self) -> ErrorModel {
        ErrorModel { causes: self.causes.take(if self.causes.len() > 0 {
                1
            } else {
                0
            }), ..self }
    }
}

impl HttpError {
    /// The error of a kind.
    pub fn new(kind: ErrorKind, msg: String, source: Option<Box<ErrorSource>>) -> (r: HttpError)
        ensures
            r@ == (ErrorModel { kind, msg: msg@, causes: causes(source) }),
    {
        match kind {
            ErrorKind::InvalidUrl => HttpError::InvalidUrl { msg, source },
            ErrorKind::InvalidHeader => HttpError::InvalidHeader { msg, source },
            ErrorKind::RequestFailed => HttpError::RequestFailed { msg, source },
            ErrorKind::ResponseParseError => HttpError::ResponseParseError { msg, source },
        }
    }

    /// How the error is shown to the user.
    pub fn to_string(&self) -> (r: String)
        ensures
            r@ == self@.text(),
    {
        match self {
            HttpError::InvalidUrl { msg, .. } => joined("Invalid URL: ", msg.as_str()),
            HttpError::InvalidHeader { msg, .. } => joined("Invalid header: ", msg.as_str()),
            HttpError::RequestFailed { msg, .. } => joined("Request failed: ", msg.as_str()),
            HttpError::ResponseParseError { msg, .. } => joined(
                "Response parse error: ",
                msg.as_str(),
            ),
        }
    }

    /// What was behind the error.
    pub fn source(&self) -> (r: Option<&ErrorSource>)
        ensures
            r is Some == (self@.causes.len() > 0),
            r matches Some(s) ==> s@ == self@.causes,
    {
        let source = match self {
            HttpError::InvalidUrl { source, .. } => source,
            HttpError::InvalidHeader { source, .. } => source,
            HttpError::RequestFailed { source, .. } => source,
            HttpError::ResponseParseError { source, .. } => source,
        };
        match source {
            Some(s) => {
                proof {
                    lemma_messages(**s);
                }
                Some(&**s)
            },
            None => None,
        }
    }
}

fn copy_source(source: &Option<Box<ErrorSource>>) -> (r: Option<Box<ErrorSource>>)
    ensures
        causes(r) == causes(*source).take(if causes(*source).len() > 0 {
            1
        } else {
            0
        }),
{
    match source {
        Some(s) => {
            let copy = (**s).clone();
            proof {
                lemma_messages(**s);
                assert(causes(*source).take(1) =~= seq![s@[0]]);
            }
            Some(Box::new(copy))
        },
        None => {
            proof {
                assert(causes(*source).take(0) =~= Seq::<Seq<char>>::empty());
            }
            None
        },
    }
}

impl Clone for HttpError {
    fn clone(&self) -> (r: HttpError)
        ensures
            r@ == self@.shortened(),
    {
        match self {
            HttpError::InvalidUrl { msg, source } => HttpError::InvalidUrl {
                msg: msg.clone(),
                source: copy_source(source),
            },
            HttpError::InvalidHeader { msg, source } => HttpError::InvalidHeader {
                msg: msg.clone(),
                source: copy_source(source),
            },
            HttpError::RequestFailed { msg, source } => HttpError::RequestFailed {
                msg: msg.clone(),
                source: copy_source(source),
            },
            HttpError::ResponseParseError { msg, source } => HttpError::ResponseParseError {
                msg: msg.clone(),
                source: copy_source(source),
            },
        }
    }
}

/// A word of HTTP is a visible ASCII text without separators, and not empty.
pub proof fn lemma_tokens_hold_no_separators(s: Seq<char>)
    ensures
        is_token(s) <==> s.len() > 0 && forall|i: int|
            0 <= i < s.len() ==> '!' <= #[trigger] s[i] <= '~' && s[i] != '(' && s[i] != ')'
                && s[i] != '<' && s[i] != '>' && s[i] != '@' && s[i] != ',' && s[i] != ';'
                && s[i] != ':' && s[i] != '\\' && s[i] != '"' && s[i] != '/' && s[i] != '['
                && s[i] != ']' && s[i] != '?' && s[i] != '=' && s[i] != '{' && s[i] != '}',
{
    assert forall|c: char| #[trigger] is_token_char(c) <==> ('!' <= c <= '~' && c != '(' && c != ')'
        && c != '<' && c != '>' && c != '@' && c != ',' && c != ';' && c != ':' && c != '\\' && c
        != '"' && c != '/' && c != '[' && c != ']' && c != '?' && c != '=' && c != '{' && c
        != '}') by {}
    if is_token(s) {
        assert forall|i: int| 0 <= i < s.len() implies '!' <= #[trigger] s[i] <= '~' && s[i] != '('
            && s[i] != ')' && s[i] != '<' && s[i] != '>' && s[i] != '@' && s[i] != ',' && s[i]
            != ';' && s[i] != ':' && s[i] != '\\' && s[i] != '"' && s[i] != '/' && s[i] != '['
            && s[i] != ']' && s[i] != '?' && s[i] != '=' && s[i] != '{' && s[i] != '}' by {
            assert(is_token_char(s[i]));
        }
    }
}

/// What is told of an event holds what the event holds.
pub proof fn lemma_event_texts_tell_all(text: Seq<char>, n: u16)
    ensures
        EventModel::ResolvingHost(text).text() == "Resolving host: "@ + text,
        EventModel::Failed(text).text() == "Request failed: "@ + text,
        EventModel::TemporaryConnectionProblem(text).text() == "Temporary issue with connection: "@
            + text,
        EventModel::HeadersReceived(n).text() == "Headers received (Status: "@ + decimal(n as nat)
            + ")"@,
        EventModel::Completed(n as nat).text() == "Request completed: "@ + decimal(n as nat)
            + " total bytes"@,
        EventModel::BodyChunk(text).text() == "Body chunk ("@ + decimal(byte_len(text))
            + " bytes)"@,
        EventModel::Started.text() == "Request started"@,
        EventModel::HostResolved.text() == "Host resolved"@,
        EventModel::Connecting.text() == "Connecting to server"@,
        EventModel::TlsHandshakeStarted.text() == "Starting TLS handshake"@,
        EventModel::TlsHandshakeComplete.text() == "TLS handshake complete"@,
        EventModel::SendingRequest.text() == "Sending request"@,
        EventModel::RequestSent.text() == "Request sent"@,
        EventModel::WaitingForResponse.text() == "Waiting for response"@,
        EventModel::ReceivingHeaders.text() == "Receiving headers"@,
{
}

/// An error is told by its kind and its message, and says the same without its
/// deeper causes, of which the first is kept.
pub proof fn lemma_error_texts_tell_all(e: ErrorModel)
    ensures
        e.msg.is_suffix_of(e.text()),
        e.kind is InvalidUrl ==> e.text() == "Invalid URL: "@ + e.msg,
        e.kind is InvalidHeader ==> e.text() == "Invalid header: "@ + e.msg,
        e.kind is RequestFailed ==> e.text() == "Request failed: "@ + e.msg,
        e.kind is ResponseParseError ==> e.text() == "Response parse error: "@ + e.msg,
        e.shortened().text() == e.text(),
        e.shortened().kind == e.kind,
        e.causes.len() > 0 ==> e.shortened().causes == seq![e.causes[0]],
        e.causes.len() == 0 ==> e.shortened().causes.len() == 0,
{
    if e.causes.len() > 0 {
        assert(e.shortened().causes =~= seq![e.causes[0]]);
    }
}

/// A status is one of success, of an error of the client or of one of the server
/// by its first digit.
pub proof fn lemma_status_kinds_by_first_digit(status: u16)
    ensures
        success_status(status) <==> status / 100 == 2,
        client_error_status(status) <==> status / 100 == 4,
        server_error_status(status) <==> status / 100 == 5,
        (decimal(status as nat) + " "@).is_prefix_of(status_text(status)),
        reason_phrase(status) matches Some(phrase) ==> status_text(status) == decimal(status as nat)
            + " "@ + phrase,
{
}

/// A request that is new has its method and its address and nothing else.
pub proof fn lemma_new_request_is_bare(method: Seq<char>, url: Seq<char>)
    ensures
        bare_request(method, url).method == method,
        bare_request(method, url).url == url,
        bare_request(method, url).headers.len() == 0,
        bare_request(method, url).body is None,
        bare_request(method, url).jq_filter == "."@,
        bare_request(method, url).stream_prefix_regex == r"^\w+:\s*"@,
        bare_request(method, url).stream_suffix_regex == r"\s*$"@,
{
}

} // verus!
