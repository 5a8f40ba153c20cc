//! Credentials of HTTP requests, and how the transport is protected.
use crate::base64_text::{is_base64_char, lemma_base64_chars, Base64Form};
use crate::encoding::{base64_text, encode_base64};
use crate::model::{
    appended, error_of, field_named, framed, invalid, invalid_request, is_str_result,
    is_text_result, unsupported, unsupported_request, AuthKind, ConnectionProfile, ConnectorError,
    ErrorModel, SecretMaterial,
};
use crate::secret::{find_filled, first_filled};
use crate::text::{borrowed, names_of, optional_str, optional_text, same, same_optional};
use vstd::prelude::*;
use vstd::utf8::encode_utf8;

verus! {

/// How a product takes credentials.
#[derive(Debug, Clone, Copy, PartialEq, Eq, Structural)]
pub enum AuthStyle {
    /// Basic, `ApiKey` and bearer credentials.
    Standard,
    /// An API key in a header of its own.
    RequiredApiKeyHeader,
    /// An API key in a header of its own, or none.
    OptionalApiKeyHeader,
    /// API keys as bearer tokens.
    ApiKeyBearer,
    /// Users with passwords as bearer tokens.
    MilvusBearer,
    /// Splunk's management API.
    SplunkManagement,
    /// Splunk's event collector.
    SplunkHec,
}

/// The name of a kind of credentials.
pub open spec fn kind_name(kind: AuthKind) -> Seq<char> {
    match kind {
        AuthKind::Anonymous => "Anonymous"@,
        AuthKind::UsernamePassword => "UsernamePassword"@,
        AuthKind::ApiKey => "ApiKey"@,
        AuthKind::BearerToken => "BearerToken"@,
        AuthKind::ConnectionString => "ConnectionString"@,
        AuthKind::ClientCertificate => "ClientCertificate"@,
    }
}

/// The error of credentials of a kind that a product does not take.
pub open spec fn unsupported_kind(kind: AuthKind) -> ErrorModel {
    unsupported_request(
        "authentication kind "@ + kind_name(kind) + " is not supported by this connector"@,
    )
}

/// The error of credentials of a kind that a product does not take.
fn unsupported_auth(kind: AuthKind) -> (result: ConnectorError)
    ensures
        result@ == unsupported_kind(kind),
{
    let name = match kind {
        AuthKind::Anonymous => "Anonymous",
        AuthKind::UsernamePassword => "UsernamePassword",
        AuthKind::ApiKey => "ApiKey",
        AuthKind::BearerToken => "BearerToken",
        AuthKind::ConnectionString => "ConnectionString",
        AuthKind::ClientCertificate => "ClientCertificate",
    };
    let message = framed("authentication kind ", name, " is not supported by this connector");
    unsupported(message.as_str())
}

/// The first credential field of some names that is not empty. Where there is none, the error
/// names the first of them.
pub open spec fn field_result(
    fields: Seq<(Seq<char>, Seq<char>)>,
    names: Seq<Seq<char>>,
) -> Result<Seq<char>, ErrorModel> {
    match first_filled(fields, names) {
        Some(content) => Ok(content),
        None => Err(invalid_request("credential is missing required field "@ + names[0])),
    }
}

/// The first credential field of some names that is not empty.
pub fn secret_field<'a>(secret: &'a SecretMaterial, names: &[&str]) -> (result: Result<
    &'a str,
    ConnectorError,
>)
    requires
        names@.len() > 0,
    ensures
        is_str_result(result, field_result(secret.fields@, names_of(names@))),
{
    match find_filled(secret, names) {
        Some(content) => Ok(content),
        None => {
            let message = appended("credential is missing required field ", names[0]);
            Err(invalid(message.as_str()))
        },
    }
}

/// The base64 text of two texts with a colon between them.
pub open spec fn encoded_pair(left: Seq<char>, right: Seq<char>) -> Seq<char> {
    base64_text(encode_utf8(left + ":"@ + right))
}

/// The base64 text of two texts with a colon between them.
fn encode_pair(left: &str, right: &str) -> (result: String)
    ensures
        result@ == encoded_pair(left@, right@),
{
    let pair = framed(left, ":", right);
    encode_base64(pair.as_str().as_bytes())
}

/// An API key in the form that a header takes: as it was given, or made of its identity and its
/// secret.
pub open spec fn api_key_result(fields: Seq<(Seq<char>, Seq<char>)>) -> Result<
    Seq<char>,
    ErrorModel,
> {
    match field_named(fields, "api_key"@) {
        Some(key) => Ok(key),
        None => match field_result(fields, names_of(["api_key_id", "id"]@)) {
            Err(error) => Err(error),
            Ok(id) => match field_result(fields, names_of(["api_key_secret", "key"]@)) {
                Err(error) => Err(error),
                Ok(key) => Ok(encoded_pair(id, key)),
            },
        },
    }
}

/// An API key in the form that a header takes.
fn encoded_api_key(secret: &SecretMaterial) -> (result: Result<String, ConnectorError>)
    ensures
        is_text_result(result, api_key_result(secret.fields@)),
{
    match secret.fields.get("api_key") {
        Some(key) => {
            return Ok(key.to_owned());
        },
        None => {},
    }
    let id = match secret_field(secret, &["api_key_id", "id"]) {
        Err(error) => {
            return Err(error);
        },
        Ok(id) => id,
    };
    match secret_field(secret, &["api_key_secret", "key"]) {
        Err(error) => Err(error),
        Ok(key) => Ok(encode_pair(id, key)),
    }
}

/// The header that carries credentials.
#[derive(Debug, Clone, Copy, PartialEq, Eq, Structural)]
pub enum AuthHeader {
    Authorization,
    ApiKey,
}

/// A scheme and the first credential field of some names that is not empty.
pub open spec fn scheme_result(
    scheme: Seq<char>,
    fields: Seq<(Seq<char>, Seq<char>)>,
    names: Seq<Seq<char>>,
) -> Result<Seq<char>, ErrorModel> {
    match field_result(fields, names) {
        Err(error) => Err(error),
        Ok(content) => Ok(scheme + content),
    }
}

/// A scheme and the first credential field of some names that is not empty.
fn scheme_value(scheme: &str, secret: &SecretMaterial, names: &[&str]) -> (result: Result<
    String,
    ConnectorError,
>)
    requires
        names@.len() > 0,
    ensures
        is_text_result(result, scheme_result(scheme@, secret.fields@, names_of(names@))),
{
    match secret_field(secret, names) {
        Err(error) => Err(error),
        Ok(content) => Ok(appended(scheme, content)),
    }
}

/// Basic credentials of a user and a password.
pub open spec fn basic_result(
    fields: Seq<(Seq<char>, Seq<char>)>,
    usernames: Seq<Seq<char>>,
    passwords: Seq<Seq<char>>,
) -> Result<Seq<char>, ErrorModel> {
    match field_result(fields, usernames) {
        Err(error) => Err(error),
        Ok(username) => match field_result(fields, passwords) {
            Err(error) => Err(error),
            Ok(password) => Ok("Basic "@ + encoded_pair(username, password)),
        },
    }
}

/// Basic credentials of a user and a password.
fn basic_value(secret: &SecretMaterial, usernames: &[&str], passwords: &[&str]) -> (result: Result<
    String,
    ConnectorError,
>)
    requires
        usernames@.len() > 0,
        passwords@.len() > 0,
    ensures
        is_text_result(
            result,
            basic_result(secret.fields@, names_of(usernames@), names_of(passwords@)),
        ),
{
    let username = match secret_field(secret, usernames) {
        Err(error) => {
            return Err(error);
        },
        Ok(username) => username,
    };
    match secret_field(secret, passwords) {
        Err(error) => Err(error),
        Ok(password) => {
            let encoded = encode_pair(username, password);
            Ok(appended("Basic ", encoded.as_str()))
        },
    }
}

/// A user and a password as a bearer token.
pub open spec fn user_token_result(fields: Seq<(Seq<char>, Seq<char>)>) -> Result<
    Seq<char>,
    ErrorModel,
> {
    match field_result(fields, names_of(["username"]@)) {
        Err(error) => Err(error),
        Ok(username) => match field_result(fields, names_of(["password"]@)) {
            Err(error) => Err(error),
            Ok(password) => Ok("Bearer "@ + username + ":"@ + password),
        },
    }
}

/// A user and a password as a bearer token.
fn user_token(secret: &SecretMaterial) -> (result: Result<String, ConnectorError>)
    ensures
        is_text_result(result, user_token_result(secret.fields@)),
{
    let username = match secret_field(secret, &["username"]) {
        Err(error) => {
            return Err(error);
        },
        Ok(username) => username,
    };
    match secret_field(secret, &["password"]) {
        Err(error) => Err(error),
        Ok(password) => {
            let token = framed("Bearer ", username, ":");
            Ok(appended(token.as_str(), password))
        },
    }
}

/// The credentials that a request carries: none, or a header and what it holds.
pub open spec fn credential_result(
    style: AuthStyle,
    kind: AuthKind,
    fields: Seq<(Seq<char>, Seq<char>)>,
) -> Option<(AuthHeader, Result<Seq<char>, ErrorModel>)> {
    let bearer = scheme_result("Bearer "@, fields, names_of(["token", "bearer_token"]@));
    let key_bearer = scheme_result("Bearer "@, fields, names_of(["api_key", "token"]@));
    let key = field_result(fields, names_of(["api_key", "token"]@));
    let refused = Err(unsupported_kind(kind));
    match (style, kind) {
        (AuthStyle::Standard, AuthKind::UsernamePassword) => Some(
            (
                AuthHeader::Authorization,
                basic_result(fields, names_of(["username"]@), names_of(["password"]@)),
            ),
        ),
        (AuthStyle::Standard, AuthKind::ApiKey) => Some(
            (
                AuthHeader::Authorization,
                match api_key_result(fields) {
                    Err(error) => Err(error),
                    Ok(encoded) => Ok("ApiKey "@ + encoded),
                },
            ),
        ),
        (AuthStyle::Standard, AuthKind::BearerToken) => Some((AuthHeader::Authorization, bearer)),
        (AuthStyle::RequiredApiKeyHeader, AuthKind::ApiKey) => Some((AuthHeader::ApiKey, key)),
        (AuthStyle::RequiredApiKeyHeader, _) => Some((AuthHeader::ApiKey, refused)),
        (AuthStyle::OptionalApiKeyHeader, AuthKind::ApiKey) => Some((AuthHeader::ApiKey, key)),
        (AuthStyle::ApiKeyBearer, AuthKind::ApiKey) => Some(
            (AuthHeader::Authorization, key_bearer),
        ),
        (AuthStyle::ApiKeyBearer, AuthKind::BearerToken) => Some(
            (AuthHeader::Authorization, bearer),
        ),
        (AuthStyle::MilvusBearer, AuthKind::UsernamePassword) => Some(
            (AuthHeader::Authorization, user_token_result(fields)),
        ),
        (AuthStyle::MilvusBearer, AuthKind::ApiKey) => Some(
            (AuthHeader::Authorization, key_bearer),
        ),
        (AuthStyle::MilvusBearer, AuthKind::BearerToken) => Some(
            (AuthHeader::Authorization, bearer),
        ),
        (AuthStyle::SplunkManagement, AuthKind::UsernamePassword) => Some(
            (
                AuthHeader::Authorization,
                basic_result(
                    fields,
                    names_of(["management_username", "username"]@),
                    names_of(["management_password", "password"]@),
                ),
            ),
        ),
        (AuthStyle::SplunkManagement, AuthKind::BearerToken | AuthKind::ApiKey) => Some(
            (
                AuthHeader::Authorization,
                scheme_result(
                    "Bearer "@,
                    fields,
                    names_of(["management_token", "bearer_token", "token", "api_key"]@),
                ),
            ),
        ),
        (
            AuthStyle::SplunkHec,
            AuthKind::UsernamePassword | AuthKind::BearerToken | AuthKind::ApiKey,
        ) => Some(
            (
                AuthHeader::Authorization,
                scheme_result(
                    "Splunk "@,
                    fields,
                    names_of(["hec_token", "api_key", "token", "bearer_token"]@),
                ),
            ),
        ),
        (
            AuthStyle::Standard
            | AuthStyle::OptionalApiKeyHeader
            | AuthStyle::ApiKeyBearer
            | AuthStyle::MilvusBearer,
            AuthKind::Anonymous | AuthKind::ClientCertificate,
        ) => None,
        _ => Some((AuthHeader::Authorization, refused)),
    }
}

/// What credentials a product is given.
fn credential(secret: &SecretMaterial, style: AuthStyle) -> (result: Option<
    (AuthHeader, Result<String, ConnectorError>),
>)
    ensures
        match (result, credential_result(style, secret.kind, secret.fields@)) {
            (Some((header, value)), Some((wanted, expected))) => header == wanted
                && is_text_result(value, expected),
            (None, None) => true,
            _ => false,
        },
{
    let authorization = AuthHeader::Authorization;
    match (style, secret.kind) {
        (AuthStyle::Standard, AuthKind::UsernamePassword) => Some(
            (authorization, basic_value(secret, &["username"], &["password"])),
        ),
        (AuthStyle::Standard, AuthKind::ApiKey) => Some(
            (
                authorization,
                match encoded_api_key(secret) {
                    Err(error) => Err(error),
                    Ok(encoded) => Ok(appended("ApiKey ", encoded.as_str())),
                },
            ),
        ),
        (AuthStyle::RequiredApiKeyHeader, AuthKind::ApiKey)
        | (AuthStyle::OptionalApiKeyHeader, AuthKind::ApiKey) => Some(
            (
                AuthHeader::ApiKey,
                match secret_field(secret, &["api_key", "token"]) {
                    Err(error) => Err(error),
                    Ok(key) => Ok(key.to_owned()),
                },
            ),
        ),
        (AuthStyle::RequiredApiKeyHeader, _) => Some(
            (AuthHeader::ApiKey, Err(unsupported_auth(secret.kind))),
        ),
        (AuthStyle::ApiKeyBearer, AuthKind::ApiKey)
        | (AuthStyle::MilvusBearer, AuthKind::ApiKey) => Some(
            (authorization, scheme_value("Bearer ", secret, &["api_key", "token"])),
        ),
        (AuthStyle::Standard, AuthKind::BearerToken)
        | (AuthStyle::ApiKeyBearer, AuthKind::BearerToken)
        | (AuthStyle::MilvusBearer, AuthKind::BearerToken) => Some(
            (authorization, scheme_value("Bearer ", secret, &["token", "bearer_token"])),
        ),
        (AuthStyle::MilvusBearer, AuthKind::UsernamePassword) => Some(
            (authorization, user_token(secret)),
        ),
        (AuthStyle::SplunkManagement, AuthKind::UsernamePassword) => Some(
            (
                authorization,
                basic_value(
                    secret,
                    &["management_username", "username"],
                    &["management_password", "password"],
                ),
            ),
        ),
        (AuthStyle::SplunkManagement, AuthKind::BearerToken)
        | (AuthStyle::SplunkManagement, AuthKind::ApiKey) => Some(
            (
                authorization,
                scheme_value(
                    "Bearer ",
                    secret,
                    &["management_token", "bearer_token", "token", "api_key"],
                ),
            ),
        ),
        (AuthStyle::SplunkHec, AuthKind::UsernamePassword)
        | (AuthStyle::SplunkHec, AuthKind::BearerToken)
        | (AuthStyle::SplunkHec, AuthKind::ApiKey) => Some(
            (
                authorization,
                scheme_value(
                    "Splunk ",
                    secret,
                    &["hec_token", "api_key", "token", "bearer_token"],
                ),
            ),
        ),
        (AuthStyle::SplunkManagement, _)
        | (AuthStyle::SplunkHec, _)
        | (_, AuthKind::ConnectionString)
        | (_, AuthKind::UsernamePassword)
        | (_, AuthKind::BearerToken) => Some((authorization, Err(unsupported_auth(secret.kind)))),
        (_, AuthKind::Anonymous) | (_, AuthKind::ClientCertificate) => None,
    }
}

/// Whether a header may hold a text: no control characters but tabs.
pub open spec fn is_header_text(text: Seq<char>) -> bool {
    forall|i: int|
        0 <= i < text.len() ==> (' ' <= #[trigger] text[i] && text[i] != '\u{7f}') || text[i]
            == '\t'
}

/// `http::HeaderValue::from_str`: the texts that it accepts. It goes by the bytes of the text, of
/// which only those of control characters are refused.
#[verifier::external_body]
fn accepts_header(text: &str) -> (result: bool)
    ensures
        result == is_header_text(text@),
{
    reqwest::header::HeaderValue::from_str(text).is_ok()
}

/// The name of a header that carries credentials.
pub open spec fn header_name(header: AuthHeader) -> Seq<char> {
    match header {
        AuthHeader::Authorization => "authorization"@,
        AuthHeader::ApiKey => "api-key"@,
    }
}

/// A header of a request.
#[derive(Debug)]
pub struct Header {
    pub name: String,
    pub value: String,
    /// Whether the value is kept out of what is shown of the header.
    pub sensitive: bool,
}

/// What a [`Header`] is.
pub struct HeaderModel {
    pub name: Seq<char>,
    pub value: Seq<char>,
    pub sensitive: bool,
}

impl View for Header {
    type V = HeaderModel;

    open spec fn view(&self) -> HeaderModel {
        HeaderModel { name: self.name@, value: self.value@, sensitive: self.sensitive }
    }
}

/// Headers, in the order in which their names came.
#[derive(Debug)]
pub struct Headers {
    entries: Vec<Header>,
}

impl View for Headers {
    type V = Seq<HeaderModel>;

    closed spec fn view(&self) -> Seq<HeaderModel> {
        Seq::new(self.entries@.len(), |i: int| self.entries@[i]@)
    }
}

/// The place of the first header with a name, or behind the last one.
pub open spec fn header_place(headers: Seq<HeaderModel>, name: Seq<char>) -> int
    decreases headers.len(),
{
    if headers.len() == 0 {
        0
    } else {
        let before = header_place(headers.drop_last(), name);
        if before < headers.len() - 1 || headers.last().name == name {
            before
        } else {
            headers.len() as int
        }
    }
}

/// The value of the header with a name.
pub open spec fn header_value(headers: Seq<HeaderModel>, name: Seq<char>) -> Option<Seq<char>> {
    let place = header_place(headers, name);
    if place < headers.len() {
        Some(headers[place].value)
    } else {
        None
    }
}

/// Headers with one more, which takes the place of one with the same name.
pub open spec fn with_header(headers: Seq<HeaderModel>, header: HeaderModel) -> Seq<HeaderModel> {
    let place = header_place(headers, header.name);
    if place < headers.len() {
        headers.update(place, header)
    } else {
        headers.push(header)
    }
}

/// A header with a name in front of which none has that name is the first.
proof fn lemma_header_place(headers: Seq<HeaderModel>, name: Seq<char>, place: int)
    requires
        0 <= place <= headers.len(),
        forall|i: int| 0 <= i < place ==> (#[trigger] headers[i]).name != name,
        place < headers.len() ==> headers[place].name == name,
    ensures
        header_place(headers, name) == place,
    decreases headers.len(),
{
    if headers.len() > 0 {
        let shorter = headers.drop_last();
        if place < headers.len() {
            lemma_header_place(shorter, name, place);
        } else {
            lemma_header_place(shorter, name, place - 1);
        }
    }
}

impl Headers {
    /// No headers.
    pub fn new() -> (result: Headers)
        ensures
            result@ == Seq::<HeaderModel>::empty(),
    {
        let result = Headers { entries: Vec::new() };
        assert(result@ =~= Seq::<HeaderModel>::empty());
        result
    }

    /// The number of headers.
    pub fn len(&self) -> (result: usize)
        ensures
            result == self@.len(),
    {
        self.entries.len()
    }

    /// A header.
    pub fn at(&self, index: usize) -> (result: &Header)
        requires
            index < self@.len(),
        ensures
            result@ == self@[index as int],
    {
        &self.entries[index]
    }

    /// The place of the first header with a name, or behind the last one.
    fn find(&self, name: &str) -> (result: usize)
        ensures
            result == header_place(self@, name@),
            result <= self@.len(),
    {
        let mut i: usize = 0;
        while i < self.entries.len() && !same(self.entries[i].name.as_str(), name)
            invariant
                i <= self.entries@.len(),
                forall|j: int| 0 <= j < i ==> (#[trigger] self@[j]).name != name@,
            decreases self.entries@.len() - i,
        {
            assert(self@[i as int].name == self.entries@[i as int].name@);
            i = i + 1;
        }
        proof {
            if i < self.entries@.len() {
                assert(self@[i as int].name == name@);
            }
            lemma_header_place(self@, name@, i as int);
        }
        i
    }

    /// The value of the header with a name.
    pub fn get(&self, name: &str) -> (result: Option<&str>)
        ensures
            optional_str(result) == header_value(self@, name@),
    {
        let place = self.find(name);
        if place < self.entries.len() {
            Some(self.entries[place].value.as_str())
        } else {
            None
        }
    }

    /// Puts a header in, in place of one with the same name.
    pub fn put(&mut self, header: Header)
        ensures
            final(self)@ == with_header(old(self)@, header@),
    {
        let ghost before = self@;
        let place = self.find(header.name.as_str());
        if place < self.entries.len() {
            self.entries.set(place, header);
        } else {
            self.entries.push(header);
        }
        assert(self@ =~= with_header(before, header@));
    }
}

/// The headers that carry the credentials of a request, whose values are not shown.
pub open spec fn headers_result(
    style: AuthStyle,
    kind: AuthKind,
    fields: Seq<(Seq<char>, Seq<char>)>,
) -> Result<Seq<HeaderModel>, ErrorModel> {
    match credential_result(style, kind, fields) {
        None => Ok(Seq::empty()),
        Some((_, Err(error))) => Err(error),
        Some((header, Ok(value))) => if is_header_text(value) {
            Ok(seq![HeaderModel { name: header_name(header), value, sensitive: true }])
        } else {
            Err(
                invalid_request(
                    "a credential contains characters that are invalid in an HTTP header"@,
                ),
            )
        },
    }
}

/// Whether credentials are sent in base64: a user and a password, or the identity and the secret of
/// an API key.
pub open spec fn is_encoded(
    style: AuthStyle,
    kind: AuthKind,
    fields: Seq<(Seq<char>, Seq<char>)>,
) -> bool {
    match kind {
        AuthKind::UsernamePassword => style == AuthStyle::Standard || style
            == AuthStyle::SplunkManagement,
        AuthKind::ApiKey => style == AuthStyle::Standard && field_named(fields, "api_key"@) is None,
        _ => false,
    }
}

/// Credentials that are sent in base64 give a header whatever characters they have: only a field
/// that is missing is an error.
pub proof fn lemma_encoded_credentials_fit_a_header(
    style: AuthStyle,
    kind: AuthKind,
    fields: Seq<(Seq<char>, Seq<char>)>,
)
    requires
        is_encoded(style, kind, fields),
    ensures
        match credential_result(style, kind, fields) {
            Some((header, Ok(value))) => headers_result(style, kind, fields) == Ok::<
                Seq<HeaderModel>,
                ErrorModel,
            >(seq![HeaderModel { name: header_name(header), value, sensitive: true }]),
            Some((_, Err(error))) => headers_result(style, kind, fields) == Err::<
                Seq<HeaderModel>,
                ErrorModel,
            >(error),
            None => false,
        },
{
    if let Some((_, Ok(value))) = credential_result(style, kind, fields) {
        reveal_strlit("Basic ");
        reveal_strlit("ApiKey ");
        let (left, right) = match kind {
            AuthKind::ApiKey => (
                field_result(fields, names_of(["api_key_id", "id"]@))->Ok_0,
                field_result(fields, names_of(["api_key_secret", "key"]@))->Ok_0,
            ),
            _ => if style == AuthStyle::Standard {
                (
                    field_result(fields, names_of(["username"]@))->Ok_0,
                    field_result(fields, names_of(["password"]@))->Ok_0,
                )
            } else {
                (
                    field_result(fields, names_of(["management_username", "username"]@))->Ok_0,
                    field_result(fields, names_of(["management_password", "password"]@))->Ok_0,
                )
            },
        };
        let scheme = if kind == AuthKind::ApiKey {
            "ApiKey "@
        } else {
            "Basic "@
        };
        let encoded = encoded_pair(left, right);
        assert(value == scheme + encoded);
        lemma_base64_chars(encode_utf8(left + ":"@ + right), Base64Form::Standard);
        assert forall|i: int| 0 <= i < value.len() implies ' ' <= #[trigger] value[i] && value[i]
            != '\u{7f}' by {
            if i >= scheme.len() {
                assert(is_base64_char(encoded[i - scheme.len()], Base64Form::Standard));
            }
        }
    }
}

/// The headers that carry the credentials of a request.
pub fn authentication_headers(secret: &SecretMaterial, style: AuthStyle) -> (result: Result<
    Headers,
    ConnectorError,
>)
    ensures
        match (result, headers_result(style, secret.kind, secret.fields@)) {
            (Ok(headers), Ok(wanted)) => headers@ == wanted,
            (Err(error), Err(wanted)) => error@ == wanted,
            _ => false,
        },
        is_encoded(style, secret.kind, secret.fields@) ==> (result is Ok <==> (credential_result(
            style,
            secret.kind,
            secret.fields@,
        ) matches Some((_, value)) && value is Ok)),
{
    proof {
        if is_encoded(style, secret.kind, secret.fields@) {
            lemma_encoded_credentials_fit_a_header(style, secret.kind, secret.fields@);
        }
    }
    let mut headers = Headers::new();
    match credential(secret, style) {
        None => Ok(headers),
        Some((_, Err(error))) => Err(error),
        Some((header, Ok(value))) => {
            if !accepts_header(value.as_str()) {
                return Err(
                    invalid("a credential contains characters that are invalid in an HTTP header"),
                );
            }
            let name = match header {
                AuthHeader::Authorization => "authorization",
                AuthHeader::ApiKey => "api-key",
            };
            headers.put(Header { name: name.to_owned(), value, sensitive: true });
            assert(headers@ =~= seq![
                HeaderModel { name: header_name(header), value: value@, sensitive: true },
            ]);
            Ok(headers)
        },
    }
}

/// The error of a profile whose transport is not protected as it says, or cannot be.
pub open spec fn tls_error(profile: ConnectionProfile) -> Option<ErrorModel> {
    let expected = if profile.tls.enabled {
        "https"@
    } else {
        "http"@
    };
    if profile.endpoint.scheme@ != expected {
        Some(
            invalid_request(
                "endpoint scheme must be `"@ + expected + "` when tls.enabled is "@ + (
                if profile.tls.enabled {
                    "true"@
                } else {
                    "false"@
                }),
            ),
        )
    } else if !profile.tls.verify_server_certificate {
        Some(invalid_request("disabling server certificate verification is not supported"@))
    } else if profile.tls.server_name is Some && optional_text(profile.endpoint.host)
        != optional_text(profile.tls.server_name) {
        Some(
            unsupported_request(
                "TLS server-name overrides are not supported by the HTTP transport"@,
            ),
        )
    } else {
        None
    }
}

/// Refuses a profile whose transport is not protected as it says, or cannot be.
pub fn validate_tls(profile: &ConnectionProfile) -> (result: Result<(), ConnectorError>)
    ensures
        error_of(result) == tls_error(*profile),
{
    let expected = if profile.tls.enabled {
        "https"
    } else {
        "http"
    };
    if !same(profile.endpoint.scheme.as_str(), expected) {
        let message = framed("endpoint scheme must be `", expected, "` when tls.enabled is ");
        let state = if profile.tls.enabled {
            "true"
        } else {
            "false"
        };
        let message = appended(message.as_str(), state);
        return Err(invalid(message.as_str()));
    }
    if !profile.tls.verify_server_certificate {
        return Err(invalid("disabling server certificate verification is not supported"));
    }
    if profile.tls.server_name.is_some() && !same_optional(
        borrowed(&profile.endpoint.host),
        borrowed(&profile.tls.server_name),
    ) {
        return Err(
            unsupported("TLS server-name overrides are not supported by the HTTP transport"),
        );
    }
    Ok(())
}

/// Whether the transport takes a text as a certificate with its private key.
pub uninterp spec fn is_client_identity(pem: Seq<char>) -> bool;

/// `reqwest::Certificate::from_pem`: with `rustls` it accepts any text, which is read once a client
/// is made.
#[verifier::external_body]
fn accepts_ca_certificate(pem: &str) -> (result: bool)
    ensures
        result,
{
    reqwest::Certificate::from_pem(pem.as_bytes()).is_ok()
}

/// `reqwest::Identity::from_pem`: whether it accepts a text.
#[verifier::external_body]
fn accepts_client_identity(pem: &str) -> (result: bool)
    ensures
        result == is_client_identity(pem@),
{
    reqwest::Identity::from_pem(pem.as_bytes()).is_ok()
}

/// How an HTTP client is set up.
#[derive(Debug)]
pub struct ClientPlan {
    /// The headers of every request.
    pub headers: Headers,
    pub connect_timeout_ms: u64,
    pub https_only: bool,
    pub ca_certificate_pem: Option<String>,
    pub client_identity_pem: Option<String>,
}

/// What a [`ClientPlan`] is.
pub struct PlanModel {
    pub headers: Seq<HeaderModel>,
    pub connect_timeout_ms: int,
    pub https_only: bool,
    pub ca_certificate_pem: Option<Seq<char>>,
    pub client_identity_pem: Option<Seq<char>>,
}

impl View for ClientPlan {
    type V = PlanModel;

    open spec fn view(&self) -> PlanModel {
        PlanModel {
            headers: self.headers@,
            connect_timeout_ms: self.connect_timeout_ms as int,
            https_only: self.https_only,
            ca_certificate_pem: optional_text(self.ca_certificate_pem),
            client_identity_pem: optional_text(self.client_identity_pem),
        }
    }
}

/// How long a connection may take to be made: the connection's timeout, at least one millisecond
/// and at most half a minute.
pub open spec fn connect_timeout(timeout_ms: u64) -> int {
    if timeout_ms < 1 {
        1
    } else if timeout_ms > 30_000 {
        30_000
    } else {
        timeout_ms as int
    }
}

/// The CA certificate that a profile refers to.
pub open spec fn ca_result(
    reference: Option<Seq<char>>,
    fields: Seq<(Seq<char>, Seq<char>)>,
) -> Result<Option<Seq<char>>, ErrorModel> {
    match reference {
        None => Ok(None),
        Some(name) => match field_result(fields, seq![name].push("ca_certificate_pem"@)) {
            Err(error) => Err(error),
            Ok(pem) => Ok(Some(pem)),
        },
    }
}

/// The client certificate that a profile refers to, with its private key.
pub open spec fn identity_result(
    reference: Option<Seq<char>>,
    fields: Seq<(Seq<char>, Seq<char>)>,
) -> Result<Option<Seq<char>>, ErrorModel> {
    match reference {
        None => Ok(None),
        Some(name) => match field_result(fields, seq![name].push("client_certificate_pem"@)) {
            Err(error) => Err(error),
            Ok(certificate) => match field_result(
                fields,
                names_of(["client_private_key_pem", "private_key_pem"]@),
            ) {
                Err(error) => Err(error),
                Ok(private_key) => {
                    let pem = certificate + "\n"@ + private_key;
                    if is_client_identity(pem) {
                        Ok(Some(pem))
                    } else {
                        Err(
                            invalid_request(
                                "the configured client certificate or private key is not valid PEM"@,
                            ),
                        )
                    }
                },
            },
        },
    }
}

/// Whether an optional text is what is expected of it.
pub open spec fn is_optional_result(
    result: Result<Option<String>, ConnectorError>,
    expected: Result<Option<Seq<char>>, ErrorModel>,
) -> bool {
    match (result, expected) {
        (Ok(text), Ok(wanted)) => optional_text(text) == wanted,
        (Err(error), Err(wanted)) => error@ == wanted,
        _ => false,
    }
}

/// The CA certificate that a profile refers to.
fn ca_certificate(reference: Option<&str>, secret: &SecretMaterial) -> (result: Result<
    Option<String>,
    ConnectorError,
>)
    ensures
        is_optional_result(
            result,
            ca_result(crate::text::optional_str(reference), secret.fields@),
        ),
{
    let name = match reference {
        None => {
            return Ok(None);
        },
        Some(name) => name,
    };
    assert(names_of([name, "ca_certificate_pem"]@) =~= seq![name@].push("ca_certificate_pem"@));
    let pem = match secret_field(secret, &[name, "ca_certificate_pem"]) {
        Err(error) => {
            return Err(error);
        },
        Ok(pem) => pem,
    };
    if !accepts_ca_certificate(pem) {
        return Err(invalid("the configured CA certificate is not valid PEM"));
    }
    Ok(Some(pem.to_owned()))
}

/// The client certificate that a profile refers to, with its private key.
fn client_identity(reference: Option<&str>, secret: &SecretMaterial) -> (result: Result<
    Option<String>,
    ConnectorError,
>)
    ensures
        is_optional_result(
            result,
            identity_result(crate::text::optional_str(reference), secret.fields@),
        ),
{
    let name = match reference {
        None => {
            return Ok(None);
        },
        Some(name) => name,
    };
    assert(names_of([name, "client_certificate_pem"]@) =~= seq![name@].push(
        "client_certificate_pem"@,
    ));
    let certificate = match secret_field(secret, &[name, "client_certificate_pem"]) {
        Err(error) => {
            return Err(error);
        },
        Ok(certificate) => certificate,
    };
    let private_key = match secret_field(secret, &["client_private_key_pem", "private_key_pem"]) {
        Err(error) => {
            return Err(error);
        },
        Ok(private_key) => private_key,
    };
    let pem = framed(certificate, "\n", private_key);
    if !accepts_client_identity(pem.as_str()) {
        return Err(
            invalid("the configured client certificate or private key is not valid PEM"),
        );
    }
    Ok(Some(pem))
}

/// Headers with further ones, each in place of one of the same name.
pub open spec fn with_headers(
    headers: Seq<HeaderModel>,
    extra: Seq<(Seq<char>, Seq<char>)>,
) -> Seq<HeaderModel>
    decreases extra.len(),
{
    if extra.len() == 0 {
        headers
    } else {
        with_header(
            with_headers(headers, extra.drop_last()),
            HeaderModel { name: extra.last().0, value: extra.last().1, sensitive: false },
        )
    }
}

/// How the HTTP client of a connection is set up.
pub open spec fn client_result(
    profile: ConnectionProfile,
    kind: AuthKind,
    fields: Seq<(Seq<char>, Seq<char>)>,
    style: AuthStyle,
    extra: Seq<(Seq<char>, Seq<char>)>,
) -> Result<PlanModel, ErrorModel> {
    if profile.auth_kind != kind {
        Err(invalid_request("credential kind does not match the connection profile"@))
    } else if let Some(error) = tls_error(profile) {
        Err(error)
    } else if kind == AuthKind::ClientCertificate && (!profile.tls.enabled
        || profile.tls.client_certificate_ref is None) {
        Err(
            invalid_request(
                "client-certificate authentication requires TLS and a client_certificate_ref"@,
            ),
        )
    } else {
        match headers_result(style, kind, fields) {
            Err(error) => Err(error),
            Ok(headers) => match ca_result(
                optional_text(profile.tls.ca_certificate_ref),
                fields,
            ) {
                Err(error) => Err(error),
                Ok(ca) => match identity_result(
                    optional_text(profile.tls.client_certificate_ref),
                    fields,
                ) {
                    Err(error) => Err(error),
                    Ok(identity) => Ok(
                        PlanModel {
                            headers: with_headers(headers, extra),
                            connect_timeout_ms: connect_timeout(profile.policy.timeout_ms),
                            https_only: profile.tls.enabled,
                            ca_certificate_pem: ca,
                            client_identity_pem: identity,
                        },
                    ),
                },
            },
        }
    }
}

/// How the HTTP client of a connection is set up.
pub fn client_plan(
    profile: &ConnectionProfile,
    secret: &SecretMaterial,
    style: AuthStyle,
    extra: &Vec<(String, String)>,
) -> (result: Result<ClientPlan, ConnectorError>)
    ensures
        match (
            result,
            client_result(
                *profile,
                secret.kind,
                secret.fields@,
                style,
                crate::http::transport::pairs(extra@),
            ),
        ) {
            (Ok(plan), Ok(wanted)) => plan@ == wanted,
            (Err(error), Err(wanted)) => error@ == wanted,
            _ => false,
        },
{
    if profile.auth_kind != secret.kind {
        return Err(invalid("credential kind does not match the connection profile"));
    }
    match validate_tls(profile) {
        Err(error) => {
            return Err(error);
        },
        Ok(()) => {},
    }
    if secret.kind == AuthKind::ClientCertificate && (!profile.tls.enabled
        || profile.tls.client_certificate_ref.is_none()) {
        return Err(
            invalid("client-certificate authentication requires TLS and a client_certificate_ref"),
        );
    }
    let mut headers = match authentication_headers(secret, style) {
        Err(error) => {
            return Err(error);
        },
        Ok(headers) => headers,
    };
    let ghost initial = headers@;
    let ghost all = crate::http::transport::pairs(extra@);
    let mut i: usize = 0;
    assert(all.subrange(0, 0) =~= Seq::<(Seq<char>, Seq<char>)>::empty());
    while i < extra.len()
        invariant
            i <= extra@.len(),
            all == crate::http::transport::pairs(extra@),
            headers@ == with_headers(initial, all.subrange(0, i as int)),
        decreases extra@.len() - i,
    {
        headers.put(
            Header { name: extra[i].0.clone(), value: extra[i].1.clone(), sensitive: false },
        );
        assert(all.subrange(0, i + 1).drop_last() =~= all.subrange(0, i as int));
        i = i + 1;
    }
    assert(all.subrange(0, i as int) =~= all);
    let ca_certificate_pem = match ca_certificate(
        borrowed(&profile.tls.ca_certificate_ref),
        secret,
    ) {
        Err(error) => {
            return Err(error);
        },
        Ok(pem) => pem,
    };
    let client_identity_pem = match client_identity(
        borrowed(&profile.tls.client_certificate_ref),
        secret,
    ) {
        Err(error) => {
            return Err(error);
        },
        Ok(pem) => pem,
    };
    let timeout: u64 = profile.policy.timeout_ms;
    let connect_timeout_ms: u64 = if timeout < 1 {
        1
    } else if timeout > 30_000 {
        30_000
    } else {
        timeout
    };
    Ok(
        ClientPlan {
            headers,
            connect_timeout_ms,
            https_only: profile.tls.enabled,
            ca_certificate_pem,
            client_identity_pem,
        },
    )
}

/// A client that is set up carries credentials of the profile's kind alone, never verifies less
/// than the server's certificate, and sends nothing but over the protection the profile asks for.
pub proof fn lemma_clients_keep_their_protection(
    profile: ConnectionProfile,
    kind: AuthKind,
    fields: Seq<(Seq<char>, Seq<char>)>,
    style: AuthStyle,
    extra: Seq<(Seq<char>, Seq<char>)>,
)
    requires
        client_result(profile, kind, fields, style, extra) is Ok,
    ensures
        profile.auth_kind == kind,
        profile.tls.verify_server_certificate,
        profile.tls.enabled <==> profile.endpoint.scheme@ == "https"@,
        client_result(profile, kind, fields, style, extra)->Ok_0.https_only == profile.tls.enabled,
        kind == AuthKind::ClientCertificate ==> client_result(
            profile,
            kind,
            fields,
            style,
            extra,
        )->Ok_0.client_identity_pem is Some,
{
    reveal_strlit("https");
    reveal_strlit("http");
    assert("https"@.len() != "http"@.len());
}

/// Credentials take at most one header, which is marked as sensitive; none only where there are no
/// credentials to send.
pub proof fn lemma_credentials_are_sensitive(
    style: AuthStyle,
    kind: AuthKind,
    fields: Seq<(Seq<char>, Seq<char>)>,
)
    ensures
        headers_result(style, kind, fields) matches Ok(headers) ==> {
            &&& headers.len() <= 1
            &&& headers.len() == 0 <==> kind == AuthKind::Anonymous || kind
                == AuthKind::ClientCertificate
            &&& forall|i: int|
                0 <= i < headers.len() ==> {
                    &&& (#[trigger] headers[i]).sensitive
                    &&& headers[i].name == (if style == AuthStyle::RequiredApiKeyHeader || style
                        == AuthStyle::OptionalApiKeyHeader {
                        "api-key"@
                    } else {
                        "authorization"@
                    })
                }
        },
{
}

} // verus!
