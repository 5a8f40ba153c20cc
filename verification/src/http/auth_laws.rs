//! How a client shows who it is, and which connections it makes.
use crate::encoding::base64_text;
use crate::http::auth::{
    client_result, credential_result, header_place, header_value, headers_result,
    is_client_identity, with_header, with_headers, AuthStyle, HeaderModel,
};
use crate::http::common::text_option;
use crate::http::pinecone_host::{
    accepted_url, data_text, is_local, source_result, HostModel, SourceModel,
};
use crate::http::sending::goes_to;
use crate::http::transport::{EndpointModel, MethodModel};
use crate::json::{member, text_of};
use crate::model::{field_named, AuthKind, ConnectionProfile};
use crate::secret::first_filled;
use crate::text::{names_of, occurs_in};
use crate::value::{members, named};
use vstd::prelude::*;
use vstd::utf8::encode_utf8;

verus! {

/// Whether a text is that of a user and a password in the basic scheme.
pub open spec fn is_basic(text: Seq<char>, username: Seq<char>, password: Seq<char>) -> bool {
    text == "Basic "@ + base64_text(encode_utf8(username + ":"@ + password))
}

/// The first of two fields that is filled.
pub open spec fn either(
    fields: Seq<(Seq<char>, Seq<char>)>,
    one: Seq<char>,
    other: Seq<char>,
) -> Option<Seq<char>> {
    first_filled(fields, seq![one].push(other))
}

/// A user with a password is shown in the basic scheme, or as a token where the product takes both as
/// one.
pub proof fn lemma_users_show_their_password(
    style: AuthStyle,
    fields: Seq<(Seq<char>, Seq<char>)>,
)
    ensures
        credential_result(style, AuthKind::UsernamePassword, fields) matches Some((header, Ok(text)))
            ==> {
            &&& header is Authorization
            &&& match style {
                AuthStyle::Standard => first_filled(
                    fields,
                    seq!["username"@],
                ) matches Some(username) && first_filled(fields, seq!["password"@]) matches Some(
                    password,
                ) && is_basic(text, username, password),
                AuthStyle::SplunkManagement => either(
                    fields,
                    "management_username"@,
                    "username"@,
                ) matches Some(username) && either(
                    fields,
                    "management_password"@,
                    "password"@,
                ) matches Some(password) && is_basic(text, username, password),
                AuthStyle::MilvusBearer => first_filled(
                    fields,
                    seq!["username"@],
                ) matches Some(username) && first_filled(fields, seq!["password"@]) matches Some(
                    password,
                ) && text == "Bearer "@ + username + ":"@ + password,
                AuthStyle::SplunkHec => first_filled(
                    fields,
                    seq!["hec_token"@].push("api_key"@).push("token"@).push("bearer_token"@),
                ) matches Some(token) && text == "Splunk "@ + token,
                _ => false,
            }
        },
{
    assert(names_of(["username"]@) =~= seq!["username"@]);
    assert(names_of(["password"]@) =~= seq!["password"@]);
    assert(names_of(["management_username", "username"]@) =~= seq!["management_username"@].push(
        "username"@,
    ));
    assert(names_of(["management_password", "password"]@) =~= seq!["management_password"@].push(
        "password"@,
    ));
    assert(names_of(["hec_token", "api_key", "token", "bearer_token"]@) =~= seq!["hec_token"@].push(
        "api_key"@,
    ).push("token"@).push("bearer_token"@));
}

/// An API key is shown in the header and the scheme of its product, as it is; where a standard
/// product has its two parts only, both are encoded together.
pub proof fn lemma_keys_are_shown(style: AuthStyle, fields: Seq<(Seq<char>, Seq<char>)>)
    ensures
        credential_result(style, AuthKind::ApiKey, fields) matches Some((header, Ok(text)))
            ==> match style {
            AuthStyle::Standard => header is Authorization && match field_named(
                fields,
                "api_key"@,
            ) {
                Some(key) => text == "ApiKey "@ + key,
                None => either(fields, "api_key_id"@, "id"@) matches Some(id) && either(
                    fields,
                    "api_key_secret"@,
                    "key"@,
                ) matches Some(key) && text == "ApiKey "@ + base64_text(
                    encode_utf8(id + ":"@ + key),
                ),
            },
            AuthStyle::RequiredApiKeyHeader | AuthStyle::OptionalApiKeyHeader => header is ApiKey
                && either(fields, "api_key"@, "token"@) == Some(text),
            AuthStyle::ApiKeyBearer | AuthStyle::MilvusBearer => header is Authorization && (either(
                fields,
                "api_key"@,
                "token"@,
            ) matches Some(key) && text == "Bearer "@ + key),
            AuthStyle::SplunkManagement => header is Authorization && (first_filled(
                fields,
                seq!["management_token"@].push("bearer_token"@).push("token"@).push("api_key"@),
            ) matches Some(key) && text == "Bearer "@ + key),
            AuthStyle::SplunkHec => header is Authorization && (first_filled(
                fields,
                seq!["hec_token"@].push("api_key"@).push("token"@).push("bearer_token"@),
            ) matches Some(key) && text == "Splunk "@ + key),
        },
{
    assert(names_of(["api_key", "token"]@) =~= seq!["api_key"@].push("token"@));
    assert(names_of(["api_key_id", "id"]@) =~= seq!["api_key_id"@].push("id"@));
    assert(names_of(["api_key_secret", "key"]@) =~= seq!["api_key_secret"@].push("key"@));
    assert(names_of(["management_token", "bearer_token", "token", "api_key"]@)
        =~= seq!["management_token"@].push("bearer_token"@).push("token"@).push("api_key"@));
    assert(names_of(["hec_token", "api_key", "token", "bearer_token"]@) =~= seq!["hec_token"@].push(
        "api_key"@,
    ).push("token"@).push("bearer_token"@));
}

/// A bearer token is shown as it is, behind the scheme of its product.
pub proof fn lemma_tokens_are_shown(style: AuthStyle, fields: Seq<(Seq<char>, Seq<char>)>)
    ensures
        credential_result(style, AuthKind::BearerToken, fields) matches Some((header, Ok(text)))
            ==> header is Authorization && match style {
            AuthStyle::Standard | AuthStyle::ApiKeyBearer | AuthStyle::MilvusBearer => either(
                fields,
                "token"@,
                "bearer_token"@,
            ) matches Some(token) && text == "Bearer "@ + token,
            AuthStyle::SplunkManagement => first_filled(
                fields,
                seq!["management_token"@].push("bearer_token"@).push("token"@).push("api_key"@),
            ) matches Some(token) && text == "Bearer "@ + token,
            AuthStyle::SplunkHec => first_filled(
                fields,
                seq!["hec_token"@].push("api_key"@).push("token"@).push("bearer_token"@),
            ) matches Some(token) && text == "Splunk "@ + token,
            _ => false,
        },
{
    assert(names_of(["token", "bearer_token"]@) =~= seq!["token"@].push("bearer_token"@));
    assert(names_of(["management_token", "bearer_token", "token", "api_key"]@)
        =~= seq!["management_token"@].push("bearer_token"@).push("token"@).push("api_key"@));
    assert(names_of(["hec_token", "api_key", "token", "bearer_token"]@) =~= seq!["hec_token"@].push(
        "api_key"@,
    ).push("token"@).push("bearer_token"@));
}

/// Who has no header to show: those who are anonymous or show a certificate, where the product takes
/// them at all. Nobody else connects without one.
pub proof fn lemma_nobody_else_is_anonymous(
    style: AuthStyle,
    kind: AuthKind,
    fields: Seq<(Seq<char>, Seq<char>)>,
)
    ensures
        credential_result(style, kind, fields) is None <==> (kind is Anonymous
            || kind is ClientCertificate) && (style is Standard || style is OptionalApiKeyHeader
            || style is ApiKeyBearer || style is MilvusBearer),
        kind is ConnectionString ==> headers_result(style, kind, fields) is Err,
        headers_result(style, kind, fields) matches Ok(headers) ==> match credential_result(
            style,
            kind,
            fields,
        ) {
            None => headers.len() == 0,
            Some((header, Ok(text))) => headers.len() == 1 && headers[0].value == text
                && headers[0].sensitive && headers[0].name == (if header is ApiKey {
                "api-key"@
            } else {
                "authorization"@
            }),
            Some((header, Err(error))) => false,
        },
{
}

proof fn lemma_place(headers: Seq<HeaderModel>, name: Seq<char>)
    ensures
        0 <= header_place(headers, name) <= headers.len(),
        header_place(headers, name) < headers.len() ==> headers[header_place(headers, name)].name
            == name,
        forall|i: int|
            0 <= i < header_place(headers, name) ==> (#[trigger] headers[i]).name != name,
    decreases headers.len(),
{
    if headers.len() > 0 {
        let before = headers.drop_last();
        lemma_place(before, name);
        assert forall|i: int| 0 <= i < header_place(headers, name) implies (
        #[trigger] headers[i]).name != name by {
            if i < before.len() {
                assert(before[i] == headers[i]);
            }
        }
        if header_place(before, name) < before.len() {
            assert(before[header_place(before, name)] == headers[header_place(before, name)]);
        }
    }
}

/// A header that is set is found under its name, and the others stay as they were.
pub proof fn lemma_headers_are_found(
    headers: Seq<HeaderModel>,
    header: HeaderModel,
    other: Seq<char>,
)
    ensures
        header_value(with_header(headers, header), header.name) == Some(header.value),
        other != header.name ==> header_value(with_header(headers, header), other) == header_value(
            headers,
            other,
        ),
{
    let all = with_header(headers, header);
    let place = header_place(headers, header.name);
    lemma_place(headers, header.name);
    lemma_place(all, header.name);
    lemma_place(headers, other);
    lemma_place(all, other);
    let now = header_place(all, header.name);
    if place < headers.len() {
        assert(all[place] == header);
    } else {
        assert(all[headers.len() as int] == header);
    }
    if now < place {
        assert(all[now] == headers[now]);
    }
    assert(now == place);
    if other != header.name {
        let was = header_place(headers, other);
        let is = header_place(all, other);
        if was < headers.len() {
            assert(all[was] == headers[was]);
            assert(is <= was);
        }
        if is < all.len() {
            assert(is != place);
            assert(all[is] == headers[is]);
        }
        if is < was && is < all.len() {
            assert(headers[is].name == other);
        }
    }
}

/// A client connects as its profile says: with its own kind of credential, encrypted exactly where
/// TLS is on, with every server's certificate verified, with the headers of the credential, and with
/// the certificates that the profile refers to.
pub proof fn lemma_clients_connect_as_configured(
    profile: ConnectionProfile,
    kind: AuthKind,
    fields: Seq<(Seq<char>, Seq<char>)>,
    style: AuthStyle,
    extra: Seq<(Seq<char>, Seq<char>)>,
)
    ensures
        client_result(profile, kind, fields, style, extra) matches Ok(plan) ==> {
            &&& profile.auth_kind == kind
            &&& plan.https_only == profile.tls.enabled
            &&& profile.tls.enabled ==> profile.endpoint.scheme@ == "https"@
            &&& !profile.tls.enabled ==> profile.endpoint.scheme@ == "http"@
            &&& profile.tls.verify_server_certificate
            &&& profile.tls.server_name matches Some(name) ==> profile.endpoint.host is Some
                && profile.endpoint.host->0@ == name@
            &&& kind is ClientCertificate ==> profile.tls.enabled && plan.client_identity_pem is Some
            &&& headers_result(style, kind, fields) matches Ok(headers) && plan.headers
                == with_headers(headers, extra)
            &&& 1 <= plan.connect_timeout_ms <= 30_000
            &&& 1 <= profile.policy.timeout_ms <= 30_000 ==> plan.connect_timeout_ms
                == profile.policy.timeout_ms
            &&& profile.tls.ca_certificate_ref matches Some(name) ==> plan.ca_certificate_pem
                == either(fields, name@, "ca_certificate_pem"@) && plan.ca_certificate_pem is Some
            &&& profile.tls.ca_certificate_ref is None ==> plan.ca_certificate_pem is None
            &&& profile.tls.client_certificate_ref matches Some(name) ==> (either(
                fields,
                name@,
                "client_certificate_pem"@,
            ) matches Some(certificate) && either(
                fields,
                "client_private_key_pem"@,
                "private_key_pem"@,
            ) matches Some(key) && plan.client_identity_pem == Some(
                certificate + "\n"@ + key,
            ) && is_client_identity(certificate + "\n"@ + key))
            &&& profile.tls.client_certificate_ref is None ==> plan.client_identity_pem is None
        },
{
    assert(names_of(["client_private_key_pem", "private_key_pem"]@)
        =~= seq!["client_private_key_pem"@].push("private_key_pem"@));
}

/// A data host is taken only without credentials, query and fragment, and unencrypted only where TLS
/// is off and the host is the machine itself.
pub proof fn lemma_data_hosts_are_safe(
    tls: bool,
    parts: Option<EndpointModel>,
    host: Option<HostModel>,
    text: Seq<char>,
)
    ensures
        accepted_url(tls, parts, host) matches Ok(url) ==> {
            &&& parts == Some(url)
            &&& url.scheme == "https"@ || (url.scheme == "http"@ && !tls && is_local(host))
            &&& url.username.len() == 0 && url.password is None
            &&& url.host is Some && url.query is None && url.fragment is None
        },
        occurs_in("://"@, text) ==> data_text(tls, text) == text,
        !occurs_in("://"@, text) && tls ==> data_text(tls, text) == "https"@ + "://"@ + text,
        !occurs_in("://"@, text) && !tls ==> data_text(tls, text) == "http"@ + "://"@ + text,
        host matches Some(HostModel::Ipv4(address)) ==> (is_local(host) <==> 0x7f00_0000 <= address
            <= 0x7fff_ffff),
        host matches Some(HostModel::Ipv6(address)) ==> (is_local(host) <==> address == 1),
        host is None ==> !is_local(host),
{
    reveal_strlit("http");
    reveal_strlit("https");
    assert("http"@.len() == 4 && "https"@.len() == 5);
}

/// The host of an index is the one that the profile names for it; the one that the profile names
/// without an index serves the index of the profile, or any where it has none. Otherwise the service
/// is asked for it.
pub proof fn lemma_hosts_belong_to_their_index(profile: ConnectionProfile, index: Seq<char>)
    ensures
        source_result(profile, index) matches Ok(SourceModel::Configured(host)) ==> {
            let own = match named(members(profile.options@), "index_hosts"@) {
                Some(hosts) => text_of(member(hosts, index)),
                None => None,
            };
            if own is Some {
                own == Some(host)
            } else {
                text_option(profile, "index_host"@) == Some(host) && (profile.database matches Some(
                    database,
                ) ==> database@ == index)
            }
        },
        source_result(profile, index) matches Ok(SourceModel::Lookup(request)) ==> request.method
            == MethodModel::Get && goes_to(
            request,
            profile.endpoint@,
            seq!["indexes"@].push(index),
        ),
{
    assert(names_of(["indexes"]@) =~= seq!["indexes"@]);
}

} // verus!
