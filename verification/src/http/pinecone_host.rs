//! Where the data of a Pinecone index is found.
use crate::http::common::{find_text_option, target_error, text_option, validate_target};
use crate::http::transport::{
    api_request, group_pairs, make_request, parse_endpoint, url_parts, BodyModel, EndpointModel,
    HttpBody, HttpMethod, HttpRequest, MethodModel, RequestModel,
};
use crate::json::{as_text, find, member, text_of};
use crate::model::{
    error_of, framed, invalid, invalid_request, is_text_result, protocol, protocol_failure,
    ConnectionProfile, ConnectorError, Endpoint, ErrorModel,
};
use crate::text::{
    contains_text, equal_ignoring_case, names_of, occurs_in, optional_str, optional_text, same,
    same_ignoring_case,
};
use crate::value::{members, named, Json};
use vstd::prelude::*;

verus! {

broadcast use {crate::text::group_texts, crate::value::group_models, group_pairs};

/// The host of a URL.
#[derive(Debug)]
pub enum UrlHost {
    Domain(String),
    /// An IPv4 address, the first octet highest.
    Ipv4(u32),
    /// An IPv6 address, the first octet highest.
    Ipv6(u128),
}

/// What a [`UrlHost`] is.
pub enum HostModel {
    Domain(Seq<char>),
    Ipv4(u32),
    Ipv6(u128),
}

impl View for UrlHost {
    type V = HostModel;

    open spec fn view(&self) -> HostModel {
        match *self {
            UrlHost::Domain(name) => HostModel::Domain(name@),
            UrlHost::Ipv4(address) => HostModel::Ipv4(address),
            UrlHost::Ipv6(address) => HostModel::Ipv6(address),
        }
    }
}

/// The host of the URL that a text is.
pub uninterp spec fn url_host(text: Seq<char>) -> Option<HostModel>;

/// `url::Url::host` of a parsed URL; none where the text is no URL or has no host.
#[verifier::external_body]
fn read_host(text: &str) -> (result: Option<UrlHost>)
    ensures
        match (result, url_host(text@)) {
            (Some(host), Some(wanted)) => host@ == wanted,
            (None, None) => true,
            _ => false,
        },
{
    let url = url::Url::parse(text).ok()?;
    Some(match url.host()? {
        url::Host::Domain(name) => UrlHost::Domain(name.to_owned()),
        url::Host::Ipv4(address) => UrlHost::Ipv4(address.into()),
        url::Host::Ipv6(address) => UrlHost::Ipv6(address.into()),
    })
}

/// Whether a host is the local machine: its name, an IPv4 address of its block, or the IPv6
/// address.
pub open spec fn is_local(host: Option<HostModel>) -> bool {
    match host {
        Some(HostModel::Domain(name)) => same_ignoring_case(name, "localhost"@),
        Some(HostModel::Ipv4(address)) => address as int / 0x100_0000 == 127,
        Some(HostModel::Ipv6(address)) => address == 1,
        None => false,
    }
}

/// Whether a host is the local machine.
pub fn is_loopback(host: Option<&UrlHost>) -> (result: bool)
    ensures
        result == is_local(
            match host {
                Some(host) => Some(host@),
                None => None,
            },
        ),
{
    match host {
        Some(UrlHost::Domain(name)) => equal_ignoring_case(name.as_str(), "localhost"),
        Some(UrlHost::Ipv4(address)) => *address / 0x100_0000 == 127,
        Some(UrlHost::Ipv6(address)) => *address == 1,
        None => false,
    }
}

/// The error of a plaintext URL that leads off the local machine.
pub open spec fn plaintext_error(scheme: Seq<char>, host: Option<HostModel>) -> Option<ErrorModel> {
    if scheme != "http"@ || is_local(host) {
        None
    } else {
        Some(
            invalid_request(
                "Pinecone HTTP endpoints are allowed only on loopback for Pinecone Local"@,
            ),
        )
    }
}

/// Refuses a plaintext URL that leads off the local machine.
pub fn check_plaintext(scheme: &str, host: Option<&UrlHost>) -> (result: Result<(), ConnectorError>)
    ensures
        error_of(result) == plaintext_error(
            scheme@,
            match host {
                Some(host) => Some(host@),
                None => None,
            },
        ),
{
    if !same(scheme, "http") || is_loopback(host) {
        Ok(())
    } else {
        Err(
            invalid("Pinecone HTTP endpoints are allowed only on loopback for Pinecone Local"),
        )
    }
}

/// Refuses a plaintext endpoint that leads off the local machine.
pub fn validate_pinecone_url(endpoint: &Endpoint) -> (result: Result<(), ConnectorError>)
    ensures
        error_of(result) == plaintext_error(endpoint.scheme@, url_host(endpoint.text@)),
{
    let host = read_host(endpoint.text.as_str());
    match &host {
        Some(host) => check_plaintext(endpoint.scheme.as_str(), Some(host)),
        None => check_plaintext(endpoint.scheme.as_str(), None),
    }
}

/// The URL of a data host: a whole URL, or a host that is reached as the connection is.
pub open spec fn data_text(tls: bool, host: Seq<char>) -> Seq<char> {
    if occurs_in("://"@, host) {
        host
    } else if tls {
        "https"@ + "://"@ + host
    } else {
        "http"@ + "://"@ + host
    }
}

/// The URL of a data host, once it is taken apart.
pub open spec fn accepted_url(
    tls: bool,
    parts: Option<EndpointModel>,
    host: Option<HostModel>,
) -> Result<EndpointModel, ErrorModel> {
    match parts {
        None => Err(protocol_failure("Pinecone returned an invalid data host"@)),
        Some(url) => if !(url.scheme == "http"@ || url.scheme == "https"@) || url.username.len() > 0
            || url.password is Some || url.host is None || url.query is Some || url.fragment is Some {
            Err(protocol_failure("Pinecone returned an unsafe data host"@))
        } else if tls && url.scheme != "https"@ {
            Err(protocol_failure("Pinecone data host is not HTTPS"@))
        } else {
            match plaintext_error(url.scheme, host) {
                Some(error) => Err(error),
                None => Ok(url),
            }
        },
    }
}

/// The URL of a data host.
pub open spec fn data_url_result(tls: bool, host: Seq<char>) -> Result<EndpointModel, ErrorModel> {
    let parts = url_parts(data_text(tls, host));
    accepted_url(
        tls,
        parts,
        match parts {
            Some(url) => url_host(url.text),
            None => None,
        },
    )
}

/// Whether a URL is what is expected of it.
pub open spec fn is_endpoint_result(
    result: Result<Endpoint, ConnectorError>,
    expected: Result<EndpointModel, ErrorModel>,
) -> bool {
    match (result, expected) {
        (Ok(endpoint), Ok(wanted)) => endpoint@ == wanted,
        (Err(error), Err(wanted)) => error@ == wanted,
        _ => false,
    }
}

/// Accepts the URL of a data host, once it is taken apart.
pub fn accept_data_url(tls: bool, url: Option<Endpoint>, host: Option<&UrlHost>) -> (result: Result<
    Endpoint,
    ConnectorError,
>)
    ensures
        is_endpoint_result(
            result,
            accepted_url(
                tls,
                match url {
                    Some(url) => Some(url@),
                    None => None,
                },
                match host {
                    Some(host) => Some(host@),
                    None => None,
                },
            ),
        ),
{
    let url = match url {
        None => {
            return Err(protocol("Pinecone returned an invalid data host"));
        },
        Some(url) => url,
    };
    let scheme = url.scheme.as_str();
    if !(same(scheme, "http") || same(scheme, "https")) || !url.username.as_str().is_empty()
        || url.password.is_some() || url.host.is_none() || url.query.is_some()
        || url.fragment.is_some() {
        return Err(protocol("Pinecone returned an unsafe data host"));
    }
    if tls && !same(scheme, "https") {
        return Err(protocol("Pinecone data host is not HTTPS"));
    }
    match check_plaintext(scheme, host) {
        Err(error) => Err(error),
        Ok(()) => Ok(url),
    }
}

/// The URL of a data host.
pub fn validate_data_url(profile: &ConnectionProfile, host: &str) -> (result: Result<
    Endpoint,
    ConnectorError,
>)
    ensures
        is_endpoint_result(result, data_url_result(profile.tls.enabled, host@)),
{
    let text = if contains_text(host, "://") {
        host.to_owned()
    } else if profile.tls.enabled {
        framed("https", "://", host)
    } else {
        framed("http", "://", host)
    };
    match parse_endpoint(text.as_str()) {
        None => accept_data_url(profile.tls.enabled, None, None),
        Some(url) => {
            let found = read_host(url.text.as_str());
            match &found {
                Some(host) => accept_data_url(profile.tls.enabled, Some(url), Some(host)),
                None => accept_data_url(profile.tls.enabled, Some(url), None),
            }
        },
    }
}

/// No data leaves the machine in plaintext: a data URL is encrypted where the connection is, and
/// otherwise encrypted or local.
pub proof fn lemma_data_stays_protected(
    tls: bool,
    parts: Option<EndpointModel>,
    host: Option<HostModel>,
)
    requires
        accepted_url(tls, parts, host) is Ok,
    ensures
        ({
            let url = accepted_url(tls, parts, host)->Ok_0;
            &&& tls ==> url.scheme == "https"@
            &&& url.scheme == "https"@ || is_local(host)
            &&& url.username.len() == 0 && url.password is None
        }),
{
}

/// The data host of an index that the connection sets.
pub open spec fn configured_host(profile: ConnectionProfile, index: Seq<char>) -> Option<Seq<char>> {
    let of_index = match named(members(profile.options@), "index_hosts"@) {
        Some(hosts) => text_of(member(hosts, index)),
        None => None,
    };
    match of_index {
        Some(host) => Some(host),
        None => if profile.database is None || optional_text(profile.database) == Some(index) {
            text_option(profile, "index_host"@)
        } else {
            None
        },
    }
}

/// The data host of an index that the connection sets.
pub fn find_configured_host<'a>(profile: &'a ConnectionProfile, index: &str) -> (result: Option<
    &'a str,
>)
    ensures
        optional_str(result) == configured_host(*profile, index@),
{
    let of_index = match find(&profile.options, "index_hosts") {
        Some(hosts) => as_text(hosts.get(index)),
        None => None,
    };
    if of_index.is_some() {
        return of_index;
    }
    let only_index = match &profile.database {
        None => true,
        Some(database) => same(database.as_str(), index),
    };
    if only_index {
        find_text_option(profile, "index_host")
    } else {
        None
    }
}

/// Where the data of an index is found: at a host, or in the description of the index.
#[derive(Debug)]
pub enum HostSource {
    Configured(String),
    Lookup(HttpRequest),
}

/// What a [`HostSource`] is.
pub enum SourceModel {
    Configured(Seq<char>),
    Lookup(RequestModel),
}

impl View for HostSource {
    type V = SourceModel;

    open spec fn view(&self) -> SourceModel {
        match *self {
            HostSource::Configured(host) => SourceModel::Configured(host@),
            HostSource::Lookup(request) => SourceModel::Lookup(request@),
        }
    }
}

/// Where the data of an index is found.
pub open spec fn source_result(profile: ConnectionProfile, index: Seq<char>) -> Result<
    SourceModel,
    ErrorModel,
> {
    match target_error(index) {
        Some(error) => Err(error),
        None => match configured_host(profile, index) {
            Some(host) => Ok(SourceModel::Configured(host)),
            None => match api_request(
                profile,
                MethodModel::Get,
                names_of(["indexes"]@).push(index),
                Seq::empty(),
                BodyModel::Empty,
            ) {
                Err(error) => Err(error),
                Ok(request) => Ok(SourceModel::Lookup(request)),
            },
        },
    }
}

/// Where the data of an index is found.
pub fn host_source(profile: &ConnectionProfile, index: &str) -> (result: Result<
    HostSource,
    ConnectorError,
>)
    ensures
        match (result, source_result(*profile, index@)) {
            (Ok(source), Ok(wanted)) => source@ == wanted,
            (Err(error), Err(wanted)) => error@ == wanted,
            _ => false,
        },
{
    match validate_target(index) {
        Err(error) => {
            return Err(error);
        },
        Ok(()) => {},
    }
    match find_configured_host(profile, index) {
        Some(host) => {
            return Ok(HostSource::Configured(host.to_owned()));
        },
        None => {},
    }
    assert(names_of(["indexes", index]@) =~= names_of(["indexes"]@).push(index@));
    match make_request(
        profile,
        HttpMethod::Get,
        &["indexes", index],
        Vec::new(),
        HttpBody::Empty,
    ) {
        Err(error) => Err(error),
        Ok(request) => Ok(HostSource::Lookup(request)),
    }
}

/// The data host that the description of an index gives.
pub fn described_host(answer: &Json) -> (result: Result<String, ConnectorError>)
    ensures
        is_text_result(
            result,
            match text_of(member(answer@, "host"@)) {
                Some(host) => Ok(host),
                None => Err(
                    protocol_failure("Pinecone index description omitted its data host"@),
                ),
            },
        ),
{
    match as_text(answer.get("host")) {
        Some(host) => Ok(host.to_owned()),
        None => Err(protocol("Pinecone index description omitted its data host")),
    }
}

} // verus!
