//! Oracle Database.
use crate::budget::larger;
use crate::json::{find, text_of};
use crate::model::{
    error_of, failing, failure, first_error, framed, invalid, invalid_request, is_text_result,
    unsupported, unsupported_request, AuthKind, CatalogQuery, ConnectionProfile, ConnectorError,
    ConnectorManifest, ConnectorStatus, ErrorCategory, ErrorModel, Product, SecretMaterial,
};
use crate::sql::limits::{
    auth_error, required_secret, secret_result, tls_error, validate_auth, validate_tls,
};
use crate::sql::mysql::{is_pair_result, relational_capabilities, relational_capability_list};
use crate::sql::mysql_options::port_or;
use crate::sql::statement::{BuiltQuery, QueryModel};
use crate::text::{
    byte_count, byte_length, clone_optional, contains_control, decimal, decimal_text,
    equal_ignoring_case, has_char, has_control, optional_text, padded, push_padded, same,
    same_ignoring_case, split, split_on, texts, to_upper, trim_leading, trim_trailing, upper,
    without_leading, without_trailing_char,
};
use crate::value::{members, named, DbValue, Json, JsonModel, ValueModel};
use vstd::prelude::*;
use vstd::string::StringExecFns;

verus! {

broadcast use {crate::text::group_texts, crate::value::group_models};

/// The connector for Oracle Database.
#[derive(Debug, Clone, Copy)]
pub struct OracleConnector;

/// The limitations that the connector states.
pub open spec fn limitation_list() -> Seq<Seq<char>> {
    seq![
        "uses the pure Rust oracle-rs TNS implementation and requires Oracle Database 12c or later"@,
    ].push(
        "username/password profiles use the profile endpoint and database service name"@,
    ).push(
        "connection-string credentials require `connection_string`, `username`, and `password` secret fields; the connection string must use EZConnect syntax"@,
    ).push(
        "TCPS uses public roots; custom CA, client-certificate, wallet, cloud-native, and OS-integrated authentication are not integrated"@,
    ).push(
        "native SQL must be one SELECT/WITH or one INSERT/UPDATE/DELETE statement without a semicolon"@,
    ).push(
        "structured and native writes use a transaction and roll back when affected rows exceed max_affected"@,
    ).push(
        "OceanBase Oracle mode is not claimed as TNS-compatible and is not routed to this adapter"@,
    )
}

/// Whether a text may be the name of a service.
pub open spec fn is_service(service: Seq<char>) -> bool {
    &&& service.len() > 0
    &&& byte_length(service) <= 256
    &&& !service.contains('/')
    &&& !service.contains('%')
    &&& !has_control(service)
}

/// The service of a profile: its database, or else the path of its endpoint.
pub open spec fn service_result(profile: ConnectionProfile) -> Result<Seq<char>, ErrorModel> {
    let service = match optional_text(profile.database) {
        Some(database) => database,
        None => without_trailing_char(without_leading(profile.endpoint.path@, '/'), '/'),
    };
    if is_service(service) {
        Ok(service)
    } else {
        Err(
            invalid_request(
                "Oracle service name is empty or invalid; set profile.database or one endpoint path segment"@,
            ),
        )
    }
}

/// Whether a profile names its service by a SID.
pub open spec fn sid_result(profile: ConnectionProfile) -> Result<bool, ErrorModel> {
    match named(members(profile.options@), "sid"@) {
        None => Ok(false),
        Some(JsonModel::Bool(value)) => Ok(value),
        Some(_) => Err(invalid_request("Oracle option `sid` must be a boolean"@)),
    }
}

/// Whether an endpoint's scheme is secure.
pub open spec fn is_secure(scheme: Seq<char>) -> bool {
    scheme == "oracles"@ || scheme == "tcps"@
}

/// The error of a profile that the connector refuses.
pub open spec fn profile_error(profile: ConnectionProfile) -> Option<ErrorModel> {
    let scheme = profile.endpoint.scheme@;
    if profile.product != Product::Oracle || profile.api_mode@ != "tns"@ {
        Some(invalid_request("profile product/api_mode does not match connector `oracle-tns`"@))
    } else if profile.auth_kind != AuthKind::UsernamePassword && profile.auth_kind
        != AuthKind::ConnectionString {
        Some(
            unsupported_request("Oracle supports username/password or EZConnect credentials"@),
        )
    } else if tls_error(profile) is Some {
        tls_error(profile)
    } else if profile.tls.ca_certificate_ref is Some {
        Some(
            unsupported_request(
                "Oracle custom CA certificates are not integrated because the selected driver only accepts filesystem paths"@,
            ),
        )
    } else if profile.tls.client_certificate_ref is Some {
        Some(
            unsupported_request(
                "Oracle client-certificate authentication is not integrated"@,
            ),
        )
    } else if !(scheme == "oracle"@ || scheme == "tcp"@ || is_secure(scheme)) {
        Some(
            invalid_request(
                "Oracle endpoint must use `oracle://`, `oracles://`, `tcp://`, or `tcps://`"@,
            ),
        )
    } else if is_secure(scheme) && !profile.tls.enabled {
        Some(invalid_request("secure Oracle endpoint schemes require tls.enabled=true"@))
    } else if profile.endpoint.host is None {
        Some(invalid_request("Oracle endpoint must include a host"@))
    } else if profile.endpoint.username@.len() > 0 || profile.endpoint.password is Some
        || profile.endpoint.query is Some || profile.endpoint.fragment is Some {
        Some(
            invalid_request(
                "Oracle endpoint must not contain credentials, query, or fragment"@,
            ),
        )
    } else if profile.auth_kind == AuthKind::UsernamePassword && service_result(profile) is Err {
        Some(service_result(profile)->Err_0)
    } else if sid_result(profile) is Err {
        Some(sid_result(profile)->Err_0)
    } else {
        None
    }
}

impl OracleConnector {
    /// The connector.
    pub fn new() -> (result: OracleConnector)
        ensures
            result == OracleConnector,
    {
        OracleConnector
    }

    /// What the connector says of itself.
    pub fn manifest(&self) -> (result: ConnectorManifest)
        ensures
            result.id@ == "oracle-tns"@,
            result.display_name@ == "Oracle Database"@,
            result.product == Product::Oracle,
            result.api_mode@ == "tns"@,
            result.driver@ == "oracle-rs"@,
            result.driver_version@ == "0.1.7"@,
            result.status == ConnectorStatus::Experimental,
            result.capabilities@ == relational_capability_list(),
            result.auth_kinds@ == seq![AuthKind::UsernamePassword].push(
                AuthKind::ConnectionString,
            ),
            texts(result.limitations@) == limitation_list(),
    {
        let mut auth_kinds: Vec<AuthKind> = Vec::new();
        auth_kinds.push(AuthKind::UsernamePassword);
        auth_kinds.push(AuthKind::ConnectionString);
        let mut limitations: Vec<String> = Vec::new();
        limitations.push(
            "uses the pure Rust oracle-rs TNS implementation and requires Oracle Database 12c or later".to_owned(),
        );
        limitations.push(
            "username/password profiles use the profile endpoint and database service name".to_owned(),
        );
        limitations.push(
            "connection-string credentials require `connection_string`, `username`, and `password` secret fields; the connection string must use EZConnect syntax".to_owned(),
        );
        limitations.push(
            "TCPS uses public roots; custom CA, client-certificate, wallet, cloud-native, and OS-integrated authentication are not integrated".to_owned(),
        );
        limitations.push(
            "native SQL must be one SELECT/WITH or one INSERT/UPDATE/DELETE statement without a semicolon".to_owned(),
        );
        limitations.push(
            "structured and native writes use a transaction and roll back when affected rows exceed max_affected".to_owned(),
        );
        limitations.push(
            "OceanBase Oracle mode is not claimed as TNS-compatible and is not routed to this adapter".to_owned(),
        );
        ConnectorManifest {
            id: "oracle-tns".to_owned(),
            display_name: "Oracle Database".to_owned(),
            product: Product::Oracle,
            api_mode: "tns".to_owned(),
            driver: "oracle-rs".to_owned(),
            driver_version: "0.1.7".to_owned(),
            status: ConnectorStatus::Experimental,
            capabilities: relational_capabilities(),
            auth_kinds,
            limitations,
        }
    }

    /// Refuses profiles that are not for this connector.
    pub fn validate_profile(profile: &ConnectionProfile) -> (result: Result<(), ConnectorError>)
        ensures
            crate::model::error_of(result) == profile_error(*profile),
    {
        let scheme = profile.endpoint.scheme.as_str();
        if profile.product != Product::Oracle || !same(profile.api_mode.as_str(), "tns") {
            return Err(
                invalid("profile product/api_mode does not match connector `oracle-tns`"),
            );
        }
        if profile.auth_kind != AuthKind::UsernamePassword && profile.auth_kind
            != AuthKind::ConnectionString {
            return Err(
                unsupported("Oracle supports username/password or EZConnect credentials"),
            );
        }
        match validate_tls(profile) {
            Err(error) => {
                return Err(error);
            },
            Ok(()) => {},
        }
        if profile.tls.ca_certificate_ref.is_some() {
            return Err(
                unsupported(
                    "Oracle custom CA certificates are not integrated because the selected driver only accepts filesystem paths",
                ),
            );
        }
        if profile.tls.client_certificate_ref.is_some() {
            return Err(
                unsupported("Oracle client-certificate authentication is not integrated"),
            );
        }
        let secure = same(scheme, "oracles") || same(scheme, "tcps");
        if !(same(scheme, "oracle") || same(scheme, "tcp") || secure) {
            return Err(
                invalid(
                    "Oracle endpoint must use `oracle://`, `oracles://`, `tcp://`, or `tcps://`",
                ),
            );
        }
        if secure && !profile.tls.enabled {
            return Err(invalid("secure Oracle endpoint schemes require tls.enabled=true"));
        }
        if profile.endpoint.host.is_none() {
            return Err(invalid("Oracle endpoint must include a host"));
        }
        if !profile.endpoint.username.as_str().is_empty() || profile.endpoint.password.is_some()
            || profile.endpoint.query.is_some() || profile.endpoint.fragment.is_some() {
            return Err(
                invalid("Oracle endpoint must not contain credentials, query, or fragment"),
            );
        }
        if profile.auth_kind == AuthKind::UsernamePassword {
            match service_name(profile) {
                Err(error) => {
                    return Err(error);
                },
                Ok(_) => {},
            }
        }
        match sid_mode(profile) {
            Err(error) => Err(error),
            Ok(_) => Ok(()),
        }
    }

    /// Refuses a profile and a credential with which no connection could be made.
    pub fn validate_connection_input(
        profile: &ConnectionProfile,
        secret: &SecretMaterial,
    ) -> (result: Result<(), ConnectorError>)
        ensures
            error_of(result) == first_error(
                profile_error(*profile),
                first_error(
                    auth_error(*profile, secret.kind),
                    failing(
                        config_result(
                            *profile,
                            secret.kind,
                            secret.fields@,
                            larger(profile.policy.timeout_ms as int, 1) as u64,
                        ),
                    ),
                ),
            ),
    {
        match Self::validate_profile(profile) {
            Err(error) => {
                return Err(error);
            },
            Ok(_) => {},
        }
        match validate_auth(profile, secret) {
            Err(error) => {
                return Err(error);
            },
            Ok(_) => {},
        }
        match build_config(
            profile,
            secret,
            if profile.policy.timeout_ms >= 1 {
                profile.policy.timeout_ms
            } else {
                1
            },
        ) {
            Err(error) => Err(error),
            Ok(_) => Ok(()),
        }
    }
}

/// Refuses a text that cannot be the name of a service.
pub fn validate_service(service: &str) -> (result: Result<(), ConnectorError>)
    ensures
        crate::model::error_of(result) == (if is_service(service@) {
            None
        } else {
            Some(
                invalid_request(
                    "Oracle service name is empty or invalid; set profile.database or one endpoint path segment"@,
                ),
            )
        }),
{
    if service.is_empty() || byte_count(service) > 256 || has_char(service, '/') || has_char(
        service,
        '%',
    ) || contains_control(service) {
        return Err(
            invalid(
                "Oracle service name is empty or invalid; set profile.database or one endpoint path segment",
            ),
        );
    }
    Ok(())
}

/// The service of a profile.
pub fn service_name(profile: &ConnectionProfile) -> (result: Result<String, ConnectorError>)
    ensures
        is_text_result(result, service_result(*profile)),
{
    let service = match &profile.database {
        Some(database) => database.clone(),
        None => {
            let path = trim_leading(profile.endpoint.path.as_str(), '/');
            trim_trailing(path.as_str(), '/')
        },
    };
    match validate_service(service.as_str()) {
        Err(error) => Err(error),
        Ok(()) => Ok(service),
    }
}

/// Whether a profile names its service by a SID.
pub fn sid_mode(profile: &ConnectionProfile) -> (result: Result<bool, ConnectorError>)
    ensures
        match (result, sid_result(*profile)) {
            (Ok(sid), Ok(wanted)) => sid == wanted,
            (Err(error), Err(wanted)) => error@ == wanted,
            _ => false,
        },
{
    match find(&profile.options, "sid") {
        None => Ok(false),
        Some(Json::Bool(value)) => Ok(*value),
        Some(_) => Err(invalid("Oracle option `sid` must be a boolean")),
    }
}

/// The owner and table of an entity id. Where only a table is named, the owner is the option
/// `schema`, or else the user, in upper case.
pub open spec fn entity_result(
    entity: Seq<char>,
    profile: ConnectionProfile,
    fields: Seq<(Seq<char>, Seq<char>)>,
) -> Result<(Seq<char>, Seq<char>), ErrorModel> {
    let parts = split_on(entity, '.');
    if parts.len() == 1 && parts[0].len() > 0 {
        match secret_result(fields, "username"@) {
            Err(error) => Err(error),
            Ok(user) => match text_of(named(members(profile.options@), "schema"@)) {
                Some(schema) => Ok((upper(schema), parts[0])),
                None => Ok((upper(user), parts[0])),
            },
        }
    } else if parts.len() == 2 && parts[0].len() > 0 && parts[1].len() > 0 {
        Ok((parts[0], parts[1]))
    } else {
        Err(invalid_request("Oracle entity must use `owner.table`"@))
    }
}

/// The owner and table of an entity id.
pub fn split_entity(entity: &str, profile: &ConnectionProfile, secret: &SecretMaterial) -> (result:
    Result<(String, String), ConnectorError>)
    ensures
        is_pair_result(result, entity_result(entity@, *profile, secret.fields@)),
{
    let parts = split(entity, '.');
    assert(forall|i: int| 0 <= i < parts@.len() ==> #[trigger] texts(parts@)[i] == parts@[i]@);
    if parts.len() == 1 && !parts[0].as_str().is_empty() {
        let user = match required_secret(secret, "username") {
            Err(error) => {
                return Err(error);
            },
            Ok(user) => user,
        };
        let owner = match find(&profile.options, "schema") {
            Some(Json::Text(schema)) => to_upper(schema.as_str()),
            _ => to_upper(user),
        };
        return Ok((owner, parts[0].clone()));
    }
    if parts.len() == 2 && !parts[0].as_str().is_empty() && !parts[1].as_str().is_empty() {
        return Ok((parts[0].clone(), parts[1].clone()));
    }
    Err(invalid("Oracle entity must use `owner.table`"))
}

/// How a service is named.
#[derive(Debug)]
pub enum ServiceMethod {
    ServiceName(String),
    Sid(String),
}

/// What a [`ServiceMethod`] is.
pub enum ServiceModel {
    ServiceName(Seq<char>),
    Sid(Seq<char>),
}

impl View for ServiceMethod {
    type V = ServiceModel;

    open spec fn view(&self) -> ServiceModel {
        match *self {
            ServiceMethod::ServiceName(name) => ServiceModel::ServiceName(name@),
            ServiceMethod::Sid(name) => ServiceModel::Sid(name@),
        }
    }
}

/// A place to connect to.
#[derive(Debug)]
pub struct OracleTarget {
    pub host: String,
    pub port: u16,
    pub service: ServiceMethod,
}

/// What an [`OracleTarget`] is.
pub struct OracleTargetModel {
    pub host: Seq<char>,
    pub port: u16,
    pub service: ServiceModel,
}

impl View for OracleTarget {
    type V = OracleTargetModel;

    open spec fn view(&self) -> OracleTargetModel {
        OracleTargetModel { host: self.host@, port: self.port, service: self.service@ }
    }
}

/// What the driver reads from an EZConnect text.
pub uninterp spec fn ez_connect(text: Seq<char>) -> Option<OracleTargetModel>;

/// `oracle_rs::Config::from_str`, by its host, port and service.
#[verifier::external_body]
fn read_ez_connect(text: &str) -> (result: Option<OracleTarget>)
    ensures
        match (result, ez_connect(text@)) {
            (Some(target), Some(wanted)) => target@ == wanted,
            (None, None) => true,
            _ => false,
        },
{
    let config: oracle_rs::Config = text.parse().ok()?;
    Some(OracleTarget {
        host: config.host,
        port: config.port,
        service: match config.service {
            oracle_rs::config::ServiceMethod::ServiceName(name) => ServiceMethod::ServiceName(name),
            oracle_rs::config::ServiceMethod::Sid(name) => ServiceMethod::Sid(name),
        },
    })
}

/// The port on which a server listens where the endpoint names none.
pub open spec fn default_port(profile: ConnectionProfile) -> u16 {
    if profile.tls.enabled {
        2484
    } else {
        1521
    }
}

/// The error of an EZConnect text that leads elsewhere than the profile.
pub open spec fn target_error(
    profile: ConnectionProfile,
    target: OracleTargetModel,
) -> Option<ErrorModel> {
    match optional_text(profile.endpoint.host) {
        None => Some(invalid_request("Oracle endpoint must include a host"@)),
        Some(host) => if !same_ignoring_case(target.host, host) {
            Some(
                invalid_request(
                    "Oracle connection string host does not match the profile endpoint"@,
                ),
            )
        } else if target.port != port_or(profile.endpoint.port, default_port(profile)) {
            Some(
                invalid_request(
                    "Oracle connection string port does not match the profile endpoint"@,
                ),
            )
        } else {
            match service_result(profile) {
                Err(error) => Some(error),
                Ok(service) => match sid_result(profile) {
                    Err(error) => Some(error),
                    Ok(sid) => if target.service == (if sid {
                        ServiceModel::Sid(service)
                    } else {
                        ServiceModel::ServiceName(service)
                    }) {
                        None
                    } else {
                        Some(
                            invalid_request(
                                "Oracle connection string service/SID does not match the profile database and sid option"@,
                            ),
                        )
                    },
                },
            }
        },
    }
}

/// The port to connect to.
fn expected_port(profile: &ConnectionProfile) -> (result: u16)
    ensures
        result == port_or(profile.endpoint.port, default_port(*profile)),
{
    match profile.endpoint.port {
        Some(port) => port,
        None => if profile.tls.enabled {
            2484
        } else {
            1521
        },
    }
}

/// Refuses an EZConnect text that leads elsewhere than the profile.
pub fn validate_connection_string_target(
    profile: &ConnectionProfile,
    target: &OracleTarget,
) -> (result: Result<(), ConnectorError>)
    ensures
        crate::model::error_of(result) == target_error(*profile, target@),
{
    let host = match &profile.endpoint.host {
        None => {
            return Err(invalid("Oracle endpoint must include a host"));
        },
        Some(host) => host,
    };
    if !equal_ignoring_case(target.host.as_str(), host.as_str()) {
        return Err(
            invalid("Oracle connection string host does not match the profile endpoint"),
        );
    }
    if target.port != expected_port(profile) {
        return Err(
            invalid("Oracle connection string port does not match the profile endpoint"),
        );
    }
    let service = match service_name(profile) {
        Err(error) => {
            return Err(error);
        },
        Ok(service) => service,
    };
    let sid = match sid_mode(profile) {
        Err(error) => {
            return Err(error);
        },
        Ok(sid) => sid,
    };
    let matching = match &target.service {
        ServiceMethod::ServiceName(name) => !sid && same(name.as_str(), service.as_str()),
        ServiceMethod::Sid(name) => sid && same(name.as_str(), service.as_str()),
    };
    if !matching {
        return Err(
            invalid(
                "Oracle connection string service/SID does not match the profile database and sid option",
            ),
        );
    }
    Ok(())
}

/// How a connection is opened.
#[derive(Debug)]
pub struct OracleConfig {
    pub host: String,
    pub port: u16,
    pub service: ServiceMethod,
    pub username: String,
    pub password: String,
    pub timeout_ms: u64,
    /// Whether TLS is used, and the name that the server's certificate must have.
    pub tls: Option<Option<String>>,
}

/// What an [`OracleConfig`] is.
pub struct OracleConfigModel {
    pub target: OracleTargetModel,
    pub username: Seq<char>,
    pub password: Seq<char>,
    pub timeout_ms: u64,
    pub tls: Option<Option<Seq<char>>>,
}

impl View for OracleConfig {
    type V = OracleConfigModel;

    open spec fn view(&self) -> OracleConfigModel {
        OracleConfigModel {
            target: OracleTargetModel {
                host: self.host@,
                port: self.port,
                service: self.service@,
            },
            username: self.username@,
            password: self.password@,
            timeout_ms: self.timeout_ms,
            tls: match self.tls {
                Some(name) => Some(optional_text(name)),
                None => None,
            },
        }
    }
}

/// The place to connect to.
pub open spec fn target_result(
    profile: ConnectionProfile,
    kind: AuthKind,
    fields: Seq<(Seq<char>, Seq<char>)>,
) -> Result<OracleTargetModel, ErrorModel> {
    match kind {
        AuthKind::UsernamePassword => match optional_text(profile.endpoint.host) {
            None => Err(invalid_request("Oracle endpoint must include a host"@)),
            Some(host) => match service_result(profile) {
                Err(error) => Err(error),
                Ok(service) => match sid_result(profile) {
                    Err(error) => Err(error),
                    Ok(sid) => Ok(
                        OracleTargetModel {
                            host,
                            port: port_or(profile.endpoint.port, default_port(profile)),
                            service: if sid {
                                ServiceModel::Sid(service)
                            } else {
                                ServiceModel::ServiceName(service)
                            },
                        },
                    ),
                },
            },
        },
        AuthKind::ConnectionString => match secret_result(fields, "connection_string"@) {
            Err(error) => Err(error),
            Ok(text) => match ez_connect(text) {
                None => Err(
                    invalid_request("Oracle EZConnect connection string is invalid"@),
                ),
                Some(target) => match target_error(profile, target) {
                    Some(error) => Err(error),
                    None => Ok(target),
                },
            },
        },
        _ => Err(
            unsupported_request("Oracle supports username/password or EZConnect credentials"@),
        ),
    }
}

/// How a connection is opened.
pub open spec fn config_result(
    profile: ConnectionProfile,
    kind: AuthKind,
    fields: Seq<(Seq<char>, Seq<char>)>,
    timeout_ms: u64,
) -> Result<OracleConfigModel, ErrorModel> {
    match secret_result(fields, "username"@) {
        Err(error) => Err(error),
        Ok(username) => match secret_result(fields, "password"@) {
            Err(error) => Err(error),
            Ok(password) => match target_result(profile, kind, fields) {
                Err(error) => Err(error),
                Ok(target) => Ok(
                    OracleConfigModel {
                        target,
                        username,
                        password,
                        timeout_ms,
                        tls: if profile.tls.enabled {
                            Some(optional_text(profile.tls.server_name))
                        } else {
                            None
                        },
                    },
                ),
            },
        },
    }
}

/// The place to connect to.
fn build_target(profile: &ConnectionProfile, secret: &SecretMaterial) -> (result: Result<
    OracleTarget,
    ConnectorError,
>)
    ensures
        match (result, target_result(*profile, secret.kind, secret.fields@)) {
            (Ok(target), Ok(wanted)) => target@ == wanted,
            (Err(error), Err(wanted)) => error@ == wanted,
            _ => false,
        },
{
    match secret.kind {
        AuthKind::UsernamePassword => {
            let host = match &profile.endpoint.host {
                None => {
                    return Err(invalid("Oracle endpoint must include a host"));
                },
                Some(host) => host.clone(),
            };
            let service = match service_name(profile) {
                Err(error) => {
                    return Err(error);
                },
                Ok(service) => service,
            };
            match sid_mode(profile) {
                Err(error) => Err(error),
                Ok(sid) => Ok(
                    OracleTarget {
                        host,
                        port: expected_port(profile),
                        service: if sid {
                            ServiceMethod::Sid(service)
                        } else {
                            ServiceMethod::ServiceName(service)
                        },
                    },
                ),
            }
        },
        AuthKind::ConnectionString => {
            let text = match required_secret(secret, "connection_string") {
                Err(error) => {
                    return Err(error);
                },
                Ok(text) => text,
            };
            let target = match read_ez_connect(text) {
                None => {
                    return Err(invalid("Oracle EZConnect connection string is invalid"));
                },
                Some(target) => target,
            };
            match validate_connection_string_target(profile, &target) {
                Err(error) => Err(error),
                Ok(()) => Ok(target),
            }
        },
        _ => Err(unsupported("Oracle supports username/password or EZConnect credentials")),
    }
}

/// Decides how a connection is opened.
pub fn build_config(profile: &ConnectionProfile, secret: &SecretMaterial, timeout_ms: u64) -> (result:
    Result<OracleConfig, ConnectorError>)
    ensures
        match (result, config_result(*profile, secret.kind, secret.fields@, timeout_ms)) {
            (Ok(config), Ok(wanted)) => config@ == wanted,
            (Err(error), Err(wanted)) => error@ == wanted,
            _ => false,
        },
{
    let username = match required_secret(secret, "username") {
        Err(error) => {
            return Err(error);
        },
        Ok(username) => username.to_owned(),
    };
    let password = match required_secret(secret, "password") {
        Err(error) => {
            return Err(error);
        },
        Ok(password) => password.to_owned(),
    };
    match build_target(profile, secret) {
        Err(error) => Err(error),
        Ok(target) => Ok(
            OracleConfig {
                host: target.host,
                port: target.port,
                service: target.service,
                username,
                password,
                timeout_ms,
                tls: if profile.tls.enabled {
                    Some(clone_optional(&profile.tls.server_name))
                } else {
                    None
                },
            },
        ),
    }
}

/// The statement that searches the catalog, with its values.
pub open spec fn oracle_catalog(query: CatalogQuery, limit: u32, offset: u64) -> QueryModel {
    let start =
        "SELECT OWNER, OBJECT_NAME, OBJECT_TYPE FROM ALL_OBJECTS WHERE OBJECT_TYPE IN ('TABLE', 'VIEW')"@;
    let namespace = optional_text(query.namespace);
    let pattern = optional_text(query.pattern);
    let by_owner = match namespace {
        Some(_) => " AND OWNER = :1"@,
        None => Seq::empty(),
    };
    let owner_values = match namespace {
        Some(namespace) => seq![ValueModel::String(upper(namespace))],
        None => Seq::empty(),
    };
    let by_name = match pattern {
        Some(_) => " AND OBJECT_NAME LIKE :"@ + decimal((owner_values.len() + 1) as nat),
        None => Seq::empty(),
    };
    let all_values = match pattern {
        Some(pattern) => owner_values.push(ValueModel::String("%"@ + upper(pattern) + "%"@)),
        None => owner_values,
    };
    QueryModel {
        sql: start + by_owner + by_name + " ORDER BY OWNER, OBJECT_NAME OFFSET "@ + decimal(
            offset as nat,
        ) + " ROWS FETCH NEXT "@ + decimal(limit as nat) + " ROWS ONLY"@,
        parameters: all_values,
        row_limit: Some(limit as usize),
        base_offset: None,
    }
}

/// Builds the statement that searches the catalog.
pub fn oracle_catalog_query(query: &CatalogQuery, limit: u32, offset: u64) -> (result: BuiltQuery)
    ensures
        result@ == oracle_catalog(*query, limit, offset),
{
    let mut sql =
        "SELECT OWNER, OBJECT_NAME, OBJECT_TYPE FROM ALL_OBJECTS WHERE OBJECT_TYPE IN ('TABLE', 'VIEW')".to_owned();
    let mut parameters: Vec<DbValue> = Vec::new();
    match &query.namespace {
        Some(namespace) => {
            parameters.push(DbValue::String(to_upper(namespace.as_str())));
            sql.append(" AND OWNER = :1");
        },
        None => {
            sql.append("");
        },
    }
    proof {
        reveal_strlit("");
        assert(""@ =~= Seq::<char>::empty());
    }
    match &query.pattern {
        Some(pattern) => {
            let upper_pattern = to_upper(pattern.as_str());
            let number = decimal_text(parameters.len() as u64 + 1);
            parameters.push(DbValue::String(framed("%", upper_pattern.as_str(), "%")));
            let clause = crate::model::appended(" AND OBJECT_NAME LIKE :", number.as_str());
            sql.append(clause.as_str());
        },
        None => {
            sql.append("");
        },
    }
    let offset = decimal_text(offset);
    let count = decimal_text(limit as u64);
    sql.append(" ORDER BY OWNER, OBJECT_NAME OFFSET ");
    sql.append(offset.as_str());
    sql.append(" ROWS FETCH NEXT ");
    sql.append(count.as_str());
    sql.append(" ROWS ONLY");
    BuiltQuery { sql, parameters, row_limit: Some(limit as usize), base_offset: None }
}

/// How many rows are fetched next: at most a thousand, and none where the limit is reached or the
/// cursor is at its end.
pub open spec fn fetch_size(have: nat, more: bool, limit: nat) -> Option<nat> {
    if more && have < limit {
        Some(
            if limit - have <= 1000 {
                (limit - have) as nat
            } else {
                1000
            },
        )
    } else {
        None
    }
}

/// How many rows are fetched next.
pub fn next_fetch(have: usize, more: bool, limit: usize) -> (result: Option<u32>)
    ensures
        match (result, fetch_size(have as nat, more, limit as nat)) {
            (Some(size), Some(wanted)) => size == wanted && size > 0,
            (None, None) => true,
            _ => false,
        },
{
    if more && have < limit {
        let remaining: usize = limit - have;
        Some(
            if remaining <= 1000 {
                remaining as u32
            } else {
                1000
            },
        )
    } else {
        None
    }
}

/// What is kept of the fetched rows, and whether rows were left out.
pub fn finish_fetch(have: usize, more: bool, limit: usize) -> (result: (usize, bool))
    ensures
        result.0 == (if have <= limit {
            have
        } else {
            limit
        }),
        result.1 == (more || have > limit),
{
    (
        if have <= limit {
            have
        } else {
            limit
        },
        more || have > limit,
    )
}

/// How the driver failed.
#[derive(Debug, Clone, Copy, PartialEq, Eq, Structural)]
pub enum OracleFailureKind {
    /// The server refused the request with a code.
    Server,
    InvalidCredentials,
    /// Another failure of authentication.
    Authentication,
    ConnectionTimeout,
    InvalidConnectionString,
    /// The service or SID is not known.
    UnknownService,
    /// The driver lacks a feature.
    Unsupported,
    Other,
}

/// A failure of the driver.
#[derive(Debug)]
pub struct OracleFailure {
    pub kind: OracleFailureKind,
    /// The code of a server's refusal.
    pub code: u32,
    /// Whether the connection failed.
    pub connection: bool,
    pub message: String,
}

/// The code of a failure, where it has one.
pub open spec fn failure_code(cause: OracleFailure) -> Option<u32> {
    match cause.kind {
        OracleFailureKind::Server => Some(cause.code),
        OracleFailureKind::InvalidCredentials => Some(1017),
        _ => None,
    }
}

/// The category of a code, and whether a retry is worth it.
pub open spec fn code_category(code: u32, write: bool) -> (ErrorCategory, bool) {
    if code == 1 || code == 54 || code == 60 {
        (ErrorCategory::Conflict, code == 54 || code == 60)
    } else if code == 1010 || code == 1017 || code == 28000 {
        (ErrorCategory::Authentication, false)
    } else if code == 1031 {
        (ErrorCategory::PermissionDenied, false)
    } else if code == 942 || code == 12005 || code == 12014 {
        (ErrorCategory::NotFound, false)
    } else if code == 1013 {
        (ErrorCategory::Cancelled, false)
    } else if code == 12170 {
        if write {
            (ErrorCategory::UnknownOutcome, false)
        } else {
            (ErrorCategory::Timeout, true)
        }
    } else if code == 12541 || code == 12545 || code == 31113 || code == 31114 || code == 31135 {
        if write {
            (ErrorCategory::UnknownOutcome, false)
        } else {
            (ErrorCategory::Unavailable, true)
        }
    } else if 900 <= code <= 999 || 1400 <= code <= 1499 {
        (ErrorCategory::InvalidRequest, false)
    } else {
        (ErrorCategory::Protocol, false)
    }
}

/// The category of a failure without a code, and whether a retry is worth it.
pub open spec fn kind_category(
    kind: OracleFailureKind,
    connection: bool,
    write: bool,
) -> (ErrorCategory, bool) {
    match kind {
        OracleFailureKind::Authentication => (ErrorCategory::Authentication, false),
        OracleFailureKind::ConnectionTimeout => if write {
            (ErrorCategory::UnknownOutcome, false)
        } else {
            (ErrorCategory::Timeout, true)
        },
        OracleFailureKind::InvalidConnectionString => (ErrorCategory::InvalidRequest, false),
        OracleFailureKind::UnknownService => (ErrorCategory::NotFound, false),
        OracleFailureKind::Unsupported => (ErrorCategory::Unsupported, false),
        _ => if connection && write {
            (ErrorCategory::UnknownOutcome, false)
        } else if connection {
            (ErrorCategory::Unavailable, true)
        } else {
            (ErrorCategory::Protocol, false)
        },
    }
}

/// The text of a code.
pub open spec fn code_text(code: u32) -> Seq<char> {
    "ORA-"@ + padded(code as nat, 5)
}

/// The error of a failure of the driver.
pub open spec fn oracle_error(cause: OracleFailure, write: bool) -> ErrorModel {
    let (category, retryable) = match failure_code(cause) {
        Some(code) => code_category(code, write),
        None => kind_category(cause.kind, cause.connection, write),
    };
    ErrorModel {
        retryable,
        code: match failure_code(cause) {
            Some(code) => Some(code_text(code)),
            None => None,
        },
        ..failure(category, "Oracle request failed: "@ + cause.message@)
    }
}

/// Writes a code.
fn write_code(code: u32) -> (result: String)
    ensures
        result@ == code_text(code),
{
    let mut text = "ORA-".to_owned();
    push_padded(&mut text, code as u64, 5);
    text
}

/// The category of a code.
fn categorize_code(code: u32, write: bool) -> (result: (ErrorCategory, bool))
    ensures
        result == code_category(code, write),
{
    if code == 1 || code == 54 || code == 60 {
        (ErrorCategory::Conflict, code == 54 || code == 60)
    } else if code == 1010 || code == 1017 || code == 28000 {
        (ErrorCategory::Authentication, false)
    } else if code == 1031 {
        (ErrorCategory::PermissionDenied, false)
    } else if code == 942 || code == 12005 || code == 12014 {
        (ErrorCategory::NotFound, false)
    } else if code == 1013 {
        (ErrorCategory::Cancelled, false)
    } else if code == 12170 {
        if write {
            (ErrorCategory::UnknownOutcome, false)
        } else {
            (ErrorCategory::Timeout, true)
        }
    } else if code == 12541 || code == 12545 || code == 31113 || code == 31114 || code == 31135 {
        if write {
            (ErrorCategory::UnknownOutcome, false)
        } else {
            (ErrorCategory::Unavailable, true)
        }
    } else if (900 <= code && code <= 999) || (1400 <= code && code <= 1499) {
        (ErrorCategory::InvalidRequest, false)
    } else {
        (ErrorCategory::Protocol, false)
    }
}

/// The error of a failure of the driver.
pub fn map_oracle_error(cause: &OracleFailure, write: bool) -> (result: ConnectorError)
    ensures
        result@ == oracle_error(*cause, write),
{
    let code: Option<u32> = match cause.kind {
        OracleFailureKind::Server => Some(cause.code),
        OracleFailureKind::InvalidCredentials => Some(1017),
        _ => None,
    };
    let (category, retryable): (ErrorCategory, bool) = match code {
        Some(code) => categorize_code(code, write),
        None => match cause.kind {
            OracleFailureKind::Authentication => (ErrorCategory::Authentication, false),
            OracleFailureKind::ConnectionTimeout => if write {
                (ErrorCategory::UnknownOutcome, false)
            } else {
                (ErrorCategory::Timeout, true)
            },
            OracleFailureKind::InvalidConnectionString => (ErrorCategory::InvalidRequest, false),
            OracleFailureKind::UnknownService => (ErrorCategory::NotFound, false),
            OracleFailureKind::Unsupported => (ErrorCategory::Unsupported, false),
            _ => if cause.connection && write {
                (ErrorCategory::UnknownOutcome, false)
            } else if cause.connection {
                (ErrorCategory::Unavailable, true)
            } else {
                (ErrorCategory::Protocol, false)
            },
        },
    };
    let message = crate::model::appended("Oracle request failed: ", cause.message.as_str());
    let error = ConnectorError::new(category, message.as_str()).retryable(retryable);
    match code {
        Some(code) => {
            let text = write_code(code);
            error.with_code(text.as_str())
        },
        None => error,
    }
}

/// The error of a write whose end failed: whatever the cause, the outcome is unknown.
pub open spec fn unknown_write(cause: OracleFailure, message: Seq<char>) -> ErrorModel {
    ErrorModel {
        code: if cause.kind == OracleFailureKind::Server {
            Some(code_text(cause.code))
        } else {
            None
        },
        ..failure(ErrorCategory::UnknownOutcome, message)
    }
}

/// The error of a write whose end failed.
pub fn unknown_write_error(cause: &OracleFailure, message: &str) -> (result: ConnectorError)
    ensures
        result@ == unknown_write(*cause, message@),
{
    let error = ConnectorError::new(ErrorCategory::UnknownOutcome, message);
    if cause.kind == OracleFailureKind::Server {
        let text = write_code(cause.code);
        error.with_code(text.as_str())
    } else {
        error
    }
}

/// Whatever the credential, a connection leads to the endpoint and the service of the profile.
pub proof fn lemma_connections_stay_with_the_profile(
    profile: ConnectionProfile,
    kind: AuthKind,
    fields: Seq<(Seq<char>, Seq<char>)>,
    timeout_ms: u64,
)
    ensures
        config_result(profile, kind, fields, timeout_ms) matches Ok(config) ==> {
            &&& profile.endpoint.host matches Some(host)
            &&& same_ignoring_case(config.target.host, host@)
            &&& config.target.port == port_or(profile.endpoint.port, default_port(profile))
            &&& service_result(profile) matches Ok(service)
            &&& sid_result(profile) matches Ok(sid)
            &&& config.target.service == (if sid {
                ServiceModel::Sid(service)
            } else {
                ServiceModel::ServiceName(service)
            })
            &&& config.tls is Some <==> profile.tls.enabled
        },
{
    match profile.endpoint.host {
        Some(host) => {
            assert(same_ignoring_case(host@, host@));
        },
        None => {},
    }
}

} // verus!
