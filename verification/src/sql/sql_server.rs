//! Microsoft SQL Server.
use crate::model::{
    error_of, failing, first_error, framed, invalid, invalid_request, unsupported,
    unsupported_request, AuthKind, ConnectionProfile, ConnectorError, ConnectorManifest,
    ConnectorStatus, ErrorModel, Product, SecretMaterial,
};
use crate::sql::limits::{
    auth_error, required_secret, secret_result, tls_error, validate_auth, validate_tls,
};
use crate::sql::mysql::{is_pair_result, relational_capabilities, relational_capability_list};
use crate::sql::mysql_options::port_or;
use crate::text::{
    borrowed, clone_optional, decimal, decimal_text, equal_ignoring_case, has_char, lower,
    optional_str, optional_text, parted, same, same_ignoring_case, same_optional, split, split_on,
    split_once, texts, to_lower, trim, trimmed,
};
use vstd::prelude::*;

verus! {

broadcast use {
    crate::text::group_texts,
    crate::value::group_models,
    crate::sql::grouping::lemma_grouped_push,
};

/// The connector for SQL Server.
#[derive(Debug, Clone, Copy)]
pub struct SqlServerConnector;

/// The limitations that the connector states.
pub open spec fn limitation_list() -> Seq<Seq<char>> {
    seq![
        "SQL authentication only; integrated, Kerberos, and federated identity authentication are not enabled"@,
    ].push(
        "custom CA PEM and TLS client certificates are not supported by the Tiberius integration"@,
    ).push(
        "native SQL must be one SELECT/WITH or one INSERT/UPDATE/DELETE statement without a semicolon"@,
    ).push(
        "TDS has no driver-level request cancellation; cancellation closes the in-flight connection"@,
    )
}

/// The error of certificates in a profile, which the driver only takes from files.
pub open spec fn certificate_error(profile: ConnectionProfile) -> Option<ErrorModel> {
    if profile.tls.ca_certificate_ref is Some {
        Some(
            unsupported_request(
                "SQL Server TDS custom CA certificates are not supported: tls.ca_certificate_ref names a SecretMaterial field (with ca_certificate_pem fallback), but Tiberius only accepts a filesystem path"@,
            ),
        )
    } else if profile.tls.client_certificate_ref is Some {
        Some(
            unsupported_request(
                "SQL Server TDS client-certificate authentication is not supported"@,
            ),
        )
    } else {
        None
    }
}

/// The error of a server name that is not the host of the endpoint.
pub open spec fn server_name_error(
    profile: ConnectionProfile,
    host_message: Seq<char>,
    name_message: Seq<char>,
) -> Option<ErrorModel> {
    match optional_text(profile.tls.server_name) {
        None => None,
        Some(server_name) => match optional_text(profile.endpoint.host) {
            None => Some(invalid_request(host_message)),
            Some(host) => if same_ignoring_case(server_name, host) {
                None
            } else {
                Some(unsupported_request(name_message))
            },
        },
    }
}

/// Refuses a server name that is not the host of the endpoint.
pub fn validate_server_name(
    profile: &ConnectionProfile,
    host_message: &str,
    name_message: &str,
) -> (result: Result<(), ConnectorError>)
    ensures
        crate::model::error_of(result) == server_name_error(
            *profile,
            host_message@,
            name_message@,
        ),
{
    match &profile.tls.server_name {
        None => Ok(()),
        Some(server_name) => match &profile.endpoint.host {
            None => Err(invalid(host_message)),
            Some(host) => if equal_ignoring_case(server_name.as_str(), host.as_str()) {
                Ok(())
            } else {
                Err(unsupported(name_message))
            },
        },
    }
}

/// The error of a profile that the connector refuses.
pub open spec fn profile_error(profile: ConnectionProfile) -> Option<ErrorModel> {
    let mode = profile.api_mode@;
    if profile.product != Product::SqlServer || !(mode == "tds"@ || mode == "sqlserver"@ || mode
        == "sql_server"@) {
        Some(
            invalid_request(
                "profile product/api_mode does not match connector `sqlserver-tds`"@,
            ),
        )
    } else if tls_error(profile) is Some {
        tls_error(profile)
    } else if certificate_error(profile) is Some {
        certificate_error(profile)
    } else {
        server_name_error(
            profile,
            "SQL Server endpoint must include a host"@,
            "the TDS driver requires tls.server_name to match the endpoint host"@,
        )
    }
}

impl SqlServerConnector {
    /// The connector.
    pub fn new() -> (result: SqlServerConnector)
        ensures
            result == SqlServerConnector,
    {
        SqlServerConnector
    }

    /// What the connector says of itself.
    pub fn manifest(&self) -> (result: ConnectorManifest)
        ensures
            result.id@ == "sqlserver-tds"@,
            result.display_name@ == "Microsoft SQL Server"@,
            result.product == Product::SqlServer,
            result.api_mode@ == "tds"@,
            result.driver@ == "tiberius"@,
            result.driver_version@ == "0.12.3"@,
            result.status == ConnectorStatus::Experimental,
            result.capabilities@ == relational_capability_list(),
            result.auth_kinds@ == seq![AuthKind::UsernamePassword].push(
                AuthKind::ConnectionString,
            ),
            texts(result.limitations@) == limitation_list(),
    {
        let mut auth_kinds: Vec<AuthKind> = Vec::new();
        auth_kinds.push(AuthKind::UsernamePassword);
        auth_kinds.push(AuthKind::ConnectionString);
        let mut limitations: Vec<String> = Vec::new();
        limitations.push(
            "SQL authentication only; integrated, Kerberos, and federated identity authentication are not enabled".to_owned(),
        );
        limitations.push(
            "custom CA PEM and TLS client certificates are not supported by the Tiberius integration".to_owned(),
        );
        limitations.push(
            "native SQL must be one SELECT/WITH or one INSERT/UPDATE/DELETE statement without a semicolon".to_owned(),
        );
        limitations.push(
            "TDS has no driver-level request cancellation; cancellation closes the in-flight connection".to_owned(),
        );
        ConnectorManifest {
            id: "sqlserver-tds".to_owned(),
            display_name: "Microsoft SQL Server".to_owned(),
            product: Product::SqlServer,
            api_mode: "tds".to_owned(),
            driver: "tiberius".to_owned(),
            driver_version: "0.12.3".to_owned(),
            status: ConnectorStatus::Experimental,
            capabilities: relational_capabilities(),
            auth_kinds,
            limitations,
        }
    }

    /// Refuses profiles that are not for this connector.
    pub fn validate_profile(profile: &ConnectionProfile) -> (result: Result<(), ConnectorError>)
        ensures
            crate::model::error_of(result) == profile_error(*profile),
    {
        let mode = profile.api_mode.as_str();
        if profile.product != Product::SqlServer || !(same(mode, "tds") || same(mode, "sqlserver")
            || same(mode, "sql_server")) {
            return Err(
                invalid("profile product/api_mode does not match connector `sqlserver-tds`"),
            );
        }
        match validate_tls(profile) {
            Err(error) => {
                return Err(error);
            },
            Ok(()) => {},
        }
        match validate_tds_tls(profile) {
            Err(error) => {
                return Err(error);
            },
            Ok(()) => {},
        }
        validate_server_name(
            profile,
            "SQL Server endpoint must include a host",
            "the TDS driver requires tls.server_name to match the endpoint host",
        )
    }

    /// Refuses a profile and a credential with which no connection could be made.
    pub fn validate_connection_input(
        profile: &ConnectionProfile,
        secret: &SecretMaterial,
    ) -> (result: Result<(), ConnectorError>)
        ensures
            error_of(result) == first_error(
                profile_error(*profile),
                first_error(
                    auth_error(*profile, secret.kind),
                    failing(config_result(*profile, secret.kind, secret.fields@)),
                ),
            ),
    {
        match Self::validate_profile(profile) {
            Err(error) => {
                return Err(error);
            },
            Ok(_) => {},
        }
        match validate_auth(profile, secret) {
            Err(error) => {
                return Err(error);
            },
            Ok(_) => {},
        }
        match build_config(profile, secret) {
            Err(error) => Err(error),
            Ok(_) => Ok(()),
        }
    }
}

/// Refuses certificates in a profile.
pub fn validate_tds_tls(profile: &ConnectionProfile) -> (result: Result<(), ConnectorError>)
    ensures
        crate::model::error_of(result) == certificate_error(*profile),
{
    if profile.tls.ca_certificate_ref.is_some() {
        return Err(
            unsupported(
                "SQL Server TDS custom CA certificates are not supported: tls.ca_certificate_ref names a SecretMaterial field (with ca_certificate_pem fallback), but Tiberius only accepts a filesystem path",
            ),
        );
    }
    if profile.tls.client_certificate_ref.is_some() {
        return Err(
            unsupported("SQL Server TDS client-certificate authentication is not supported"),
        );
    }
    Ok(())
}

/// Whether a text switches something on.
pub open spec fn is_affirmative(text: Seq<char>) -> bool {
    lower(text) == "true"@ || lower(text) == "yes"@
}

/// Whether an optional text switches something on.
pub open spec fn switched_on(text: Option<Seq<char>>) -> bool {
    match text {
        Some(text) => is_affirmative(trimmed(text)),
        None => false,
    }
}

/// Whether an optional text switches something on.
fn is_switched_on(text: &Option<String>) -> (result: bool)
    ensures
        result == switched_on(optional_text(*text)),
{
    match text {
        Some(text) => {
            let lowered = to_lower(trim(text.as_str()).as_str());
            same(lowered.as_str(), "true") || same(lowered.as_str(), "yes")
        },
        None => false,
    }
}

/// The properties that an ADO.NET connection string sets.
#[derive(Debug)]
pub struct AdoProperties {
    pub server: Option<String>,
    pub data_source: Option<String>,
    pub database: Option<String>,
    pub initial_catalog: Option<String>,
    pub database_name: Option<String>,
    pub trust: Option<String>,
    pub trusted_ca: Option<String>,
    pub integrated: Option<String>,
    pub authentication: Option<String>,
}

/// What [`AdoProperties`] are.
pub struct PropertiesModel {
    pub server: Option<Seq<char>>,
    pub data_source: Option<Seq<char>>,
    pub database: Option<Seq<char>>,
    pub initial_catalog: Option<Seq<char>>,
    pub database_name: Option<Seq<char>>,
    pub trust: Option<Seq<char>>,
    pub trusted_ca: Option<Seq<char>>,
    pub integrated: Option<Seq<char>>,
    pub authentication: Option<Seq<char>>,
}

impl View for AdoProperties {
    type V = PropertiesModel;

    open spec fn view(&self) -> PropertiesModel {
        PropertiesModel {
            server: optional_text(self.server),
            data_source: optional_text(self.data_source),
            database: optional_text(self.database),
            initial_catalog: optional_text(self.initial_catalog),
            database_name: optional_text(self.database_name),
            trust: optional_text(self.trust),
            trusted_ca: optional_text(self.trusted_ca),
            integrated: optional_text(self.integrated),
            authentication: optional_text(self.authentication),
        }
    }
}

/// The address that the driver connects to for an ADO.NET connection string.
pub uninterp spec fn ado_address(connection_string: Seq<char>) -> Option<Seq<char>>;

/// The properties that an ADO.NET connection string sets.
pub uninterp spec fn ado_properties(connection_string: Seq<char>) -> Option<PropertiesModel>;

/// Whether the driver is told both to trust any certificate and to trust those of a CA, which it
/// does not survive.
pub open spec fn trusts_twice(properties: Option<PropertiesModel>) -> bool {
    match properties {
        Some(properties) => properties.trusted_ca is Some && switched_on(properties.trust),
        None => false,
    }
}

/// `tiberius::Config::from_ado_string`, by its `get_addr`. It panics where a string names a CA and
/// switches the verification of certificates off as well.
#[verifier::external_body]
fn read_ado_address(connection_string: &str) -> (result: Option<String>)
    requires
        !trusts_twice(ado_properties(connection_string@)),
    ensures
        optional_text(result) == ado_address(connection_string@),
{
    tiberius::Config::from_ado_string(connection_string).ok().map(|config| config.get_addr())
}

/// `connection_string::AdoNetString`, by the properties for the server, the database, the trust in
/// certificates and the authentication.
#[verifier::external_body]
fn read_ado_properties(connection_string: &str) -> (result: Option<AdoProperties>)
    ensures
        match (result, ado_properties(connection_string@)) {
            (Some(properties), Some(wanted)) => properties@ == wanted,
            (None, None) => true,
            _ => false,
        },
{
    let properties = connection_string.parse::<connection_string::AdoNetString>().ok()?;
    Some(AdoProperties {
        server: properties.get("server").cloned(),
        data_source: properties.get("data source").cloned(),
        database: properties.get("database").cloned(),
        initial_catalog: properties.get("initial catalog").cloned(),
        database_name: properties.get("databasename").cloned(),
        trust: properties.get("trustservercertificate").cloned(),
        trusted_ca: properties.get("trustservercertificateca").cloned(),
        integrated: properties.get("integratedsecurity").cloned(),
        authentication: properties.get("authentication").cloned(),
    })
}

/// The error of one setting of a connection string that would weaken authentication or TLS.
pub open spec fn setting_error(component: Seq<char>) -> Option<ErrorModel> {
    match parted(component, '=') {
        None => None,
        Some((key, value)) => {
            let key = trimmed(key);
            let value = trimmed(value);
            if same_ignoring_case(key, "TrustServerCertificate"@) && is_affirmative(value) {
                Some(
                    invalid_request(
                        "SQL Server connection string cannot disable certificate verification"@,
                    ),
                )
            } else if same_ignoring_case(key, "TrustServerCertificateCA"@) {
                Some(
                    unsupported_request(
                        "SQL Server custom CA paths in connection strings are not supported"@,
                    ),
                )
            } else if same_ignoring_case(key, "IntegratedSecurity"@) && is_affirmative(value) {
                Some(
                    unsupported_request(
                        "SQL Server integrated authentication is not enabled"@,
                    ),
                )
            } else if same_ignoring_case(key, "Authentication"@) {
                Some(unsupported_request("SQL Server Entra authentication is not enabled"@))
            } else {
                None
            }
        },
    }
}

/// The error of the first setting that has one.
pub open spec fn settings_error(components: Seq<Seq<char>>) -> Option<ErrorModel>
    decreases components.len(),
{
    if components.len() == 0 {
        None
    } else if setting_error(components[0]) is Some {
        setting_error(components[0])
    } else {
        settings_error(components.subrange(1, components.len() as int))
    }
}

/// Refuses one setting that would weaken authentication or TLS.
fn check_setting(component: &str) -> (result: Result<(), ConnectorError>)
    ensures
        crate::model::error_of(result) == setting_error(component@),
{
    let (key, value) = match split_once(component, '=') {
        None => {
            return Ok(());
        },
        Some(pair) => pair,
    };
    let key = trim(key.as_str());
    let value = trim(value.as_str());
    let lowered = to_lower(value.as_str());
    let affirmative = same(lowered.as_str(), "true") || same(lowered.as_str(), "yes");
    if equal_ignoring_case(key.as_str(), "TrustServerCertificate") && affirmative {
        return Err(
            invalid("SQL Server connection string cannot disable certificate verification"),
        );
    }
    if equal_ignoring_case(key.as_str(), "TrustServerCertificateCA") {
        return Err(
            unsupported("SQL Server custom CA paths in connection strings are not supported"),
        );
    }
    if equal_ignoring_case(key.as_str(), "IntegratedSecurity") && affirmative {
        return Err(unsupported("SQL Server integrated authentication is not enabled"));
    }
    if equal_ignoring_case(key.as_str(), "Authentication") {
        return Err(unsupported("SQL Server Entra authentication is not enabled"));
    }
    Ok(())
}

/// The error of properties that would weaken authentication or TLS, however they are written.
pub open spec fn properties_error(properties: PropertiesModel) -> Option<ErrorModel> {
    if switched_on(properties.trust) {
        Some(
            invalid_request(
                "SQL Server connection string cannot disable certificate verification"@,
            ),
        )
    } else if properties.trusted_ca is Some {
        Some(
            unsupported_request(
                "SQL Server custom CA paths in connection strings are not supported"@,
            ),
        )
    } else if switched_on(properties.integrated) {
        Some(unsupported_request("SQL Server integrated authentication is not enabled"@))
    } else if properties.authentication is Some {
        Some(unsupported_request("SQL Server Entra authentication is not enabled"@))
    } else {
        None
    }
}

/// Refuses properties that would weaken authentication or TLS.
fn check_properties(properties: &AdoProperties) -> (result: Result<(), ConnectorError>)
    ensures
        error_of(result) == properties_error(properties@),
{
    if is_switched_on(&properties.trust) {
        return Err(
            invalid("SQL Server connection string cannot disable certificate verification"),
        );
    }
    if properties.trusted_ca.is_some() {
        return Err(
            unsupported("SQL Server custom CA paths in connection strings are not supported"),
        );
    }
    if is_switched_on(&properties.integrated) {
        return Err(unsupported("SQL Server integrated authentication is not enabled"));
    }
    if properties.authentication.is_some() {
        return Err(unsupported("SQL Server Entra authentication is not enabled"));
    }
    Ok(())
}

/// The error of a connection string that would weaken authentication or TLS: by its settings as
/// they stand in it, and by the properties that the driver reads from it.
pub open spec fn ado_auth_error(connection_string: Seq<char>) -> Option<ErrorModel> {
    first_error(
        settings_error(split_on(connection_string, ';')),
        match ado_properties(connection_string) {
            Some(properties) => properties_error(properties),
            None => None,
        },
    )
}

/// Refuses connection strings that would weaken authentication or TLS.
pub fn validate_ado_auth(connection_string: &str) -> (result: Result<(), ConnectorError>)
    ensures
        error_of(result) == ado_auth_error(connection_string@),
{
    let components = split(connection_string, ';');
    let ghost all = texts(components@);
    let mut i: usize = 0;
    assert(all.subrange(0, all.len() as int) =~= all);
    while i < components.len()
        invariant
            i <= components@.len(),
            all == texts(components@),
            all == split_on(connection_string@, ';'),
            settings_error(all) == settings_error(all.subrange(i as int, all.len() as int)),
        decreases components@.len() - i,
    {
        let ghost rest = all.subrange(i as int, all.len() as int);
        assert(rest[0] == components@[i as int]@);
        assert(rest.subrange(1, rest.len() as int) =~= all.subrange(i + 1, all.len() as int));
        match check_setting(components[i].as_str()) {
            Err(error) => {
                return Err(error);
            },
            Ok(()) => {},
        }
        i = i + 1;
    }
    assert(settings_error(all) is None);
    match read_ado_properties(connection_string) {
        Some(properties) => check_properties(&properties),
        None => Ok(()),
    }
}

/// The first of some optional texts that is there.
pub open spec fn first_text(
    first: Option<Seq<char>>,
    second: Option<Seq<char>>,
) -> Option<Seq<char>> {
    match first {
        Some(text) => Some(text),
        None => second,
    }
}

/// The first of two optional texts that is there.
fn either<'a>(first: Option<&'a str>, second: Option<&'a str>) -> (result: Option<&'a str>)
    ensures
        optional_str(result) == first_text(optional_str(first), optional_str(second)),
{
    match first {
        Some(text) => Some(text),
        None => second,
    }
}

/// The error of a connection string that leads elsewhere than the profile.
pub open spec fn ado_target_error(
    profile: ConnectionProfile,
    address: Seq<char>,
    properties: Option<PropertiesModel>,
) -> Option<ErrorModel> {
    match optional_text(profile.endpoint.host) {
        None => Some(invalid_request("SQL Server endpoint must include a host"@)),
        Some(host) => if !same_ignoring_case(
            address,
            host + ":"@ + decimal(port_or(profile.endpoint.port, 1433) as nat),
        ) {
            Some(
                invalid_request(
                    "SQL Server connection string host or port does not match the profile endpoint"@,
                ),
            )
        } else {
            match properties {
                None => Some(
                    invalid_request("SQL Server ADO.NET connection string is invalid"@),
                ),
                Some(properties) => {
                    let server = first_text(properties.server, properties.data_source);
                    let database = first_text(
                        first_text(properties.database, properties.initial_catalog),
                        properties.database_name,
                    );
                    if server is Some && server->0.contains('\\') {
                        Some(
                            invalid_request(
                                "SQL Server named instances are not supported because the resolved port is not represented by the profile endpoint"@,
                            ),
                        )
                    } else if database != optional_text(profile.database) {
                        Some(
                            invalid_request(
                                "SQL Server connection string database does not match profile.database"@,
                            ),
                        )
                    } else {
                        None
                    }
                },
            }
        },
    }
}

/// Refuses a connection string that leads elsewhere than the profile.
pub fn validate_connection_string_target(
    profile: &ConnectionProfile,
    address: &str,
    properties: &Option<AdoProperties>,
) -> (result: Result<(), ConnectorError>)
    ensures
        crate::model::error_of(result) == ado_target_error(
            *profile,
            address@,
            match *properties {
                Some(properties) => Some(properties@),
                None => None,
            },
        ),
{
    let host = match &profile.endpoint.host {
        None => {
            return Err(invalid("SQL Server endpoint must include a host"));
        },
        Some(host) => host,
    };
    let port: u16 = match profile.endpoint.port {
        Some(port) => port,
        None => 1433,
    };
    let number = decimal_text(port as u64);
    let expected = framed(host.as_str(), ":", number.as_str());
    if !equal_ignoring_case(address, expected.as_str()) {
        return Err(
            invalid(
                "SQL Server connection string host or port does not match the profile endpoint",
            ),
        );
    }
    let properties = match properties {
        None => {
            return Err(invalid("SQL Server ADO.NET connection string is invalid"));
        },
        Some(properties) => properties,
    };
    match either(borrowed(&properties.server), borrowed(&properties.data_source)) {
        Some(server) => {
            if has_char(server, '\\') {
                return Err(
                    invalid(
                        "SQL Server named instances are not supported because the resolved port is not represented by the profile endpoint",
                    ),
                );
            }
        },
        None => {},
    }
    let database = either(
        either(borrowed(&properties.database), borrowed(&properties.initial_catalog)),
        borrowed(&properties.database_name),
    );
    if !same_optional(database, borrowed(&profile.database)) {
        return Err(
            invalid("SQL Server connection string database does not match profile.database"),
        );
    }
    Ok(())
}

/// Where a connection goes and who opens it.
#[derive(Debug)]
pub enum TdsTarget {
    /// As a connection string says.
    ConnectionString(String),
    /// To the endpoint of the profile.
    Endpoint { host: String, port: u16, user: String, password: String, database: Option<String> },
}

/// What a [`TdsTarget`] is.
pub enum TdsTargetModel {
    ConnectionString(Seq<char>),
    Endpoint {
        host: Seq<char>,
        port: u16,
        user: Seq<char>,
        password: Seq<char>,
        database: Option<Seq<char>>,
    },
}

impl View for TdsTarget {
    type V = TdsTargetModel;

    open spec fn view(&self) -> TdsTargetModel {
        match *self {
            TdsTarget::ConnectionString(text) => TdsTargetModel::ConnectionString(text@),
            TdsTarget::Endpoint { host, port, user, password, database } =>
                TdsTargetModel::Endpoint {
                host: host@,
                port,
                user: user@,
                password: password@,
                database: optional_text(database),
            },
        }
    }
}

/// How a connection is opened.
#[derive(Debug)]
pub struct TdsConfig {
    pub target: TdsTarget,
    /// Whether the transport must be encrypted; otherwise it must not.
    pub encrypted: bool,
}

/// The target of a connection.
pub open spec fn tds_target_result(
    profile: ConnectionProfile,
    kind: AuthKind,
    fields: Seq<(Seq<char>, Seq<char>)>,
) -> Result<TdsTargetModel, ErrorModel> {
    match kind {
        AuthKind::ConnectionString => match secret_result(fields, "connection_string"@) {
            Err(error) => Err(error),
            Ok(text) => match ado_auth_error(text) {
                Some(error) => Err(error),
                None => match ado_address(text) {
                    None => Err(
                        invalid_request("SQL Server ADO.NET connection string is invalid"@),
                    ),
                    Some(address) => match ado_target_error(
                        profile,
                        address,
                        ado_properties(text),
                    ) {
                        Some(error) => Err(error),
                        None => Ok(TdsTargetModel::ConnectionString(text)),
                    },
                },
            },
        },
        AuthKind::UsernamePassword => match optional_text(profile.endpoint.host) {
            None => Err(invalid_request("SQL Server endpoint must include a host"@)),
            Some(host) => match secret_result(fields, "username"@) {
                Err(error) => Err(error),
                Ok(user) => match secret_result(fields, "password"@) {
                    Err(error) => Err(error),
                    Ok(password) => Ok(
                        TdsTargetModel::Endpoint {
                            host,
                            port: port_or(profile.endpoint.port, 1433),
                            user,
                            password,
                            database: optional_text(profile.database),
                        },
                    ),
                },
            },
        },
        _ => Err(
            unsupported_request(
                "SQL Server supports SQL username/password or an ADO.NET connection string"@,
            ),
        ),
    }
}

/// How a connection is opened.
pub open spec fn config_result(
    profile: ConnectionProfile,
    kind: AuthKind,
    fields: Seq<(Seq<char>, Seq<char>)>,
) -> Result<(TdsTargetModel, bool), ErrorModel> {
    match certificate_error(profile) {
        Some(error) => Err(error),
        None => match tds_target_result(profile, kind, fields) {
            Err(error) => Err(error),
            Ok(target) => Ok((target, profile.tls.enabled)),
        },
    }
}

/// The target of a connection.
fn build_target(profile: &ConnectionProfile, secret: &SecretMaterial) -> (result: Result<
    TdsTarget,
    ConnectorError,
>)
    ensures
        match (result, tds_target_result(*profile, secret.kind, secret.fields@)) {
            (Ok(target), Ok(wanted)) => target@ == wanted,
            (Err(error), Err(wanted)) => error@ == wanted,
            _ => false,
        },
{
    match secret.kind {
        AuthKind::ConnectionString => {
            let text = match required_secret(secret, "connection_string") {
                Err(error) => {
                    return Err(error);
                },
                Ok(text) => text,
            };
            match validate_ado_auth(text) {
                Err(error) => {
                    return Err(error);
                },
                Ok(()) => {},
            }
            let address = match read_ado_address(text) {
                None => {
                    return Err(invalid("SQL Server ADO.NET connection string is invalid"));
                },
                Some(address) => address,
            };
            let properties = read_ado_properties(text);
            match validate_connection_string_target(profile, address.as_str(), &properties) {
                Err(error) => Err(error),
                Ok(()) => Ok(TdsTarget::ConnectionString(text.to_owned())),
            }
        },
        AuthKind::UsernamePassword => {
            let host = match &profile.endpoint.host {
                None => {
                    return Err(invalid("SQL Server endpoint must include a host"));
                },
                Some(host) => host.clone(),
            };
            let port: u16 = match profile.endpoint.port {
                Some(port) => port,
                None => 1433,
            };
            let user = match required_secret(secret, "username") {
                Err(error) => {
                    return Err(error);
                },
                Ok(user) => user.to_owned(),
            };
            let password = match required_secret(secret, "password") {
                Err(error) => {
                    return Err(error);
                },
                Ok(password) => password.to_owned(),
            };
            Ok(
                TdsTarget::Endpoint {
                    host,
                    port,
                    user,
                    password,
                    database: clone_optional(&profile.database),
                },
            )
        },
        _ => Err(
            unsupported(
                "SQL Server supports SQL username/password or an ADO.NET connection string",
            ),
        ),
    }
}

/// Decides how a connection is opened.
pub fn build_config(profile: &ConnectionProfile, secret: &SecretMaterial) -> (result: Result<
    TdsConfig,
    ConnectorError,
>)
    ensures
        match (result, config_result(*profile, secret.kind, secret.fields@)) {
            (Ok(config), Ok(wanted)) => (config.target@, config.encrypted) == wanted,
            (Err(error), Err(wanted)) => error@ == wanted,
            _ => false,
        },
{
    match validate_tds_tls(profile) {
        Err(error) => {
            return Err(error);
        },
        Ok(()) => {},
    }
    match build_target(profile, secret) {
        Err(error) => Err(error),
        Ok(target) => Ok(TdsConfig { target, encrypted: profile.tls.enabled }),
    }
}

/// The schema and table of an entity id; the default schema where only a table is named.
pub open spec fn entity_result(
    entity: Seq<char>,
    default_schema: Seq<char>,
    message: Seq<char>,
) -> Result<(Seq<char>, Seq<char>), ErrorModel> {
    let parts = split_on(entity, '.');
    if parts.len() == 1 && parts[0].len() > 0 {
        Ok((default_schema, parts[0]))
    } else if parts.len() == 2 && parts[0].len() > 0 && parts[1].len() > 0 {
        Ok((parts[0], parts[1]))
    } else {
        Err(invalid_request(message))
    }
}

/// The schema and table of an entity id.
pub fn split_schema_entity(entity: &str, default_schema: &str, message: &str) -> (result: Result<
    (String, String),
    ConnectorError,
>)
    ensures
        is_pair_result(result, entity_result(entity@, default_schema@, message@)),
{
    let parts = split(entity, '.');
    assert(forall|i: int| 0 <= i < parts@.len() ==> #[trigger] texts(parts@)[i] == parts@[i]@);
    if parts.len() == 1 && !parts[0].as_str().is_empty() {
        return Ok((default_schema.to_owned(), parts[0].clone()));
    }
    if parts.len() == 2 && !parts[0].as_str().is_empty() && !parts[1].as_str().is_empty() {
        return Ok((parts[0].clone(), parts[1].clone()));
    }
    Err(invalid(message))
}

/// The schema and table of an entity id, `dbo` where only a table is named.
pub fn split_tds_entity(entity: &str) -> (result: Result<(String, String), ConnectorError>)
    ensures
        is_pair_result(
            result,
            entity_result(entity@, "dbo"@, "SQL Server entity must use `schema.table`"@),
        ),
{
    split_schema_entity(entity, "dbo", "SQL Server entity must use `schema.table`")
}

/// No setting of accepted settings has an error.
proof fn lemma_accepted_settings(components: Seq<Seq<char>>)
    requires
        settings_error(components) is None,
    ensures
        forall|i: int|
            0 <= i < components.len() ==> setting_error(#[trigger] components[i]) is None,
    decreases components.len(),
{
    if components.len() > 0 {
        let rest = components.subrange(1, components.len() as int);
        lemma_accepted_settings(rest);
        assert forall|i: int| 0 <= i < components.len() implies setting_error(
            #[trigger] components[i],
        ) is None by {
            if i > 0 {
                assert(rest[i - 1] == components[i]);
            }
        }
    }
}

/// A connection string weakens neither authentication nor TLS, and never leads elsewhere than the
/// endpoint and the database of the profile.
pub proof fn lemma_connection_strings_stay_with_the_profile(
    profile: ConnectionProfile,
    fields: Seq<(Seq<char>, Seq<char>)>,
)
    ensures
        config_result(profile, AuthKind::ConnectionString, fields) matches Ok(config) ==> {
            &&& config.1 == profile.tls.enabled
            &&& config.0 matches TdsTargetModel::ConnectionString(text)
            &&& forall|i: int|
                0 <= i < split_on(text, ';').len() ==> setting_error(
                    #[trigger] split_on(text, ';')[i],
                ) is None
            &&& profile.endpoint.host matches Some(host)
            &&& ado_address(text) matches Some(address)
            &&& same_ignoring_case(
                address,
                host@ + ":"@ + decimal(port_or(profile.endpoint.port, 1433) as nat),
            )
            &&& ado_properties(text) matches Some(properties)
            &&& !switched_on(properties.trust)
            &&& properties.trusted_ca is None
            &&& !switched_on(properties.integrated)
            &&& properties.authentication is None
            &&& first_text(
                first_text(properties.database, properties.initial_catalog),
                properties.database_name,
            ) == optional_text(profile.database)
        },
{
    match config_result(profile, AuthKind::ConnectionString, fields) {
        Ok((TdsTargetModel::ConnectionString(text), _)) => {
            lemma_accepted_settings(split_on(text, ';'));
        },
        _ => {},
    }
}

} // verus!
