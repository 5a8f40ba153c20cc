//! How a connection to MySQL is opened.
use crate::model::{
    failure, framed, invalid, invalid_request, unsupported, unsupported_request, AuthKind,
    ConnectionProfile, ConnectorError, ErrorCategory, ErrorModel, SecretMaterial,
};
use crate::secret::{tls_secret_value, tls_value};
use crate::sql::limits::{required_secret, secret_result};
use crate::text::{
    borrowed, clone_optional, equal_ignoring_case, names_of, optional_text, same_ignoring_case,
    same_optional,
};
use vstd::prelude::*;

verus! {

/// How the transport of a connection is protected.
#[derive(Debug)]
pub struct TlsPlan {
    pub ca_certificate: Option<String>,
    pub server_name: Option<String>,
    /// The client's certificate and its private key.
    pub client_identity: Option<(String, String)>,
}

/// What a [`TlsPlan`] is.
pub struct TlsModel {
    pub ca_certificate: Option<Seq<char>>,
    pub server_name: Option<Seq<char>>,
    pub client_identity: Option<(Seq<char>, Seq<char>)>,
}

impl View for TlsPlan {
    type V = TlsModel;

    open spec fn view(&self) -> TlsModel {
        TlsModel {
            ca_certificate: optional_text(self.ca_certificate),
            server_name: optional_text(self.server_name),
            client_identity: match self.client_identity {
                Some(pair) => Some((pair.0@, pair.1@)),
                None => None,
            },
        }
    }
}

/// Where a connection goes and who opens it.
#[derive(Debug)]
pub enum MySqlTarget {
    /// As a connection URL says.
    Url(String),
    /// To the endpoint of the profile.
    Endpoint {
        host: String,
        port: u16,
        user: String,
        password: Option<String>,
        database: Option<String>,
    },
}

/// What a [`MySqlTarget`] is.
pub enum TargetModel {
    Url(Seq<char>),
    Endpoint {
        host: Seq<char>,
        port: u16,
        user: Seq<char>,
        password: Option<Seq<char>>,
        database: Option<Seq<char>>,
    },
}

impl View for MySqlTarget {
    type V = TargetModel;

    open spec fn view(&self) -> TargetModel {
        match *self {
            MySqlTarget::Url(url) => TargetModel::Url(url@),
            MySqlTarget::Endpoint { host, port, user, password, database } => TargetModel::Endpoint {
                host: host@,
                port,
                user: user@,
                password: optional_text(password),
                database: optional_text(database),
            },
        }
    }
}

/// How a connection is opened.
#[derive(Debug)]
pub struct MySqlOptions {
    pub target: MySqlTarget,
    pub tls: Option<TlsPlan>,
}

/// What a [`MySqlOptions`] is.
pub struct OptionsModel {
    pub target: TargetModel,
    pub tls: Option<TlsModel>,
}

impl View for MySqlOptions {
    type V = OptionsModel;

    open spec fn view(&self) -> OptionsModel {
        OptionsModel {
            target: self.target@,
            tls: match self.tls {
                Some(tls) => Some(tls@),
                None => None,
            },
        }
    }
}

/// What a connection URL says.
#[derive(Debug)]
pub struct UrlTarget {
    pub host: String,
    pub port: u16,
    pub database: Option<String>,
    pub socket: bool,
    pub init: bool,
    pub setup: bool,
}

/// What a [`UrlTarget`] is.
pub struct UrlTargetModel {
    pub host: Seq<char>,
    pub port: u16,
    pub database: Option<Seq<char>>,
    pub socket: bool,
    pub init: bool,
    pub setup: bool,
}

impl View for UrlTarget {
    type V = UrlTargetModel;

    open spec fn view(&self) -> UrlTargetModel {
        UrlTargetModel {
            host: self.host@,
            port: self.port,
            database: optional_text(self.database),
            socket: self.socket,
            init: self.init,
            setup: self.setup,
        }
    }
}

/// What the driver reads from a connection URL. Some of its parameters are numbers of the size of a
/// machine word, so that one above 32 bits is read on 64-bit targets only.
pub uninterp spec fn mysql_url(url: Seq<char>) -> Option<UrlTargetModel>;

/// `mysql_async::Opts::from_url`, by the host, port and database that it reads, and whether it
/// reads a socket, initial statements and set-up statements.
#[verifier::external_body]
fn read_mysql_url(url: &str) -> (result: Option<UrlTarget>)
    ensures
        match (result, mysql_url(url@)) {
            (Some(target), Some(wanted)) => target@ == wanted,
            (None, None) => true,
            _ => false,
        },
{
    let opts = mysql_async::Opts::from_url(url).ok()?;
    Some(UrlTarget {
        host: opts.ip_or_hostname().to_owned(),
        port: opts.tcp_port(),
        database: opts.db_name().map(str::to_owned),
        socket: opts.socket().is_some(),
        init: !opts.init().is_empty(),
        setup: !opts.setup().is_empty(),
    })
}

/// The error of a missing credential field for TLS.
pub open spec fn missing_tls_error(product: Seq<char>, name: Seq<char>) -> ErrorModel {
    failure(
        ErrorCategory::Authentication,
        product + " TLS credential field "@ + name + " is required"@,
    )
}

/// The error of a missing credential field for TLS.
pub fn missing_tls_secret(product: &str, name: &str) -> (result: ConnectorError)
    ensures
        result@ == missing_tls_error(product@, name@),
{
    let mut message = framed(product, " TLS credential field ", name);
    vstd::string::StringExecFns::append(&mut message, " is required");
    ConnectorError::new(ErrorCategory::Authentication, message.as_str())
}

/// The port of an endpoint, or the product's own.
pub open spec fn port_or(port: Option<u16>, default_port: u16) -> u16 {
    match port {
        Some(port) => port,
        None => default_port,
    }
}

/// The error of a connection URL that leads elsewhere than the profile, or that could bypass it.
pub open spec fn url_target_error(
    profile: ConnectionProfile,
    target: UrlTargetModel,
) -> Option<ErrorModel> {
    match optional_text(profile.endpoint.host) {
        None => Some(invalid_request("MySQL endpoint must include a host"@)),
        Some(host) => if !same_ignoring_case(target.host, host) {
            Some(
                invalid_request(
                    "MySQL connection string host does not match the profile endpoint"@,
                ),
            )
        } else if target.port != port_or(profile.endpoint.port, 3306) {
            Some(
                invalid_request(
                    "MySQL connection string port does not match the profile endpoint"@,
                ),
            )
        } else if target.database != optional_text(profile.database) {
            Some(
                invalid_request(
                    "MySQL connection string database does not match profile.database"@,
                ),
            )
        } else if target.socket {
            Some(
                invalid_request(
                    "MySQL connection string socket is not allowed because it can bypass the profile endpoint"@,
                ),
            )
        } else if target.init || target.setup {
            Some(
                invalid_request(
                    "MySQL connection string init/setup statements are not allowed"@,
                ),
            )
        } else {
            None
        },
    }
}

/// Refuses a connection URL that leads elsewhere than the profile.
pub fn validate_connection_string_target(
    profile: &ConnectionProfile,
    target: &UrlTarget,
) -> (result: Result<(), ConnectorError>)
    ensures
        crate::model::error_of(result) == url_target_error(*profile, target@),
{
    let host = match &profile.endpoint.host {
        None => {
            return Err(invalid("MySQL endpoint must include a host"));
        },
        Some(host) => host,
    };
    if !equal_ignoring_case(target.host.as_str(), host.as_str()) {
        return Err(
            invalid("MySQL connection string host does not match the profile endpoint"),
        );
    }
    let port: u16 = match profile.endpoint.port {
        Some(port) => port,
        None => 3306,
    };
    if target.port != port {
        return Err(
            invalid("MySQL connection string port does not match the profile endpoint"),
        );
    }
    if !same_optional(borrowed(&target.database), borrowed(&profile.database)) {
        return Err(
            invalid("MySQL connection string database does not match profile.database"),
        );
    }
    if target.socket {
        return Err(
            invalid(
                "MySQL connection string socket is not allowed because it can bypass the profile endpoint",
            ),
        );
    }
    if target.init || target.setup {
        return Err(invalid("MySQL connection string init/setup statements are not allowed"));
    }
    Ok(())
}

/// The target of a connection.
pub open spec fn target_result(
    profile: ConnectionProfile,
    kind: AuthKind,
    fields: Seq<(Seq<char>, Seq<char>)>,
) -> Result<TargetModel, ErrorModel> {
    match kind {
        AuthKind::ConnectionString => match secret_result(fields, "connection_string"@) {
            Err(error) => Err(error),
            Ok(url) => match mysql_url(url) {
                None => Err(invalid_request("MySQL connection string is invalid"@)),
                Some(target) => match url_target_error(profile, target) {
                    Some(error) => Err(error),
                    None => Ok(TargetModel::Url(url)),
                },
            },
        },
        AuthKind::UsernamePassword | AuthKind::ClientCertificate => match optional_text(
            profile.endpoint.host,
        ) {
            None => Err(invalid_request("MySQL endpoint must include a host"@)),
            Some(host) => match secret_result(fields, "username"@) {
                Err(error) => Err(error),
                Ok(user) => if kind == AuthKind::UsernamePassword && secret_result(
                    fields,
                    "password"@,
                ) is Err {
                    Err(secret_result(fields, "password"@)->Err_0)
                } else {
                    Ok(
                        TargetModel::Endpoint {
                            host,
                            port: port_or(profile.endpoint.port, 3306),
                            user,
                            password: if kind == AuthKind::UsernamePassword {
                                Some(secret_result(fields, "password"@)->Ok_0)
                            } else {
                                None
                            },
                            database: optional_text(profile.database),
                        },
                    )
                },
            },
        },
        _ => Err(
            unsupported_request(
                "MySQL supports username/password, connection string, or client-certificate authentication"@,
            ),
        ),
    }
}

/// The names of the fields that may hold a client's private key.
pub open spec fn private_key_names() -> Seq<Seq<char>> {
    seq!["client_private_key_pem"@].push("private_key_pem"@)
}

/// The protection of the transport. Credential fields are read only where the profile refers to
/// them; a reference names a field, never a file.
pub open spec fn tls_result(
    product: Seq<char>,
    profile: ConnectionProfile,
    fields: Seq<(Seq<char>, Seq<char>)>,
) -> Result<TlsModel, ErrorModel> {
    let ca = optional_text(profile.tls.ca_certificate_ref);
    let client = optional_text(profile.tls.client_certificate_ref);
    let ca_value = tls_value(fields, ca, seq!["ca_certificate_pem"@]);
    let certificate = tls_value(fields, client, seq!["client_certificate_pem"@]);
    let key = tls_value(fields, None, private_key_names());
    if ca is Some && ca_value is None {
        Err(
            missing_tls_error(
                product,
                "the field referenced by tls.ca_certificate_ref or ca_certificate_pem"@,
            ),
        )
    } else if client is Some && certificate is None {
        Err(
            missing_tls_error(
                product,
                "the field referenced by tls.client_certificate_ref or client_certificate_pem"@,
            ),
        )
    } else if client is Some && key is None {
        Err(missing_tls_error(product, "client_private_key_pem or private_key_pem"@))
    } else {
        Ok(
            TlsModel {
                ca_certificate: if ca is Some {
                    ca_value
                } else {
                    None
                },
                server_name: optional_text(profile.tls.server_name),
                client_identity: if client is Some {
                    Some((certificate->0, key->0))
                } else {
                    None
                },
            },
        )
    }
}

/// How a connection is opened.
pub open spec fn options_result(
    profile: ConnectionProfile,
    kind: AuthKind,
    fields: Seq<(Seq<char>, Seq<char>)>,
) -> Result<OptionsModel, ErrorModel> {
    match target_result(profile, kind, fields) {
        Err(error) => Err(error),
        Ok(target) => if !profile.tls.enabled {
            Ok(OptionsModel { target, tls: None })
        } else {
            match tls_result("MySQL"@, profile, fields) {
                Err(error) => Err(error),
                Ok(tls) => Ok(OptionsModel { target, tls: Some(tls) }),
            }
        },
    }
}

/// The target of a connection.
fn build_target(profile: &ConnectionProfile, secret: &SecretMaterial) -> (result: Result<
    MySqlTarget,
    ConnectorError,
>)
    ensures
        match (result, target_result(*profile, secret.kind, secret.fields@)) {
            (Ok(target), Ok(wanted)) => target@ == wanted,
            (Err(error), Err(wanted)) => error@ == wanted,
            _ => false,
        },
{
    match secret.kind {
        AuthKind::ConnectionString => {
            let url = match required_secret(secret, "connection_string") {
                Err(error) => {
                    return Err(error);
                },
                Ok(url) => url,
            };
            let target = match read_mysql_url(url) {
                None => {
                    return Err(invalid("MySQL connection string is invalid"));
                },
                Some(target) => target,
            };
            match validate_connection_string_target(profile, &target) {
                Err(error) => Err(error),
                Ok(()) => Ok(MySqlTarget::Url(url.to_owned())),
            }
        },
        AuthKind::UsernamePassword | AuthKind::ClientCertificate => {
            let host = match &profile.endpoint.host {
                None => {
                    return Err(invalid("MySQL endpoint must include a host"));
                },
                Some(host) => host.clone(),
            };
            let port: u16 = match profile.endpoint.port {
                Some(port) => port,
                None => 3306,
            };
            let user = match required_secret(secret, "username") {
                Err(error) => {
                    return Err(error);
                },
                Ok(user) => user.to_owned(),
            };
            let password = if secret.kind == AuthKind::UsernamePassword {
                match required_secret(secret, "password") {
                    Err(error) => {
                        return Err(error);
                    },
                    Ok(password) => Some(password.to_owned()),
                }
            } else {
                None
            };
            Ok(
                MySqlTarget::Endpoint {
                    host,
                    port,
                    user,
                    password,
                    database: clone_optional(&profile.database),
                },
            )
        },
        _ => Err(
            unsupported(
                "MySQL supports username/password, connection string, or client-certificate authentication",
            ),
        ),
    }
}

/// The protection of the transport.
pub fn build_tls_plan(
    product: &str,
    profile: &ConnectionProfile,
    secret: &SecretMaterial,
) -> (result: Result<TlsPlan, ConnectorError>)
    ensures
        match (result, tls_result(product@, *profile, secret.fields@)) {
            (Ok(tls), Ok(wanted)) => tls@ == wanted,
            (Err(error), Err(wanted)) => error@ == wanted,
            _ => false,
        },
{
    let ca_names: [&str; 1] = ["ca_certificate_pem"];
    let client_names: [&str; 1] = ["client_certificate_pem"];
    let key_names: [&str; 2] = ["client_private_key_pem", "private_key_pem"];
    proof {
        assert(names_of(ca_names@) =~= seq!["ca_certificate_pem"@]);
        assert(names_of(client_names@) =~= seq!["client_certificate_pem"@]);
        assert(names_of(key_names@) =~= private_key_names());
    }
    let ca_certificate = match &profile.tls.ca_certificate_ref {
        None => None,
        Some(reference) => match tls_secret_value(secret, Some(reference.as_str()), &ca_names) {
            None => {
                return Err(
                    missing_tls_secret(
                        product,
                        "the field referenced by tls.ca_certificate_ref or ca_certificate_pem",
                    ),
                );
            },
            Some(certificate) => Some(certificate.to_owned()),
        },
    };
    let client_identity = match &profile.tls.client_certificate_ref {
        None => None,
        Some(reference) => {
            let certificate = match tls_secret_value(
                secret,
                Some(reference.as_str()),
                &client_names,
            ) {
                None => {
                    return Err(
                        missing_tls_secret(
                            product,
                            "the field referenced by tls.client_certificate_ref or client_certificate_pem",
                        ),
                    );
                },
                Some(certificate) => certificate,
            };
            let key = match tls_secret_value(secret, None, &key_names) {
                None => {
                    return Err(
                        missing_tls_secret(
                            product,
                            "client_private_key_pem or private_key_pem",
                        ),
                    );
                },
                Some(key) => key,
            };
            Some((certificate.to_owned(), key.to_owned()))
        },
    };
    Ok(
        TlsPlan {
            ca_certificate,
            server_name: clone_optional(&profile.tls.server_name),
            client_identity,
        },
    )
}

/// Decides how a connection is opened.
pub fn build_options(profile: &ConnectionProfile, secret: &SecretMaterial) -> (result: Result<
    MySqlOptions,
    ConnectorError,
>)
    ensures
        match (result, options_result(*profile, secret.kind, secret.fields@)) {
            (Ok(options), Ok(wanted)) => options@ == wanted,
            (Err(error), Err(wanted)) => error@ == wanted,
            _ => false,
        },
{
    let target = match build_target(profile, secret) {
        Err(error) => {
            return Err(error);
        },
        Ok(target) => target,
    };
    if !profile.tls.enabled {
        return Ok(MySqlOptions { target, tls: None });
    }
    match build_tls_plan("MySQL", profile, secret) {
        Err(error) => Err(error),
        Ok(tls) => Ok(MySqlOptions { target, tls: Some(tls) }),
    }
}

/// A connection URL never leads elsewhere than the endpoint and the database of the profile.
pub proof fn lemma_urls_stay_with_the_profile(
    profile: ConnectionProfile,
    fields: Seq<(Seq<char>, Seq<char>)>,
)
    ensures
        target_result(profile, AuthKind::ConnectionString, fields) matches Ok(
            TargetModel::Url(url),
        ) ==> mysql_url(url) matches Some(target) && profile.endpoint.host is Some
            && same_ignoring_case(target.host, profile.endpoint.host->0@) && target.port
            == port_or(profile.endpoint.port, 3306) && target.database == optional_text(
            profile.database,
        ) && !target.socket && !target.init && !target.setup,
{
}

/// Credential fields for certificates have no effect where the profile refers to none.
pub proof fn lemma_unreferenced_fields_have_no_effect(
    product: Seq<char>,
    profile: ConnectionProfile,
    fields: Seq<(Seq<char>, Seq<char>)>,
)
    requires
        profile.tls.ca_certificate_ref is None,
        profile.tls.client_certificate_ref is None,
    ensures
        tls_result(product, profile, fields) == Ok::<TlsModel, ErrorModel>(
            TlsModel {
                ca_certificate: None,
                server_name: optional_text(profile.tls.server_name),
                client_identity: None,
            },
        ),
{
}

} // verus!
