//! MySQL and the products that speak its protocol.
use crate::model::{
    error_of, failing, failure, first_error, framed, invalid, invalid_request, AuthKind, Capability,
    ConnectionProfile, ConnectorError, ConnectorManifest, ConnectorStatus, ErrorCategory,
    ErrorModel, Product, SecretMaterial,
};
use crate::sql::limits::{auth_error, tls_error, validate_auth, validate_tls};
use crate::sql::mysql_options::{build_options, options_result};
use crate::text::{
    contains_text, lower, occurs_in, optional_str, same, split, split_on, texts, to_lower,
};
use vstd::prelude::*;
use vstd::string::StringExecFns;

verus! {

broadcast use {crate::text::group_texts, crate::value::group_models};

/// The products that speak the MySQL protocol.
#[derive(Debug, Clone, Copy, PartialEq, Eq, Structural)]
pub enum MySqlFlavor {
    MySql,
    TiDb,
    OceanBaseMySql,
}

/// A connector for a product that speaks the MySQL protocol.
#[derive(Debug, Clone, Copy)]
pub struct MySqlConnector {
    pub flavor: MySqlFlavor,
}

/// The name of a product.
pub open spec fn product_name(flavor: MySqlFlavor) -> Seq<char> {
    match flavor {
        MySqlFlavor::MySql => "MySQL"@,
        MySqlFlavor::TiDb => "TiDB"@,
        MySqlFlavor::OceanBaseMySql => "OceanBase"@,
    }
}

/// The name of a product.
pub fn flavor_name(flavor: MySqlFlavor) -> (result: &'static str)
    ensures
        result@ == product_name(flavor),
{
    match flavor {
        MySqlFlavor::MySql => "MySQL",
        MySqlFlavor::TiDb => "TiDB",
        MySqlFlavor::OceanBaseMySql => "OceanBase",
    }
}

/// The mode in which a product is spoken to.
pub open spec fn product_mode(flavor: MySqlFlavor) -> Seq<char> {
    match flavor {
        MySqlFlavor::OceanBaseMySql => "oceanbase_mysql"@,
        _ => "mysql"@,
    }
}

/// The mode in which a product is spoken to.
pub fn api_mode(flavor: MySqlFlavor) -> (result: &'static str)
    ensures
        result@ == product_mode(flavor),
{
    match flavor {
        MySqlFlavor::OceanBaseMySql => "oceanbase_mysql",
        _ => "mysql",
    }
}

/// The identity of a product's connector.
pub open spec fn connector_id(flavor: MySqlFlavor) -> Seq<char> {
    match flavor {
        MySqlFlavor::MySql => "mysql-protocol"@,
        MySqlFlavor::TiDb => "tidb-mysql"@,
        MySqlFlavor::OceanBaseMySql => "oceanbase-mysql"@,
    }
}

/// The product of a flavor.
pub open spec fn flavor_product(flavor: MySqlFlavor) -> Product {
    match flavor {
        MySqlFlavor::MySql => Product::MySql,
        MySqlFlavor::TiDb => Product::TiDb,
        MySqlFlavor::OceanBaseMySql => Product::OceanBase,
    }
}

/// Whether a profile is for the product of a flavor, in a mode that it has.
pub open spec fn serves(flavor: MySqlFlavor, profile: ConnectionProfile) -> bool {
    let mode = profile.api_mode@;
    &&& profile.product == flavor_product(flavor)
    &&& mode == "mysql"@ || mode == "mysql_protocol"@ || (flavor == MySqlFlavor::OceanBaseMySql
        && mode == "oceanbase_mysql"@)
}

/// The error of a profile that the connector of a flavor refuses.
pub open spec fn profile_error(flavor: MySqlFlavor, profile: ConnectionProfile) -> Option<
    ErrorModel,
> {
    if !serves(flavor, profile) {
        Some(
            invalid_request(
                "profile product/api_mode does not match connector `"@ + connector_id(flavor)
                    + "`"@,
            ),
        )
    } else if tls_error(profile) is Some {
        tls_error(profile)
    } else if profile.auth_kind == AuthKind::ClientCertificate && (!profile.tls.enabled
        || profile.tls.client_certificate_ref is None) {
        Some(
            invalid_request(
                "MySQL client-certificate authentication requires TLS and tls.client_certificate_ref"@,
            ),
        )
    } else {
        None
    }
}

/// The capabilities of the relational connectors.
pub fn relational_capabilities() -> (result: Vec<Capability>)
    ensures
        result@ == relational_capability_list(),
{
    let mut list: Vec<Capability> = Vec::new();
    list.push(Capability::TestConnection);
    list.push(Capability::Discover);
    list.push(Capability::Describe);
    list.push(Capability::Read);
    list.push(Capability::Insert);
    list.push(Capability::Update);
    list.push(Capability::Delete);
    list.push(Capability::NativeQuery);
    list.push(Capability::NativeExecute);
    list
}

/// The capabilities of the relational connectors.
pub open spec fn relational_capability_list() -> Seq<Capability> {
    seq![Capability::TestConnection].push(Capability::Discover).push(Capability::Describe).push(
        Capability::Read,
    ).push(Capability::Insert).push(Capability::Update).push(Capability::Delete).push(
        Capability::NativeQuery,
    ).push(Capability::NativeExecute)
}

/// The limitations that the connector of a flavor states.
pub open spec fn limitation_list(flavor: MySqlFlavor) -> Seq<Seq<char>> {
    match flavor {
        MySqlFlavor::MySql => seq![
            "native SQL must be one SELECT/WITH or one INSERT/UPDATE/DELETE statement without a semicolon"@,
        ].push("prepared-statement values use MySQL's binary protocol"@),
        MySqlFlavor::TiDb => seq![
            "uses TiDB's MySQL protocol compatibility; unsupported MySQL features are not implied"@,
        ].push(
            "transactional max_affected enforcement follows the target TiDB transaction semantics"@,
        ),
        MySqlFlavor::OceanBaseMySql => seq![
            "supports OceanBase MySQL mode only; Oracle mode is not routed to this adapter"@,
        ].push("uses MySQL protocol compatibility and does not imply every MySQL extension"@),
    }
}

impl MySqlConnector {
    /// The connector for MySQL.
    pub fn mysql() -> (result: MySqlConnector)
        ensures
            result.flavor == MySqlFlavor::MySql,
    {
        MySqlConnector { flavor: MySqlFlavor::MySql }
    }

    /// The connector for TiDB.
    pub fn tidb() -> (result: MySqlConnector)
        ensures
            result.flavor == MySqlFlavor::TiDb,
    {
        MySqlConnector { flavor: MySqlFlavor::TiDb }
    }

    /// The connector for OceanBase in its MySQL mode.
    pub fn oceanbase_mysql() -> (result: MySqlConnector)
        ensures
            result.flavor == MySqlFlavor::OceanBaseMySql,
    {
        MySqlConnector { flavor: MySqlFlavor::OceanBaseMySql }
    }

    /// What the connector says of itself.
    pub fn manifest(&self) -> (result: ConnectorManifest)
        ensures
            result.id@ == connector_id(self.flavor),
            result.display_name@ == (match self.flavor {
                MySqlFlavor::MySql => "MySQL"@,
                MySqlFlavor::TiDb => "TiDB"@,
                MySqlFlavor::OceanBaseMySql => "OceanBase (MySQL mode)"@,
            }),
            result.product == flavor_product(self.flavor),
            result.api_mode@ == product_mode(self.flavor),
            result.driver@ == "mysql_async"@,
            result.driver_version@ == "0.36.1"@,
            result.status == ConnectorStatus::Experimental,
            result.capabilities@ == relational_capability_list(),
            result.auth_kinds@ == seq![AuthKind::UsernamePassword].push(
                AuthKind::ConnectionString,
            ).push(AuthKind::ClientCertificate),
            texts(result.limitations@) == limitation_list(self.flavor),
    {
        let mut limitations: Vec<String> = Vec::new();
        let (id, display_name, product): (&str, &str, Product) = match self.flavor {
            MySqlFlavor::MySql => {
                limitations.push(
                    "native SQL must be one SELECT/WITH or one INSERT/UPDATE/DELETE statement without a semicolon".to_owned(),
                );
                limitations.push(
                    "prepared-statement values use MySQL's binary protocol".to_owned(),
                );
                ("mysql-protocol", "MySQL", Product::MySql)
            },
            MySqlFlavor::TiDb => {
                limitations.push(
                    "uses TiDB's MySQL protocol compatibility; unsupported MySQL features are not implied".to_owned(),
                );
                limitations.push(
                    "transactional max_affected enforcement follows the target TiDB transaction semantics".to_owned(),
                );
                ("tidb-mysql", "TiDB", Product::TiDb)
            },
            MySqlFlavor::OceanBaseMySql => {
                limitations.push(
                    "supports OceanBase MySQL mode only; Oracle mode is not routed to this adapter".to_owned(),
                );
                limitations.push(
                    "uses MySQL protocol compatibility and does not imply every MySQL extension".to_owned(),
                );
                ("oceanbase-mysql", "OceanBase (MySQL mode)", Product::OceanBase)
            },
        };
        let mut auth_kinds: Vec<AuthKind> = Vec::new();
        auth_kinds.push(AuthKind::UsernamePassword);
        auth_kinds.push(AuthKind::ConnectionString);
        auth_kinds.push(AuthKind::ClientCertificate);
        ConnectorManifest {
            id: id.to_owned(),
            display_name: display_name.to_owned(),
            product,
            api_mode: api_mode(self.flavor).to_owned(),
            driver: "mysql_async".to_owned(),
            driver_version: "0.36.1".to_owned(),
            status: ConnectorStatus::Experimental,
            capabilities: relational_capabilities(),
            auth_kinds,
            limitations,
        }
    }

    /// Refuses profiles that are not for this connector.
    pub fn validate_profile(&self, profile: &ConnectionProfile) -> (result: Result<
        (),
        ConnectorError,
    >)
        ensures
            crate::model::error_of(result) == profile_error(self.flavor, *profile),
    {
        let mode = profile.api_mode.as_str();
        let product = match self.flavor {
            MySqlFlavor::MySql => Product::MySql,
            MySqlFlavor::TiDb => Product::TiDb,
            MySqlFlavor::OceanBaseMySql => Product::OceanBase,
        };
        let known_mode = same(mode, "mysql") || same(mode, "mysql_protocol") || (self.flavor
            == MySqlFlavor::OceanBaseMySql && same(mode, "oceanbase_mysql"));
        if profile.product != product || !known_mode {
            let id = match self.flavor {
                MySqlFlavor::MySql => "mysql-protocol",
                MySqlFlavor::TiDb => "tidb-mysql",
                MySqlFlavor::OceanBaseMySql => "oceanbase-mysql",
            };
            let message = framed("profile product/api_mode does not match connector `", id, "`");
            return Err(invalid(message.as_str()));
        }
        match validate_tls(profile) {
            Err(error) => {
                return Err(error);
            },
            Ok(()) => {},
        }
        if profile.auth_kind == AuthKind::ClientCertificate && (!profile.tls.enabled
            || profile.tls.client_certificate_ref.is_none()) {
            return Err(
                invalid(
                    "MySQL client-certificate authentication requires TLS and tls.client_certificate_ref",
                ),
            );
        }
        Ok(())
    }

    /// Refuses a profile and a credential with which no connection could be made.
    pub fn validate_connection_input(
        &self,
        profile: &ConnectionProfile,
        secret: &SecretMaterial,
    ) -> (result: Result<(), ConnectorError>)
        ensures
            error_of(result) == first_error(
                profile_error(self.flavor, *profile),
                first_error(
                    auth_error(*profile, secret.kind),
                    failing(options_result(*profile, secret.kind, secret.fields@)),
                ),
            ),
    {
        match self.validate_profile(profile) {
            Err(error) => {
                return Err(error);
            },
            Ok(_) => {},
        }
        match validate_auth(profile, secret) {
            Err(error) => {
                return Err(error);
            },
            Ok(_) => {},
        }
        match build_options(profile, secret) {
            Err(error) => Err(error),
            Ok(_) => Ok(()),
        }
    }
}

/// The product that a server's version names, if it names one.
pub open spec fn detected_product(version: Seq<char>) -> Option<Seq<char>> {
    if occurs_in("tidb"@, lower(version)) {
        Some("TiDB"@)
    } else if occurs_in("oceanbase"@, lower(version)) {
        Some("OceanBase"@)
    } else if occurs_in("mariadb"@, lower(version)) {
        Some("MariaDB"@)
    } else {
        None
    }
}

/// Whether a server is of the product of a flavor.
pub open spec fn is_expected_product(flavor: MySqlFlavor, detected: Option<Seq<char>>) -> bool {
    match flavor {
        MySqlFlavor::MySql => detected is None,
        MySqlFlavor::TiDb => detected == Some("TiDB"@),
        MySqlFlavor::OceanBaseMySql => detected == Some("OceanBase"@),
    }
}

/// The error of a server of another product.
pub open spec fn product_mismatch(name: Seq<char>, detected: Option<Seq<char>>) -> ErrorModel {
    ErrorModel {
        code: Some("product_mismatch"@),
        ..failure(
            ErrorCategory::Protocol,
            match detected {
                Some(product) => "the endpoint identifies itself as "@ + product + ", not "@ + name,
                None => "the endpoint does not identify itself as "@ + name,
            },
        )
    }
}

/// The error of a server that is not of the product of a flavor.
pub open spec fn server_error(flavor: MySqlFlavor, version: Seq<char>) -> Option<ErrorModel> {
    let detected = detected_product(version);
    if is_expected_product(flavor, detected) {
        None
    } else {
        Some(product_mismatch(product_name(flavor), detected))
    }
}

/// The error of a server of another product.
pub fn mismatch_error(name: &str, detected: Option<&str>) -> (result: ConnectorError)
    ensures
        result@ == product_mismatch(name@, optional_str(detected)),
{
    let message = match detected {
        Some(product) => {
            let mut message = framed("the endpoint identifies itself as ", product, ", not ");
            message.append(name);
            message
        },
        None => crate::model::appended("the endpoint does not identify itself as ", name),
    };
    ConnectorError::new(ErrorCategory::Protocol, message.as_str()).with_code("product_mismatch")
}

/// Refuses a server that is not of the product of a flavor.
pub fn verify_server_flavor(flavor: MySqlFlavor, version: &str) -> (result: Result<
    (),
    ConnectorError,
>)
    ensures
        crate::model::error_of(result) == server_error(flavor, version@),
{
    proof {
        reveal_strlit("TiDB");
        reveal_strlit("OceanBase");
        reveal_strlit("MariaDB");
        assert("TiDB"@.len() == 4);
        assert("OceanBase"@.len() == 9);
        assert("MariaDB"@.len() == 7);
    }
    let version = to_lower(version);
    if contains_text(version.as_str(), "tidb") {
        if flavor == MySqlFlavor::TiDb {
            return Ok(());
        }
        return Err(mismatch_error(flavor_name(flavor), Some("TiDB")));
    }
    if contains_text(version.as_str(), "oceanbase") {
        if flavor == MySqlFlavor::OceanBaseMySql {
            return Ok(());
        }
        return Err(mismatch_error(flavor_name(flavor), Some("OceanBase")));
    }
    if contains_text(version.as_str(), "mariadb") {
        return Err(mismatch_error(flavor_name(flavor), Some("MariaDB")));
    }
    if flavor == MySqlFlavor::MySql {
        return Ok(());
    }
    Err(mismatch_error(flavor_name(flavor), None))
}

/// The database and table of an entity id.
pub open spec fn entity_result(entity: Seq<char>, default_database: Option<Seq<char>>) -> Result<
    (Seq<char>, Seq<char>),
    ErrorModel,
> {
    let parts = split_on(entity, '.');
    let refused = invalid_request("MySQL entity must use `database.table`"@);
    if parts.len() == 1 && parts[0].len() > 0 {
        match default_database {
            Some(database) if database.len() > 0 => Ok((database, parts[0])),
            _ => Err(refused),
        }
    } else if parts.len() == 2 && parts[0].len() > 0 && parts[1].len() > 0 {
        Ok((parts[0], parts[1]))
    } else {
        Err(refused)
    }
}

/// Whether a result of two names is what is expected of it.
pub open spec fn is_pair_result(
    result: Result<(String, String), ConnectorError>,
    expected: Result<(Seq<char>, Seq<char>), ErrorModel>,
) -> bool {
    match (result, expected) {
        (Ok(pair), Ok(wanted)) => pair.0@ == wanted.0 && pair.1@ == wanted.1,
        (Err(error), Err(wanted)) => error@ == wanted,
        _ => false,
    }
}

/// The database and table of an entity id.
pub fn split_mysql_entity(entity: &str, default_database: Option<&str>) -> (result: Result<
    (String, String),
    ConnectorError,
>)
    ensures
        is_pair_result(result, entity_result(entity@, optional_str(default_database))),
{
    let parts = split(entity, '.');
    assert(forall|i: int| 0 <= i < parts@.len() ==> #[trigger] texts(parts@)[i] == parts@[i]@);
    if parts.len() == 1 && !parts[0].as_str().is_empty() {
        match default_database {
            Some(database) => {
                if !database.is_empty() {
                    return Ok((database.to_owned(), parts[0].clone()));
                }
            },
            None => {},
        }
    } else if parts.len() == 2 && !parts[0].as_str().is_empty() && !parts[1].as_str().is_empty() {
        return Ok((parts[0].clone(), parts[1].clone()));
    }
    Err(invalid("MySQL entity must use `database.table`"))
}

} // verus!
