//! What relational servers say of themselves.
use crate::model::{
    framed, is_info_result, protocol, protocol_failure, ConnectionInfo, ConnectorError, ErrorModel,
    InfoModel,
};
use crate::sql::mysql::MySqlFlavor;
use crate::sql::oracle_values::{cell_text, string_cell, CatalogCell};
use crate::sql::postgres::PostgresFlavor;
use crate::text::{clone_optional, optional_text};
use vstd::prelude::*;

verus! {

broadcast use crate::text::group_texts;

/// A database and a user.
pub open spec fn session(database: Seq<char>, user: Seq<char>) -> Seq<char> {
    database + "/"@ + user
}

/// A text, or another where there is none.
pub open spec fn text_or(text: Option<Seq<char>>, other: Seq<char>) -> Seq<char> {
    match text {
        Some(text) => text,
        None => other,
    }
}

/// A text, or another where there is none.
fn borrowed_or<'a>(text: &'a Option<String>, other: &'a str) -> (result: &'a str)
    ensures
        result@ == text_or(optional_text(*text), other@),
{
    match text {
        Some(text) => text.as_str(),
        None => other,
    }
}

/// What a server of the MySQL protocol answers to the question who it is.
#[derive(Debug)]
pub struct MySqlIdentity {
    pub version: String,
    pub database: Option<String>,
    pub user: String,
}

/// What is known of a server of the MySQL protocol: it must be the expected product.
pub open spec fn mysql_identity(flavor: MySqlFlavor, found: Option<MySqlIdentity>) -> Result<
    InfoModel,
    ErrorModel,
> {
    match found {
        None => Err(protocol_failure("MySQL identity query returned no row"@)),
        Some(found) => match crate::sql::mysql::server_error(flavor, found.version@) {
            Some(error) => Err(error),
            None => Ok(
                InfoModel {
                    product_name: crate::sql::mysql::product_name(flavor),
                    product_version: Some(found.version@),
                    api_mode: crate::sql::mysql::product_mode(flavor),
                    server_identity: Some(
                        session(
                            text_or(optional_text(found.database), "(no database)"@),
                            found.user@,
                        ),
                    ),
                    warnings: Seq::empty(),
                },
            ),
        },
    }
}

/// What is known of a server of the MySQL protocol.
pub fn mysql_info(flavor: MySqlFlavor, found: &Option<MySqlIdentity>) -> (result: Result<
    ConnectionInfo,
    ConnectorError,
>)
    ensures
        is_info_result(result, mysql_identity(flavor, *found)),
{
    let found = match found {
        None => {
            return Err(protocol("MySQL identity query returned no row"));
        },
        Some(found) => found,
    };
    match crate::sql::mysql::verify_server_flavor(flavor, found.version.as_str()) {
        Err(error) => {
            return Err(error);
        },
        Ok(()) => {},
    }
    let database = borrowed_or(&found.database, "(no database)");
    Ok(
        ConnectionInfo {
            product_name: crate::sql::mysql::flavor_name(flavor).to_owned(),
            product_version: Some(found.version.clone()),
            api_mode: crate::sql::mysql::api_mode(flavor).to_owned(),
            server_identity: Some(framed(database, "/", found.user.as_str())),
            warnings: Vec::new(),
        },
    )
}

/// What is known of a server of the PostgreSQL protocol: it must be the expected product.
pub open spec fn postgres_identity(
    flavor: PostgresFlavor,
    version: Seq<char>,
    database: Seq<char>,
    user: Seq<char>,
) -> Result<InfoModel, ErrorModel> {
    match crate::sql::postgres::server_error(flavor, version) {
        Some(error) => Err(error),
        None => Ok(
            InfoModel {
                product_name: crate::sql::postgres::product_name(flavor),
                product_version: Some(version),
                api_mode: crate::sql::postgres::product_mode(flavor),
                server_identity: Some(session(database, user)),
                warnings: Seq::empty(),
            },
        ),
    }
}

/// What is known of a server of the PostgreSQL protocol.
pub fn postgres_info(flavor: PostgresFlavor, version: &str, database: &str, user: &str) -> (result: Result<
    ConnectionInfo,
    ConnectorError,
>)
    ensures
        is_info_result(result, postgres_identity(flavor, version@, database@, user@)),
{
    match crate::sql::postgres::verify_server_flavor(flavor, version) {
        Err(error) => {
            return Err(error);
        },
        Ok(()) => {},
    }
    Ok(
        ConnectionInfo {
            product_name: crate::sql::postgres::flavor_name(flavor).to_owned(),
            product_version: Some(version.to_owned()),
            api_mode: crate::sql::postgres::api_mode(flavor).to_owned(),
            server_identity: Some(framed(database, "/", user)),
            warnings: Vec::new(),
        },
    )
}

/// What SQL Server answers to the question who it is.
#[derive(Debug)]
pub struct TdsIdentity {
    pub version: Option<String>,
    pub database: Option<String>,
    pub user: Option<String>,
}

/// What is known of a SQL Server.
pub open spec fn tds_identity(found: Option<TdsIdentity>) -> Result<InfoModel, ErrorModel> {
    match found {
        None => Err(protocol_failure("SQL Server identity query returned no row"@)),
        Some(found) => Ok(
            InfoModel {
                product_name: "Microsoft SQL Server"@,
                product_version: optional_text(found.version),
                api_mode: "tds"@,
                server_identity: Some(
                    session(
                        text_or(optional_text(found.database), "(no database)"@),
                        text_or(optional_text(found.user), "(unknown user)"@),
                    ),
                ),
                warnings: Seq::empty(),
            },
        ),
    }
}

/// What is known of a SQL Server.
pub fn tds_info(found: &Option<TdsIdentity>) -> (result: Result<ConnectionInfo, ConnectorError>)
    ensures
        is_info_result(result, tds_identity(*found)),
{
    let found = match found {
        None => {
            return Err(protocol("SQL Server identity query returned no row"));
        },
        Some(found) => found,
    };
    let database = borrowed_or(&found.database, "(no database)");
    let user = borrowed_or(&found.user, "(unknown user)");
    Ok(
        ConnectionInfo {
            product_name: "Microsoft SQL Server".to_owned(),
            product_version: clone_optional(&found.version),
            api_mode: "tds".to_owned(),
            server_identity: Some(framed(database, "/", user)),
            warnings: Vec::new(),
        },
    )
}

/// What is known of an Oracle server: the database and the schema of its answer, and its version
/// where the driver knows one.
pub open spec fn oracle_identity(found: Option<(CatalogCell, CatalogCell)>, version: Seq<char>) -> Result<
    InfoModel,
    ErrorModel,
> {
    match found {
        None => Err(protocol_failure("Oracle identity query returned no row"@)),
        Some((database, schema)) => match cell_text(database) {
            Err(error) => Err(error),
            Ok(database) => match cell_text(schema) {
                Err(error) => Err(error),
                Ok(schema) => Ok(
                    InfoModel {
                        product_name: "Oracle Database"@,
                        product_version: if version.len() == 0 {
                            None
                        } else {
                            Some(version)
                        },
                        api_mode: "tns"@,
                        server_identity: Some(session(database, schema)),
                        warnings: Seq::empty().push(
                            "connection uses the experimental pure Rust TNS driver"@,
                        ),
                    },
                ),
            },
        },
    }
}

/// What is known of an Oracle server.
pub fn oracle_info(found: &Option<(CatalogCell, CatalogCell)>, version: &str) -> (result: Result<
    ConnectionInfo,
    ConnectorError,
>)
    ensures
        is_info_result(result, oracle_identity(*found, version@)),
{
    let (database, schema) = match found {
        None => {
            return Err(protocol("Oracle identity query returned no row"));
        },
        Some((database, schema)) => (database, schema),
    };
    let database = match string_cell(database) {
        Err(error) => {
            return Err(error);
        },
        Ok(database) => database,
    };
    let schema = match string_cell(schema) {
        Err(error) => {
            return Err(error);
        },
        Ok(schema) => schema,
    };
    let mut warnings: Vec<String> = Vec::new();
    warnings.push("connection uses the experimental pure Rust TNS driver".to_owned());
    Ok(
        ConnectionInfo {
            product_name: "Oracle Database".to_owned(),
            product_version: if version.is_empty() {
                None
            } else {
                Some(version.to_owned())
            },
            api_mode: "tns".to_owned(),
            server_identity: Some(framed(database.as_str(), "/", schema.as_str())),
            warnings,
        },
    )
}

} // verus!
