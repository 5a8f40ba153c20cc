//! The relational connectors.
use crate::model::Product;
use crate::sql::mysql::{MySqlConnector, MySqlFlavor};
use crate::sql::oracle::OracleConnector;
use crate::sql::postgres::{PostgresConnector, PostgresFlavor};
use crate::sql::sql_server::SqlServerConnector;
use vstd::prelude::*;

verus! {

/// A connector for a relational product.
#[derive(Debug, Clone, Copy)]
pub enum SqlConnector {
    Postgres(PostgresConnector),
    MySql(MySqlConnector),
    SqlServer(SqlServerConnector),
    Oracle(OracleConnector),
}

/// The product of a connector.
pub open spec fn connector_product(connector: SqlConnector) -> Product {
    match connector {
        SqlConnector::Postgres(inner) => crate::sql::postgres::flavor_product(inner.flavor),
        SqlConnector::MySql(inner) => crate::sql::mysql::flavor_product(inner.flavor),
        SqlConnector::SqlServer(_) => Product::SqlServer,
        SqlConnector::Oracle(_) => Product::Oracle,
    }
}

/// Every relational connector, each product once.
pub fn connectors() -> (result: Vec<SqlConnector>)
    ensures
        result@.len() == 8,
        result@[0] matches SqlConnector::Postgres(inner) && inner.flavor
            == PostgresFlavor::PostgreSql,
        result@[1] matches SqlConnector::Postgres(inner) && inner.flavor
            == PostgresFlavor::CockroachDb,
        result@[2] matches SqlConnector::Postgres(inner) && inner.flavor
            == PostgresFlavor::YugabyteYsql,
        result@[3] matches SqlConnector::MySql(inner) && inner.flavor == MySqlFlavor::MySql,
        result@[4] matches SqlConnector::MySql(inner) && inner.flavor == MySqlFlavor::TiDb,
        result@[5] matches SqlConnector::MySql(inner) && inner.flavor
            == MySqlFlavor::OceanBaseMySql,
        result@[6] is SqlServer,
        result@[7] is Oracle,
        forall|i: int, j: int|
            0 <= i < j < 8 ==> connector_product(#[trigger] result@[i]) != connector_product(
                #[trigger] result@[j],
            ),
{
    let mut list: Vec<SqlConnector> = Vec::new();
    list.push(SqlConnector::Postgres(PostgresConnector::postgresql()));
    list.push(SqlConnector::Postgres(PostgresConnector::cockroachdb()));
    list.push(SqlConnector::Postgres(PostgresConnector::yugabyte_ysql()));
    list.push(SqlConnector::MySql(MySqlConnector::mysql()));
    list.push(SqlConnector::MySql(MySqlConnector::tidb()));
    list.push(SqlConnector::MySql(MySqlConnector::oceanbase_mysql()));
    list.push(SqlConnector::SqlServer(SqlServerConnector::new()));
    list.push(SqlConnector::Oracle(OracleConnector::new()));
    list
}

} // verus!
