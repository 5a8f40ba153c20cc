# sql_connector

Connectors for relational databases, search engines and vector databases. The library decides what
a connector does; it performs no input or output of its own. The functions in `src/` are verified by
Verus against their contracts, but for 38 small ones that call an outside crate: those are marked
`#[verifier::external_body]`, and their contracts are trusted.

- `model`, `value`, `json`: profiles, credentials, requests, results, records and documents.
- `text`, `encoding`, `base64_text`, `fields`, `temporal`, `convert`, `budget`, `secret`: the parts
  that all connectors share.
- `request`, `connection`: running requests and what is kept between them.
- `sql`: PostgreSQL, MySQL, Oracle, SQL Server and the products that speak their protocols: quoting,
  statements, plans, parameters, rows, catalogs and errors.
- `http`: Elasticsearch, OpenSearch, Milvus, Pinecone, Qdrant, Splunk and Weaviate: requests, their
  answers and the walks of several requests.

A connector is used in steps. The library makes a request or a statement, the caller sends it, and
the library reads the answer or says what comes next. `app/` holds such a caller for each product,
on the drivers `reqwest`, `mysql_async`, `tokio-postgres`, `tiberius` and `oracle-rs`.

What outside crates compute for the library (JSON, base64, URLs, dates, certificates, SQL and
GraphQL grammars, connection strings) stands behind those functions. The comment above each names
the outside function and says what is claimed of it.
