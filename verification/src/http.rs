//! Connectors for databases that speak HTTP.
pub mod answer_laws;
pub mod auth;
pub mod auth_laws;
pub mod common;
pub mod elastic;
pub mod elastic_laws;
pub mod elastic_query;
pub mod graphql_text;
pub mod milvus;
pub mod milvus_laws;
pub mod milvus_query;
pub mod native;
pub mod native_laws;
pub mod pinecone;
pub mod pinecone_host;
pub mod pinecone_laws;
pub mod qdrant;
pub mod qdrant_laws;
pub mod qdrant_query;
pub mod reading_laws;
pub mod sending;
pub mod splunk;
pub mod splunk_laws;
pub mod splunk_paging;
pub mod splunk_query;
pub mod transport;
pub mod weaviate;
pub mod weaviate_laws;
pub mod weaviate_query;
