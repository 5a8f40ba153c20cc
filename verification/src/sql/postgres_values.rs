//! Parameters and certificates for PostgreSQL.
use crate::convert::{parameter_json, parameter_to_json};
use crate::encoding::{base64_bytes, decode_base64, parse_uuid, uuid_bytes};
use crate::model::{
    invalid, invalid_request, ConnectionProfile, ConnectorError, ErrorModel, SecretMaterial,
};
use crate::sql::mysql_options::{build_tls_plan, tls_result, TlsModel};
use crate::sql::numeric::{encode_pg_numeric, numeric_result, NumericError};
use crate::temporal::{
    date_of, moment_of, parse_date, parse_moment, parse_time, time_of, DateParts, TimeParts,
};
use crate::text::optional_text;
use crate::value::{DbValue, Double, DoubleModel, Json, JsonModel, ValueModel};
use rustls::pki_types::PrivateKeyDer;
use vstd::prelude::*;

verus! {

broadcast use crate::value::group_models;

/// The column types for which parameters are written differently.
#[derive(Debug, Clone, Copy, PartialEq, Eq, Structural)]
pub enum PgType {
    Int2,
    Int4,
    Float4,
    Numeric,
    Other,
}

/// A parameter as the PostgreSQL driver writes it.
#[derive(Debug)]
pub enum PgValue {
    Null,
    Bool(bool),
    Int2(i16),
    Int4(i32),
    Int8(i64),
    /// Written in single precision.
    Float4(Double),
    Float8(Double),
    /// The binary form of a decimal number.
    Numeric(Vec<u8>),
    Text(String),
    Date(DateParts),
    Time(TimeParts),
    /// A moment in the form of RFC 3339.
    Moment(String),
    /// The bytes of a UUID.
    Uuid(Vec<u8>),
    Bytes(Vec<u8>),
    Document(Json),
}

/// What a [`PgValue`] is.
pub enum PgModel {
    Null,
    Bool(bool),
    Int2(i16),
    Int4(i32),
    Int8(i64),
    Float4(DoubleModel),
    Float8(DoubleModel),
    Numeric(Seq<u8>),
    Text(Seq<char>),
    Date(DateParts),
    Time(TimeParts),
    Moment(Seq<char>),
    Uuid(Seq<u8>),
    Bytes(Seq<u8>),
    Document(JsonModel),
}

impl View for PgValue {
    type V = PgModel;

    open spec fn view(&self) -> PgModel {
        match *self {
            PgValue::Null => PgModel::Null,
            PgValue::Bool(value) => PgModel::Bool(value),
            PgValue::Int2(value) => PgModel::Int2(value),
            PgValue::Int4(value) => PgModel::Int4(value),
            PgValue::Int8(value) => PgModel::Int8(value),
            PgValue::Float4(value) => PgModel::Float4(value@),
            PgValue::Float8(value) => PgModel::Float8(value@),
            PgValue::Numeric(value) => PgModel::Numeric(value@),
            PgValue::Text(value) => PgModel::Text(value@),
            PgValue::Date(value) => PgModel::Date(value),
            PgValue::Time(value) => PgModel::Time(value),
            PgValue::Moment(value) => PgModel::Moment(value@),
            PgValue::Uuid(value) => PgModel::Uuid(value@),
            PgValue::Bytes(value) => PgModel::Bytes(value@),
            PgValue::Document(value) => PgModel::Document(value@),
        }
    }
}

/// Why a parameter cannot be written.
#[derive(Debug, Clone, Copy, PartialEq, Eq, Structural)]
pub enum PgParameterError {
    /// The integer does not fit in the column.
    IntegerOutOfRange,
    Numeric(NumericError),
    Date,
    Time,
    DateTime,
    Uuid,
    Base64,
}

/// The parameter that a value is in a column of a type.
pub open spec fn pg_parameter(value: ValueModel, column: PgType) -> Result<
    PgModel,
    PgParameterError,
> {
    match value {
        ValueModel::Null => Ok(PgModel::Null),
        ValueModel::Bool(value) => Ok(PgModel::Bool(value)),
        ValueModel::Int64(value) => match column {
            PgType::Int2 => if i16::MIN <= value <= i16::MAX {
                Ok(PgModel::Int2(value as i16))
            } else {
                Err(PgParameterError::IntegerOutOfRange)
            },
            PgType::Int4 => if i32::MIN <= value <= i32::MAX {
                Ok(PgModel::Int4(value as i32))
            } else {
                Err(PgParameterError::IntegerOutOfRange)
            },
            _ => Ok(PgModel::Int8(value)),
        },
        ValueModel::UInt64(value) => if value <= i64::MAX {
            Ok(PgModel::Int8(value as i64))
        } else {
            Err(PgParameterError::IntegerOutOfRange)
        },
        ValueModel::Float64(value) => if column == PgType::Float4 {
            Ok(PgModel::Float4(value))
        } else {
            Ok(PgModel::Float8(value))
        },
        ValueModel::Decimal(text) => if column == PgType::Numeric {
            match numeric_result(text) {
                Ok(bytes) => Ok(PgModel::Numeric(bytes)),
                Err(error) => Err(PgParameterError::Numeric(error)),
            }
        } else {
            Ok(PgModel::Text(text))
        },
        ValueModel::String(text) => Ok(PgModel::Text(text)),
        ValueModel::Date(text) => match date_of(text) {
            Some(date) => Ok(PgModel::Date(date)),
            None => Err(PgParameterError::Date),
        },
        ValueModel::Time(text) => match time_of(text) {
            Some(time) => Ok(PgModel::Time(time)),
            None => Err(PgParameterError::Time),
        },
        ValueModel::DateTime(text) => match moment_of(text) {
            Some(_) => Ok(PgModel::Moment(text)),
            None => Err(PgParameterError::DateTime),
        },
        ValueModel::Uuid(text) => match uuid_bytes(text) {
            Some(bytes) => Ok(PgModel::Uuid(bytes)),
            None => Err(PgParameterError::Uuid),
        },
        ValueModel::Binary(text) => match base64_bytes(text) {
            Some(bytes) => Ok(PgModel::Bytes(bytes)),
            None => Err(PgParameterError::Base64),
        },
        _ => Ok(PgModel::Document(parameter_json(value))),
    }
}

/// Writes a value as a parameter for a column of a type.
pub fn to_pg_parameter(value: &DbValue, column: PgType) -> (result: Result<
    PgValue,
    PgParameterError,
>)
    ensures
        match (result, pg_parameter(value@, column)) {
            (Ok(parameter), Ok(wanted)) => parameter@ == wanted,
            (Err(error), Err(wanted)) => error == wanted,
            _ => false,
        },
{
    match value {
        DbValue::Null => Ok(PgValue::Null),
        DbValue::Bool(value) => Ok(PgValue::Bool(*value)),
        DbValue::Int64(value) => match column {
            PgType::Int2 => if -32_768 <= *value && *value <= 32_767 {
                Ok(PgValue::Int2(*value as i16))
            } else {
                Err(PgParameterError::IntegerOutOfRange)
            },
            PgType::Int4 => if -2_147_483_648 <= *value && *value <= 2_147_483_647 {
                Ok(PgValue::Int4(*value as i32))
            } else {
                Err(PgParameterError::IntegerOutOfRange)
            },
            _ => Ok(PgValue::Int8(*value)),
        },
        DbValue::UInt64(value) => if *value <= 0x7fff_ffff_ffff_ffff {
            Ok(PgValue::Int8(*value as i64))
        } else {
            Err(PgParameterError::IntegerOutOfRange)
        },
        DbValue::Float64(value) => if column == PgType::Float4 {
            Ok(PgValue::Float4(value.copy()))
        } else {
            Ok(PgValue::Float8(value.copy()))
        },
        DbValue::Decimal(text) => if column == PgType::Numeric {
            match encode_pg_numeric(text.as_str()) {
                Ok(bytes) => Ok(PgValue::Numeric(bytes)),
                Err(error) => Err(PgParameterError::Numeric(error)),
            }
        } else {
            Ok(PgValue::Text(text.clone()))
        },
        DbValue::String(text) => Ok(PgValue::Text(text.clone())),
        DbValue::Date(text) => match parse_date(text.as_str()) {
            Some(date) => Ok(PgValue::Date(date)),
            None => Err(PgParameterError::Date),
        },
        DbValue::Time(text) => match parse_time(text.as_str()) {
            Some(time) => Ok(PgValue::Time(time)),
            None => Err(PgParameterError::Time),
        },
        DbValue::DateTime(text) => match parse_moment(text.as_str()) {
            Some(_) => Ok(PgValue::Moment(text.clone())),
            None => Err(PgParameterError::DateTime),
        },
        DbValue::Uuid(text) => match parse_uuid(text.as_str()) {
            Some(bytes) => Ok(PgValue::Uuid(bytes)),
            None => Err(PgParameterError::Uuid),
        },
        DbValue::Binary(text) => match decode_base64(text.as_str()) {
            Some(bytes) => Ok(PgValue::Bytes(bytes)),
            None => Err(PgParameterError::Base64),
        },
        _ => Ok(PgValue::Document(parameter_to_json(value))),
    }
}

/// The formats of private keys.
#[derive(Debug, Clone, Copy, PartialEq, Eq, Structural)]
pub enum KeyFormat {
    Pkcs1,
    Sec1,
    Pkcs8,
}

/// A private key.
#[derive(Debug)]
pub struct PrivateKey {
    pub format: KeyFormat,
    pub der: Vec<u8>,
}

/// What a [`PrivateKey`] is.
pub struct KeyModel {
    pub format: KeyFormat,
    pub der: Seq<u8>,
}

impl View for PrivateKey {
    type V = KeyModel;

    open spec fn view(&self) -> KeyModel {
        KeyModel { format: self.format, der: self.der@ }
    }
}

/// What each of some certificates is.
pub open spec fn certificates(list: Seq<Vec<u8>>) -> Seq<Seq<u8>> {
    Seq::new(list.len(), |i: int| list[i]@)
}

/// The certificates in a PEM text, or the message of the reader that refuses it.
pub uninterp spec fn pem_certificates(text: Seq<char>) -> Result<Seq<Seq<u8>>, Seq<char>>;

/// The first private key in a PEM text, or the message of the reader that refuses it.
pub uninterp spec fn pem_private_key(text: Seq<char>) -> Result<Option<KeyModel>, Seq<char>>;

/// The message with which a certificate is refused as a root of trust.
pub uninterp spec fn root_refusal(certificate: Seq<u8>) -> Option<Seq<char>>;

/// The message with which a client's certificates and key are refused.
pub uninterp spec fn identity_refusal(chain: Seq<Seq<u8>>, key: KeyModel) -> Option<Seq<char>>;

/// `rustls_pemfile::certs`, collected.
#[verifier::external_body]
fn read_certificates(text: &str) -> (result: Result<Vec<Vec<u8>>, String>)
    ensures
        match (result, pem_certificates(text@)) {
            (Ok(list), Ok(wanted)) => certificates(list@) == wanted,
            (Err(message), Err(wanted)) => message@ == wanted,
            _ => false,
        },
{
    let mut reader = text.as_bytes();
    let list: std::io::Result<Vec<_>> = rustls_pemfile::certs(&mut reader).collect();
    match list {
        Ok(list) => Ok(list.into_iter().map(|der| der.to_vec()).collect()),
        Err(error) => Err(error.to_string()),
    }
}

/// `rustls_pemfile::private_key`.
#[verifier::external_body]
fn read_private_key(text: &str) -> (result: Result<Option<PrivateKey>, String>)
    ensures
        match (result, pem_private_key(text@)) {
            (Ok(Some(key)), Ok(Some(wanted))) => key@ == wanted,
            (Ok(None), Ok(None)) => true,
            (Err(message), Err(wanted)) => message@ == wanted,
            _ => false,
        },
{
    let mut reader = text.as_bytes();
    let found = rustls_pemfile::private_key(&mut reader).map_err(|error| error.to_string())?;
    let key = match found {
        Some(key) => key,
        None => return Ok(None),
    };
    let format = match &key {
        PrivateKeyDer::Pkcs1(_) => KeyFormat::Pkcs1,
        PrivateKeyDer::Sec1(_) => KeyFormat::Sec1,
        _ => KeyFormat::Pkcs8,
    };
    Ok(Some(PrivateKey { format, der: key.secret_der().to_vec() }))
}

/// `rustls::RootCertStore::add`, by the message of its error.
#[verifier::external_body]
fn refuse_root(certificate: &Vec<u8>) -> (result: Option<String>)
    ensures
        optional_text(result) == root_refusal(certificate@),
{
    let mut roots = rustls::RootCertStore::empty();
    roots.add(certificate.clone().into()).err().map(|error| error.to_string())
}

/// `rustls::ConfigBuilder::with_client_auth_cert` with the provider `ring`, by the message of its
/// error.
#[verifier::external_body]
fn refuse_identity(chain: &Vec<Vec<u8>>, key: &PrivateKey) -> (result: Option<String>)
    ensures
        optional_text(result) == identity_refusal(certificates(chain@), key@),
{
    let provider = std::sync::Arc::new(rustls::crypto::ring::default_provider());
    let builder = rustls::ClientConfig::builder_with_provider(provider)
        .with_safe_default_protocol_versions().ok()?
        .with_root_certificates(rustls::RootCertStore::empty());
    let chain = chain.iter().map(|der| der.clone().into()).collect();
    let der = key.der.clone();
    let key = match key.format {
        KeyFormat::Pkcs1 => PrivateKeyDer::Pkcs1(der.into()),
        KeyFormat::Sec1 => PrivateKeyDer::Sec1(der.into()),
        KeyFormat::Pkcs8 => PrivateKeyDer::Pkcs8(der.into()),
    };
    builder.with_client_auth_cert(chain, key).err().map(|error| error.to_string())
}

/// How TLS is set up: further roots of trust, and the client's identity.
#[derive(Debug)]
pub struct PgTls {
    pub roots: Vec<Vec<u8>>,
    pub identity: Option<(Vec<Vec<u8>>, PrivateKey)>,
}

/// What a [`PgTls`] is.
pub struct PgTlsModel {
    pub roots: Seq<Seq<u8>>,
    pub identity: Option<(Seq<Seq<u8>>, KeyModel)>,
}

impl View for PgTls {
    type V = PgTlsModel;

    open spec fn view(&self) -> PgTlsModel {
        PgTlsModel {
            roots: certificates(self.roots@),
            identity: match self.identity {
                Some(identity) => Some((certificates(identity.0@), identity.1@)),
                None => None,
            },
        }
    }
}

/// The message of the first certificate that is refused as a root of trust.
pub open spec fn roots_refusal(list: Seq<Seq<u8>>) -> Option<Seq<char>>
    decreases list.len(),
{
    if list.len() == 0 {
        None
    } else if root_refusal(list[0]) is Some {
        root_refusal(list[0])
    } else {
        roots_refusal(list.subrange(1, list.len() as int))
    }
}

/// The roots of trust in a PEM text: at least one, and all accepted.
pub open spec fn roots_result(text: Option<Seq<char>>) -> Result<Seq<Seq<u8>>, ErrorModel> {
    match text {
        None => Ok(Seq::empty()),
        Some(text) => match pem_certificates(text) {
            Err(message) => Err(
                invalid_request("could not parse PostgreSQL CA certificate: "@ + message),
            ),
            Ok(list) => if list.len() == 0 {
                Err(
                    invalid_request(
                        "PostgreSQL CA certificate credential contains no certificates"@,
                    ),
                )
            } else {
                match roots_refusal(list) {
                    Some(message) => Err(
                        invalid_request("invalid PostgreSQL CA certificate: "@ + message),
                    ),
                    None => Ok(list),
                }
            },
        },
    }
}

/// The client's identity from PEM texts.
pub open spec fn identity_result(certificate: Seq<char>, key: Seq<char>) -> Result<
    (Seq<Seq<u8>>, KeyModel),
    ErrorModel,
> {
    match pem_certificates(certificate) {
        Err(message) => Err(
            invalid_request("could not parse PostgreSQL client certificate: "@ + message),
        ),
        Ok(list) => if list.len() == 0 {
            Err(
                invalid_request(
                    "PostgreSQL client certificate credential contains no certificates"@,
                ),
            )
        } else {
            match pem_private_key(key) {
                Err(message) => Err(
                    invalid_request("could not parse PostgreSQL client key: "@ + message),
                ),
                Ok(None) => Err(
                    invalid_request(
                        "PostgreSQL private key credential contains no private key"@,
                    ),
                ),
                Ok(Some(key)) => match identity_refusal(list, key) {
                    Some(message) => Err(
                        invalid_request("invalid PostgreSQL client identity: "@ + message),
                    ),
                    None => Ok((list, key)),
                },
            }
        },
    }
}

/// How TLS is set up. The roots of trust are settled before the client's identity.
pub open spec fn tls_config_result(
    profile: ConnectionProfile,
    fields: Seq<(Seq<char>, Seq<char>)>,
) -> Result<PgTlsModel, ErrorModel> {
    let without_client = tls_result("PostgreSQL"@, profile_without_client(profile), fields);
    match without_client {
        Err(error) => Err(error),
        Ok(trust) => match roots_result(trust.ca_certificate) {
            Err(error) => Err(error),
            Ok(roots) => match tls_result("PostgreSQL"@, profile, fields) {
                Err(error) => Err(error),
                Ok(plan) => match plan.client_identity {
                    None => Ok(PgTlsModel { roots, identity: None }),
                    Some((certificate, key)) => match identity_result(certificate, key) {
                        Err(error) => Err(error),
                        Ok(identity) => Ok(PgTlsModel { roots, identity: Some(identity) }),
                    },
                },
            },
        },
    }
}

/// A profile that refers to no client certificate.
pub open spec fn profile_without_client(profile: ConnectionProfile) -> ConnectionProfile {
    ConnectionProfile {
        tls: crate::model::TlsConfig { client_certificate_ref: None, ..profile.tls },
        ..profile
    }
}

/// Reads the roots of trust.
fn read_roots(text: &Option<String>) -> (result: Result<Vec<Vec<u8>>, ConnectorError>)
    ensures
        match (result, roots_result(optional_text(*text))) {
            (Ok(list), Ok(wanted)) => certificates(list@) == wanted,
            (Err(error), Err(wanted)) => error@ == wanted,
            _ => false,
        },
{
    let text = match text {
        None => {
            let none: Vec<Vec<u8>> = Vec::new();
            assert(certificates(none@) =~= Seq::<Seq<u8>>::empty());
            return Ok(none);
        },
        Some(text) => text,
    };
    let list = match read_certificates(text.as_str()) {
        Err(message) => {
            let message = crate::model::appended(
                "could not parse PostgreSQL CA certificate: ",
                message.as_str(),
            );
            return Err(invalid(message.as_str()));
        },
        Ok(list) => list,
    };
    let ghost all = certificates(list@);
    if list.len() == 0 {
        return Err(invalid("PostgreSQL CA certificate credential contains no certificates"));
    }
    let mut refusal: Option<String> = None;
    let mut i: usize = 0;
    assert(all.subrange(0, all.len() as int) =~= all);
    while i < list.len() && refusal.is_none()
        invariant
            i <= list@.len(),
            all == certificates(list@),
            refusal is None ==> roots_refusal(all) == roots_refusal(
                all.subrange(i as int, all.len() as int),
            ),
            refusal is Some ==> optional_text(refusal) == roots_refusal(all),
        decreases list@.len() - i,
    {
        let ghost rest = all.subrange(i as int, all.len() as int);
        assert(rest[0] == list@[i as int]@);
        assert(rest.subrange(1, rest.len() as int) =~= all.subrange(i + 1, all.len() as int));
        refusal = refuse_root(&list[i]);
        i = i + 1;
    }
    match refusal {
        Some(message) => {
            let message = crate::model::appended(
                "invalid PostgreSQL CA certificate: ",
                message.as_str(),
            );
            Err(invalid(message.as_str()))
        },
        None => Ok(list),
    }
}

/// Reads the client's identity.
fn read_identity(certificate: &str, key: &str) -> (result: Result<
    (Vec<Vec<u8>>, PrivateKey),
    ConnectorError,
>)
    ensures
        match (result, identity_result(certificate@, key@)) {
            (Ok(identity), Ok(wanted)) => (certificates(identity.0@), identity.1@) == wanted,
            (Err(error), Err(wanted)) => error@ == wanted,
            _ => false,
        },
{
    let list = match read_certificates(certificate) {
        Err(message) => {
            let message = crate::model::appended(
                "could not parse PostgreSQL client certificate: ",
                message.as_str(),
            );
            return Err(invalid(message.as_str()));
        },
        Ok(list) => list,
    };
    assert(certificates(list@).len() == list@.len());
    if list.len() == 0 {
        return Err(
            invalid("PostgreSQL client certificate credential contains no certificates"),
        );
    }
    let key = match read_private_key(key) {
        Err(message) => {
            let message = crate::model::appended(
                "could not parse PostgreSQL client key: ",
                message.as_str(),
            );
            return Err(invalid(message.as_str()));
        },
        Ok(None) => {
            return Err(invalid("PostgreSQL private key credential contains no private key"));
        },
        Ok(Some(key)) => key,
    };
    match refuse_identity(&list, &key) {
        Some(message) => {
            let message = crate::model::appended(
                "invalid PostgreSQL client identity: ",
                message.as_str(),
            );
            Err(invalid(message.as_str()))
        },
        None => Ok((list, key)),
    }
}

/// Decides how TLS is set up. References in the profile name credential fields, never files.
pub fn build_tls_config(profile: &ConnectionProfile, secret: &SecretMaterial) -> (result: Result<
    PgTls,
    ConnectorError,
>)
    ensures
        match (result, tls_config_result(*profile, secret.fields@)) {
            (Ok(tls), Ok(wanted)) => tls@ == wanted,
            (Err(error), Err(wanted)) => error@ == wanted,
            _ => false,
        },
{
    let plan = build_tls_plan("PostgreSQL", profile, secret);
    let ca = match &profile.tls.ca_certificate_ref {
        None => None,
        Some(reference) => {
            let ca_names: [&str; 1] = ["ca_certificate_pem"];
            assert(crate::text::names_of(ca_names@) =~= seq!["ca_certificate_pem"@]);
            match crate::secret::tls_secret_value(secret, Some(reference.as_str()), &ca_names) {
                None => {
                    return Err(
                        crate::sql::mysql_options::missing_tls_secret(
                            "PostgreSQL",
                            "the field referenced by tls.ca_certificate_ref or ca_certificate_pem",
                        ),
                    );
                },
                Some(text) => Some(text.to_owned()),
            }
        },
    };
    let roots = match read_roots(&ca) {
        Err(error) => {
            return Err(error);
        },
        Ok(roots) => roots,
    };
    let plan = match plan {
        Err(error) => {
            return Err(error);
        },
        Ok(plan) => plan,
    };
    match &plan.client_identity {
        None => Ok(PgTls { roots, identity: None }),
        Some((certificate, key)) => match read_identity(certificate.as_str(), key.as_str()) {
            Err(error) => Err(error),
            Ok(identity) => Ok(PgTls { roots, identity: Some(identity) }),
        },
    }
}

/// Credential fields that no reference of the profile leads to have no effect on TLS.
pub proof fn lemma_unreferenced_fields_have_no_effect(
    profile: ConnectionProfile,
    fields: Seq<(Seq<char>, Seq<char>)>,
)
    requires
        profile.tls.ca_certificate_ref is None,
        profile.tls.client_certificate_ref is None,
    ensures
        tls_config_result(profile, fields) == Ok::<PgTlsModel, ErrorModel>(
            PgTlsModel { roots: Seq::empty(), identity: None },
        ),
        tls_result("MySQL"@, profile, fields) == Ok::<TlsModel, ErrorModel>(
            TlsModel {
                ca_certificate: None,
                server_name: optional_text(profile.tls.server_name),
                client_identity: None,
            },
        ),
{
}

} // verus!
