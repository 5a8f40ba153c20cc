//! Limits and checks that all relational connectors share.
use crate::budget::{larger, smaller};
use crate::model::{
    failure, field_named, framed, invalid, invalid_request, is_str_result, AuthKind,
    ConnectionProfile, ConnectorContext, ConnectorError, ErrorCategory, ErrorModel, SecretMaterial,
};
use vstd::prelude::*;

verus! {

/// What a required credential field gives: the text under `name`, where it is not empty.
pub open spec fn secret_result(fields: Seq<(Seq<char>, Seq<char>)>, name: Seq<char>) -> Result<
    Seq<char>,
    ErrorModel,
> {
    match field_named(fields, name) {
        Some(content) if content.len() > 0 => Ok(content),
        _ => Err(
            failure(
                ErrorCategory::Authentication,
                "credential field `"@ + name + "` is required"@,
            ),
        ),
    }
}

/// A credential field that must be there and not be empty.
pub fn required_secret<'a>(secret: &'a SecretMaterial, name: &str) -> (result: Result<
    &'a str,
    ConnectorError,
>)
    ensures
        is_str_result(result, secret_result(secret.fields@, name@)),
{
    match secret.fields.get(name) {
        Some(content) => {
            if !content.is_empty() {
                return Ok(content);
            }
        },
        None => {},
    }
    let message = framed("credential field `", name, "` is required");
    Err(ConnectorError::new(ErrorCategory::Authentication, message.as_str()))
}

/// How long an operation may take, in nanoseconds: what is left until the deadline, the
/// connection's timeout and the requested one, whichever is shortest; the latter two at least one
/// millisecond. Nothing is left where the deadline has passed.
pub open spec fn timeout_result(
    remaining_nanos: Option<u128>,
    configured_ms: u64,
    requested_ms: Option<u64>,
) -> Result<int, ErrorModel> {
    match remaining_nanos {
        None => Err(failure(ErrorCategory::Timeout, "request deadline exceeded"@)),
        Some(remaining) => Ok(
            smaller(
                smaller(remaining as int, larger(configured_ms as int, 1) * 1_000_000),
                match requested_ms {
                    Some(requested) => larger(requested as int, 1) * 1_000_000,
                    None => u64::MAX * 1_000_000,
                },
            ),
        ),
    }
}

/// How long an operation may take, in nanoseconds.
pub fn effective_timeout(
    remaining_nanos: Option<u128>,
    profile: &ConnectionProfile,
    requested_ms: Option<u64>,
) -> (result: Result<u128, ConnectorError>)
    ensures
        match (
            result,
            timeout_result(remaining_nanos, profile.policy.timeout_ms, requested_ms),
        ) {
            (Ok(nanos), Ok(wanted)) => nanos == wanted,
            (Err(error), Err(wanted)) => error@ == wanted,
            _ => false,
        },
{
    let remaining: u128 = match remaining_nanos {
        None => {
            return Err(ConnectorError::new(ErrorCategory::Timeout, "request deadline exceeded"));
        },
        Some(remaining) => remaining,
    };
    let configured_ms: u64 = if profile.policy.timeout_ms >= 1 {
        profile.policy.timeout_ms
    } else {
        1
    };
    let requested_ms: u64 = match requested_ms {
        Some(requested) => if requested >= 1 {
            requested
        } else {
            1
        },
        None => u64::MAX,
    };
    let configured: u128 = configured_ms as u128 * 1_000_000;
    let requested: u128 = requested_ms as u128 * 1_000_000;
    let shortest: u128 = if remaining <= configured {
        remaining
    } else {
        configured
    };
    Ok(
        if shortest <= requested {
            shortest
        } else {
            requested
        },
    )
}

/// How many rows may be returned.
pub open spec fn row_limit_result(
    context: ConnectorContext,
    profile: ConnectionProfile,
    requested: u32,
) -> Result<int, ErrorModel> {
    if requested == 0 {
        Err(invalid_request("limit must be greater than zero"@))
    } else {
        Ok(
            smaller(
                smaller(requested as int, context.max_rows as int),
                profile.policy.max_rows as int,
            ),
        )
    }
}

/// How many rows may be returned.
pub fn effective_row_limit(
    context: &ConnectorContext,
    profile: &ConnectionProfile,
    requested: u32,
) -> (result: Result<u32, ConnectorError>)
    ensures
        match (result, row_limit_result(*context, *profile, requested)) {
            (Ok(limit), Ok(wanted)) => limit == wanted,
            (Err(error), Err(wanted)) => error@ == wanted,
            _ => false,
        },
{
    if requested == 0 {
        return Err(invalid("limit must be greater than zero"));
    }
    let bounded: u32 = if requested <= context.max_rows {
        requested
    } else {
        context.max_rows
    };
    Ok(
        if bounded <= profile.policy.max_rows {
            bounded
        } else {
            profile.policy.max_rows
        },
    )
}

/// How many records a write may affect.
pub open spec fn write_limit_result(profile: ConnectionProfile, requested: u64) -> Result<
    int,
    ErrorModel,
> {
    if requested == 0 {
        Err(invalid_request("max_affected must be greater than zero"@))
    } else {
        Ok(smaller(requested as int, profile.policy.max_affected as int))
    }
}

/// How many records a write may affect.
pub fn effective_write_limit(profile: &ConnectionProfile, requested: u64) -> (result: Result<
    u64,
    ConnectorError,
>)
    ensures
        match (result, write_limit_result(*profile, requested)) {
            (Ok(limit), Ok(wanted)) => limit == wanted,
            (Err(error), Err(wanted)) => error@ == wanted,
            _ => false,
        },
{
    if requested == 0 {
        return Err(invalid("max_affected must be greater than zero"));
    }
    Ok(
        if requested <= profile.policy.max_affected {
            requested
        } else {
            profile.policy.max_affected
        },
    )
}

/// The error of credentials that are not of the profile's kind.
pub open spec fn auth_error(profile: ConnectionProfile, kind: AuthKind) -> Option<ErrorModel> {
    if profile.auth_kind != kind {
        Some(
            failure(
                ErrorCategory::Authentication,
                "credential kind does not match the saved connection profile"@,
            ),
        )
    } else {
        None
    }
}

/// Refuses credentials that are not of the profile's kind.
pub fn validate_auth(profile: &ConnectionProfile, secret: &SecretMaterial) -> (result: Result<
    (),
    ConnectorError,
>)
    ensures
        crate::model::error_of(result) == auth_error(*profile, secret.kind),
{
    if profile.auth_kind != secret.kind {
        return Err(
            ConnectorError::new(
                ErrorCategory::Authentication,
                "credential kind does not match the saved connection profile",
            ),
        );
    }
    Ok(())
}

/// The error of TLS without certificate verification.
pub open spec fn tls_error(profile: ConnectionProfile) -> Option<ErrorModel> {
    if profile.tls.enabled && !profile.tls.verify_server_certificate {
        Some(invalid_request("TLS server certificate verification cannot be disabled"@))
    } else {
        None
    }
}

/// Refuses TLS without certificate verification.
pub fn validate_tls(profile: &ConnectionProfile) -> (result: Result<(), ConnectorError>)
    ensures
        crate::model::error_of(result) == tls_error(*profile),
{
    if profile.tls.enabled && !profile.tls.verify_server_certificate {
        return Err(invalid("TLS server certificate verification cannot be disabled"));
    }
    Ok(())
}

/// No limit admits more than the policy of the connection allows.
pub proof fn lemma_limits_stay_within_policy(
    context: ConnectorContext,
    profile: ConnectionProfile,
    rows: u32,
    affected: u64,
)
    ensures
        row_limit_result(context, profile, rows) matches Ok(limit) ==> limit
            <= profile.policy.max_rows && limit <= context.max_rows && limit <= rows,
        write_limit_result(profile, affected) matches Ok(limit) ==> limit
            <= profile.policy.max_affected && limit <= affected,
{
}

} // verus!
