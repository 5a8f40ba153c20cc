//! Writes that are kept only where they affect no more rows than they may.
use crate::model::{
    is_result_of, ConnectorContext, ConnectorError, ErrorModel, OperationResult, ResultModel,
};
use crate::sql::outcome::{write_outcome, write_result};
use crate::sql::plan::{check_affected, excess_error, SqlProduct};
use vstd::prelude::*;

verus! {

/// What is done with a transaction once its write was carried out.
#[derive(Debug, Clone, Copy, PartialEq, Eq, Structural)]
pub enum WriteStep {
    Commit,
    Rollback,
}

/// What is done with a transaction whose write affected a number of rows.
pub open spec fn step_after(affected: u64, limit: u64) -> WriteStep {
    if affected <= limit {
        WriteStep::Commit
    } else {
        WriteStep::Rollback
    }
}

/// What is done with a transaction whose write affected a number of rows.
pub fn after_write(affected: u64, limit: u64) -> (result: WriteStep)
    ensures
        result == step_after(affected, limit),
{
    if affected <= limit {
        WriteStep::Commit
    } else {
        WriteStep::Rollback
    }
}

/// The result of a transaction: of a commit what was written, of a roll-back the error of too many
/// rows; and of either its own failure.
pub open spec fn transaction_result(
    product: SqlProduct,
    context: ConnectorContext,
    elapsed_ms: u64,
    affected: u64,
    limit: u64,
    failed: Option<ErrorModel>,
) -> Result<ResultModel, ErrorModel> {
    match failed {
        Some(error) => Err(error),
        None => match excess_error(product, affected, limit) {
            Some(error) => Err(error),
            None => Ok(write_outcome(context, elapsed_ms, affected)),
        },
    }
}

/// The result of a transaction once its commit or its roll-back is answered.
pub fn finish_transaction(
    product: SqlProduct,
    context: &ConnectorContext,
    elapsed_ms: u64,
    affected: u64,
    limit: u64,
    failed: Option<ConnectorError>,
) -> (result: Result<OperationResult, ConnectorError>)
    ensures
        is_result_of(
            result,
            transaction_result(
                product,
                *context,
                elapsed_ms,
                affected,
                limit,
                match failed {
                    Some(error) => Some(error@),
                    None => None,
                },
            ),
        ),
{
    match failed {
        Some(error) => {
            return Err(error);
        },
        None => {},
    }
    match check_affected(product, affected, limit) {
        Err(error) => Err(error),
        Ok(()) => Ok(write_result(context, elapsed_ms, affected)),
    }
}

/// A write is reported as done only where it was committed, which it is only where it affected no
/// more rows than it may.
pub proof fn lemma_only_committed_writes_succeed(
    product: SqlProduct,
    context: ConnectorContext,
    elapsed_ms: u64,
    affected: u64,
    limit: u64,
    failed: Option<ErrorModel>,
)
    ensures
        transaction_result(product, context, elapsed_ms, affected, limit, failed) matches Ok(result)
            ==> {
            &&& step_after(affected, limit) == WriteStep::Commit
            &&& affected <= limit
            &&& failed is None
            &&& result.metrics.affected == affected
        },
{
}

} // verus!
