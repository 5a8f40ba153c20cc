//! What is returned of an operation.
use crate::budget::{array_bytes, capped, count_fitting, fitting, kept_count, lemma_fitting, total};
use crate::model::{
    ConnectorContext, ErrorModel, OperationResult, ResultMetrics, ResultModel, WriteOutcome,
};
use crate::sql::cursor::{encode_offset, offset_cursor, offset_result};
use crate::value::{records, DbRecord, RecordModel};
use vstd::prelude::*;

verus! {

broadcast use {crate::text::group_texts, crate::value::group_models};

/// Keeps as many of the first records as the limits admit: at most `row_limit`, with encoded
/// sizes that fit into `max_bytes` together. Says whether some were left out.
pub fn truncate_records(
    list: &mut Vec<DbRecord>,
    sizes: &Vec<u64>,
    row_limit: usize,
    max_bytes: u64,
) -> (truncated: bool)
    requires
        sizes@.len() == old(list)@.len(),
    ensures
        records(final(list)@) == records(old(list)@).subrange(
            0,
            kept_count(sizes@, row_limit as nat, max_bytes) as int,
        ),
        truncated == (kept_count(sizes@, row_limit as nat, max_bytes) < old(list)@.len()),
{
    let (keep, _): (usize, u64) = count_fitting(sizes, row_limit, max_bytes);
    let truncated = keep < list.len();
    let ghost before = records(list@);
    list.truncate(keep);
    assert(records(list@) =~= before.subrange(0, keep as int));
    truncated
}

/// The result of a read: the records that the limits admit and, where some were left out, the
/// cursor of the first of those.
pub open spec fn read_outcome(
    context: ConnectorContext,
    elapsed_ms: u64,
    rows: Seq<RecordModel>,
    sizes: Seq<u64>,
    row_limit: Option<usize>,
    base_offset: Option<u64>,
    more: bool,
) -> ResultModel {
    let limit = match row_limit {
        Some(limit) => limit as nat,
        None => context.max_rows as nat,
    };
    let kept = kept_count(sizes, limit, context.max_bytes);
    let truncated = more || kept < rows.len();
    ResultModel {
        request_id: context.request_id@,
        records: rows.subrange(0, kept as int),
        next_cursor: match base_offset {
            Some(offset) if truncated => Some(offset_cursor(capped(offset as nat + kept))),
            _ => None,
        },
        truncated,
        warnings: Seq::empty(),
        metrics: ResultMetrics {
            elapsed_ms,
            returned: kept as u64,
            affected: 0,
            scanned: None,
            bytes: Some(array_bytes(sizes.subrange(0, kept as int))),
        },
        outcome: WriteOutcome::NotApplicable,
    }
}

/// Makes the result of a read of the rows that a query returned, whose encoded sizes are given.
/// `more` says that the driver holds further rows. The cursor is read back as the offset of the
/// first row that was left out.
pub fn finish_read(
    context: &ConnectorContext,
    elapsed_ms: u64,
    rows: Vec<DbRecord>,
    sizes: &Vec<u64>,
    row_limit: Option<usize>,
    base_offset: Option<u64>,
    more: bool,
) -> (result: OperationResult)
    requires
        sizes@.len() == rows@.len(),
    ensures
        result@ == read_outcome(
            *context,
            elapsed_ms,
            records(rows@),
            sizes@,
            row_limit,
            base_offset,
            more,
        ),
        result.next_cursor matches Some(cursor) ==> base_offset is Some && offset_result(
            Some(cursor@),
        ) == Ok::<u64, ErrorModel>(
            capped(base_offset->0 as nat + result.records@.len()),
        ),
{
    let limit: usize = match row_limit {
        Some(limit) => limit,
        None => context.max_rows as usize,
    };
    let mut list = rows;
    let (keep, used): (usize, u64) = count_fitting(sizes, limit, context.max_bytes);
    let cut = truncate_records(&mut list, sizes, limit, context.max_bytes);
    assert(records(list@).len() == keep);
    let truncated = more || cut;
    let next_cursor = match base_offset {
        Some(offset) => {
            if truncated {
                Some(encode_offset(offset.saturating_add(keep as u64)))
            } else {
                None
            }
        },
        None => None,
    };
    let commas: u64 = if keep > 0 {
        keep as u64 - 1
    } else {
        0
    };
    let bytes: u64 = used.saturating_add(2).saturating_add(commas);
    OperationResult {
        request_id: context.request_id.clone(),
        records: list,
        next_cursor,
        truncated,
        warnings: Vec::new(),
        metrics: ResultMetrics {
            elapsed_ms,
            returned: keep as u64,
            affected: 0,
            scanned: None,
            bytes: Some(bytes),
        },
        outcome: WriteOutcome::NotApplicable,
    }
}

/// The result of a write.
pub open spec fn write_outcome(context: ConnectorContext, elapsed_ms: u64, affected: u64) -> ResultModel {
    ResultModel {
        request_id: context.request_id@,
        records: Seq::empty(),
        next_cursor: None,
        truncated: false,
        warnings: Seq::empty(),
        metrics: ResultMetrics {
            elapsed_ms,
            returned: 0,
            affected,
            scanned: None,
            bytes: None,
        },
        outcome: WriteOutcome::Succeeded,
    }
}

/// Makes the result of a write.
pub fn write_result(context: &ConnectorContext, elapsed_ms: u64, affected: u64) -> (result:
    OperationResult)
    ensures
        result@ == write_outcome(*context, elapsed_ms, affected),
{
    OperationResult {
        request_id: context.request_id.clone(),
        records: Vec::new(),
        next_cursor: None,
        truncated: false,
        warnings: Vec::new(),
        metrics: ResultMetrics {
            elapsed_ms,
            returned: 0,
            affected,
            scanned: None,
            bytes: None,
        },
        outcome: WriteOutcome::Succeeded,
    }
}

/// A read never returns more rows or bytes than its limits admit, and says so where it left out
/// any: following its cursor goes on with the first row that was left out.
pub proof fn lemma_reads_stay_within_limits(
    context: ConnectorContext,
    elapsed_ms: u64,
    rows: Seq<RecordModel>,
    sizes: Seq<u64>,
    row_limit: usize,
    base_offset: u64,
)
    requires
        sizes.len() == rows.len(),
        base_offset + rows.len() <= u64::MAX,
    ensures
        ({
            let outcome = read_outcome(
                context,
                elapsed_ms,
                rows,
                sizes,
                Some(row_limit),
                Some(base_offset),
                false,
            );
            let kept = outcome.records.len();
            &&& kept <= row_limit
            &&& total(sizes.subrange(0, kept as int)) <= context.max_bytes || context.max_bytes
                == u64::MAX
            &&& outcome.records == rows.subrange(0, kept as int)
            &&& outcome.truncated <==> kept < rows.len()
            &&& outcome.next_cursor == (if kept < rows.len() {
                Some(offset_cursor((base_offset + kept) as u64))
            } else {
                None
            })
        }),
{
    let bound = if row_limit <= sizes.len() {
        row_limit as int
    } else {
        sizes.len() as int
    };
    let shown = sizes.subrange(0, bound);
    lemma_fitting(shown, context.max_bytes);
    let kept = fitting(shown, context.max_bytes);
    assert(shown.subrange(0, kept as int) =~= sizes.subrange(0, kept as int));
}

} // verus!
