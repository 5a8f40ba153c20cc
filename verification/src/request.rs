//! Requests that are running, and the errors of those that were interrupted.
use crate::model::{failure, ConnectorError, DataOperation, ErrorCategory, ErrorModel};
use crate::text::same;
use vstd::prelude::*;
use vstd::string::StringExecFns;

verus! {

/// The requests that are running, each under its own request id.
#[derive(Debug)]
pub struct ActiveRequests {
    calls: Vec<(String, u64)>,
    next_call: u64,
}

/// The calls by request id.
pub open spec fn calls_by_id(calls: Seq<(Seq<char>, u64)>) -> Map<Seq<char>, u64>
    decreases calls.len(),
{
    if calls.len() == 0 {
        Map::empty()
    } else {
        calls_by_id(calls.drop_last()).insert(calls.last().0, calls.last().1)
    }
}

/// What entries of running requests are.
pub open spec fn call_entries(calls: Seq<(String, u64)>) -> Seq<(Seq<char>, u64)> {
    Seq::new(calls.len(), |i: int| (calls[i].0@, calls[i].1))
}

/// Whether no request id stands twice.
pub open spec fn distinct_ids(calls: Seq<(Seq<char>, u64)>) -> bool {
    forall|i: int, j: int|
        0 <= i < j < calls.len() ==> (#[trigger] calls[i]).0 != (#[trigger] calls[j]).0
}

/// Whether no call stands twice.
pub open spec fn distinct_calls(calls: Seq<(Seq<char>, u64)>) -> bool {
    forall|i: int, j: int|
        0 <= i < j < calls.len() ==> (#[trigger] calls[i]).1 != (#[trigger] calls[j]).1
}

/// Whether a request runs under a call.
pub open spec fn is_taken(calls: Map<Seq<char>, u64>, call: u64) -> bool {
    exists|id: Seq<char>| #[trigger] calls.contains_key(id) && calls[id] == call
}

/// Whether no two requests run under one call.
pub open spec fn no_call_is_shared(calls: Map<Seq<char>, u64>) -> bool {
    forall|a: Seq<char>, b: Seq<char>|
        #[trigger] calls.contains_key(a) && #[trigger] calls.contains_key(b) && calls[a] == calls[b]
            ==> a == b
}

/// The number some steps after another one; zero comes after the last.
pub open spec fn number_after(number: u64, steps: nat) -> u64 {
    if number + steps <= u64::MAX {
        (number + steps) as u64
    } else {
        (number + steps - u64::MAX - 1) as u64
    }
}

/// Whether a call is the first one from a number on under which no request runs.
pub open spec fn is_first_free(calls: Map<Seq<char>, u64>, next: u64, call: u64) -> bool {
    exists|steps: nat|
        {
            &&& steps <= u64::MAX
            &&& #[trigger] number_after(next, steps) == call
            &&& !is_taken(calls, call)
            &&& forall|before: nat|
                before < steps ==> is_taken(calls, #[trigger] number_after(next, before))
        }
}

/// The requests that run after a call has ended: its request id is free again, unless another call
/// runs under it.
pub open spec fn ended(calls: Map<Seq<char>, u64>, request_id: Seq<char>, call: u64) -> Map<
    Seq<char>,
    u64,
> {
    if calls.contains_key(request_id) && calls[request_id] == call {
        calls.remove(request_id)
    } else {
        calls
    }
}

/// Two requests that run have calls of their own. So what is cancelled by the call of one request
/// id ends no other run; the id is free again when its call has ended, and all others run on.
pub proof fn lemma_cancelling_ends_no_other_run(
    calls: Map<Seq<char>, u64>,
    cancelled: Seq<char>,
    other: Seq<char>,
)
    requires
        no_call_is_shared(calls),
        calls.contains_key(cancelled),
        calls.contains_key(other),
        cancelled != other,
    ensures
        calls[cancelled] != calls[other],
        ended(calls, other, calls[cancelled]) == calls,
        ({
            let rest = ended(calls, cancelled, calls[cancelled]);
            &&& !rest.contains_key(cancelled)
            &&& !is_taken(rest, calls[cancelled])
            &&& rest.contains_key(other) && rest[other] == calls[other]
            &&& no_call_is_shared(rest)
        }),
{
}

/// A request id is running exactly where it has an entry, under the entry's call.
proof fn lemma_calls_by_id(calls: Seq<(Seq<char>, u64)>, index: int)
    requires
        distinct_ids(calls),
        0 <= index < calls.len(),
    ensures
        calls_by_id(calls).contains_key(calls[index].0),
        calls_by_id(calls)[calls[index].0] == calls[index].1,
    decreases calls.len(),
{
    if index < calls.len() - 1 {
        let shorter = calls.drop_last();
        assert(forall|i: int| 0 <= i < shorter.len() ==> #[trigger] shorter[i] == calls[i]);
        lemma_calls_by_id(shorter, index);
        assert(calls[index].0 != calls[calls.len() - 1].0);
    }
}

/// A request id without an entry is not running.
proof fn lemma_not_among_calls(calls: Seq<(Seq<char>, u64)>, id: Seq<char>)
    requires
        forall|i: int| 0 <= i < calls.len() ==> (#[trigger] calls[i]).0 != id,
    ensures
        !calls_by_id(calls).contains_key(id),
    decreases calls.len(),
{
    if calls.len() > 0 {
        let shorter = calls.drop_last();
        assert(forall|i: int| 0 <= i < shorter.len() ==> #[trigger] shorter[i] == calls[i]);
        lemma_not_among_calls(shorter, id);
        assert(calls[calls.len() - 1].0 != id);
    }
}

/// Without an entry, its request id is no longer running and all others are.
proof fn lemma_calls_without(calls: Seq<(Seq<char>, u64)>, index: int)
    requires
        distinct_ids(calls),
        0 <= index < calls.len(),
    ensures
        calls_by_id(calls.remove(index)) == calls_by_id(calls).remove(calls[index].0),
        distinct_ids(calls.remove(index)),
        distinct_calls(calls) ==> distinct_calls(calls.remove(index)),
    decreases calls.len(),
{
    let removed = calls.remove(index);
    assert forall|i: int, j: int| 0 <= i < j < removed.len() implies (#[trigger] removed[i]).0 != (
    #[trigger] removed[j]).0 && (distinct_calls(calls) ==> removed[i].1 != removed[j].1) by {
        let a = if i < index {
            i
        } else {
            i + 1
        };
        let b = if j < index {
            j
        } else {
            j + 1
        };
        assert(removed[i] == calls[a] && removed[j] == calls[b]);
    }
    let shorter = calls.drop_last();
    assert(forall|i: int| 0 <= i < shorter.len() ==> #[trigger] shorter[i] == calls[i]);
    if index == calls.len() - 1 {
        assert(removed =~= shorter);
        lemma_not_among_calls(shorter, calls[index].0);
        assert(calls_by_id(calls).remove(calls[index].0) =~= calls_by_id(shorter));
    } else {
        lemma_calls_without(shorter, index);
        assert(removed.drop_last() =~= shorter.remove(index));
        assert(removed.last() == calls.last());
        assert(calls[index].0 != calls[calls.len() - 1].0);
        assert(calls_by_id(removed) =~= calls_by_id(calls).remove(calls[index].0));
    }
}

/// The calls that are taken are those of the entries.
proof fn lemma_taken(calls: Seq<(Seq<char>, u64)>, call: u64)
    requires
        distinct_ids(calls),
    ensures
        is_taken(calls_by_id(calls), call) <==> exists|i: int|
            0 <= i < calls.len() && (#[trigger] calls[i]).1 == call,
{
    if is_taken(calls_by_id(calls), call) {
        let id = choose|id: Seq<char>| #[trigger]
            calls_by_id(calls).contains_key(id) && calls_by_id(calls)[id] == call;
        if forall|i: int| 0 <= i < calls.len() ==> (#[trigger] calls[i]).0 != id {
            lemma_not_among_calls(calls, id);
        }
        let i = choose|i: int| 0 <= i < calls.len() && (#[trigger] calls[i]).0 == id;
        lemma_calls_by_id(calls, i);
        assert(calls[i].1 == call);
    }
    if exists|i: int| 0 <= i < calls.len() && (#[trigger] calls[i]).1 == call {
        let i = choose|i: int| 0 <= i < calls.len() && (#[trigger] calls[i]).1 == call;
        lemma_calls_by_id(calls, i);
        assert(calls_by_id(calls).contains_key(calls[i].0));
    }
}

/// Where no call stands twice, none is shared.
proof fn lemma_calls_are_apart(calls: Seq<(Seq<char>, u64)>)
    requires
        distinct_ids(calls),
        distinct_calls(calls),
    ensures
        no_call_is_shared(calls_by_id(calls)),
{
    let by_id = calls_by_id(calls);
    assert forall|a: Seq<char>, b: Seq<char>| #[trigger]
        by_id.contains_key(a) && #[trigger] by_id.contains_key(b) && by_id[a] == by_id[b] implies a
        == b by {
        if forall|i: int| 0 <= i < calls.len() ==> (#[trigger] calls[i]).0 != a {
            lemma_not_among_calls(calls, a);
        }
        if forall|i: int| 0 <= i < calls.len() ==> (#[trigger] calls[i]).0 != b {
            lemma_not_among_calls(calls, b);
        }
        let i = choose|i: int| 0 <= i < calls.len() && (#[trigger] calls[i]).0 == a;
        let j = choose|j: int| 0 <= j < calls.len() && (#[trigger] calls[j]).0 == b;
        lemma_calls_by_id(calls, i);
        lemma_calls_by_id(calls, j);
    }
}

/// Of so many numbers in a row that all are taken, there are no more than requests.
proof fn lemma_taken_in_a_row(calls: Seq<(Seq<char>, u64)>, next: u64, steps: nat)
    requires
        distinct_ids(calls),
        steps <= u64::MAX + 1,
        forall|before: nat|
            before < steps ==> is_taken(calls_by_id(calls), #[trigger] number_after(next, before)),
    ensures
        steps <= calls.len(),
{
    let row = Seq::new(steps, |i: int| number_after(next, i as nat));
    let numbers = Seq::new(calls.len(), |i: int| calls[i].1);
    assert forall|i: int, j: int| 0 <= i < row.len() && 0 <= j < row.len() && i != j implies row[i]
        != row[j] by {
        assert(row[i] == number_after(next, i as nat) && row[j] == number_after(next, j as nat));
    }
    assert forall|call: u64| row.to_set().contains(call) implies numbers.to_set().contains(call) by {
        let i = choose|i: int| 0 <= i < row.len() && row[i] == call;
        assert(is_taken(calls_by_id(calls), number_after(next, i as nat)));
        lemma_taken(calls, call);
        let k = choose|k: int| 0 <= k < calls.len() && (#[trigger] calls[k]).1 == call;
        assert(numbers[k] == call);
    }
    row.unique_seq_to_set();
    numbers.lemma_cardinality_of_set();
    vstd::seq_lib::seq_to_set_is_finite(numbers);
    vstd::set_lib::lemma_len_subset(row.to_set(), numbers.to_set());
}

/// The error of a second request under an id that is running.
pub open spec fn duplicate_request() -> ErrorModel {
    failure(ErrorCategory::Conflict, "a request with this request_id is already running"@)
}

impl View for ActiveRequests {
    type V = Map<Seq<char>, u64>;

    closed spec fn view(&self) -> Map<Seq<char>, u64> {
        calls_by_id(call_entries(self.calls@))
    }
}

impl ActiveRequests {
    /// No request id and no call stands twice.
    #[verifier::type_invariant]
    spec fn distinct(self) -> bool {
        &&& distinct_ids(call_entries(self.calls@))
        &&& distinct_calls(call_entries(self.calls@))
    }

    /// The number from which the next call is sought.
    pub closed spec fn next(&self) -> u64 {
        self.next_call
    }

    /// No request is running.
    pub fn new() -> (result: ActiveRequests)
        ensures
            result@ == Map::<Seq<char>, u64>::empty(),
            result.next() == 1,
    {
        let result = ActiveRequests { calls: Vec::new(), next_call: 1 };
        assert(call_entries(result.calls@) =~= Seq::<(Seq<char>, u64)>::empty());
        result
    }

    /// The call that is running under a request id.
    pub fn find(&self, request_id: &str) -> (result: Option<u64>)
        ensures
            match result {
                Some(call) => self@.contains_key(request_id@) && self@[request_id@] == call,
                None => !self@.contains_key(request_id@),
            },
            no_call_is_shared(self@),
    {
        proof {
            use_type_invariant(self);
            lemma_calls_are_apart(call_entries(self.calls@));
        }
        let ghost entries = call_entries(self.calls@);
        let mut i: usize = 0;
        while i < self.calls.len()
            invariant
                i <= self.calls@.len(),
                entries == call_entries(self.calls@),
                distinct_ids(entries),
                self@ == calls_by_id(entries),
                no_call_is_shared(self@),
                forall|j: int| 0 <= j < i ==> (#[trigger] entries[j]).0 != request_id@,
            decreases self.calls@.len() - i,
        {
            assert(entries[i as int] == (self.calls@[i as int].0@, self.calls@[i as int].1));
            if same(self.calls[i].0.as_str(), request_id) {
                proof {
                    lemma_calls_by_id(entries, i as int);
                }
                return Some(self.calls[i].1);
            }
            i = i + 1;
        }
        proof {
            lemma_not_among_calls(entries, request_id@);
        }
        None
    }

    /// Whether a request runs under a call.
    fn takes(&self, call: u64) -> (result: bool)
        ensures
            result == is_taken(self@, call),
    {
        proof {
            use_type_invariant(self);
            lemma_taken(call_entries(self.calls@), call);
        }
        let ghost entries = call_entries(self.calls@);
        let mut i: usize = 0;
        while i < self.calls.len()
            invariant
                i <= self.calls@.len(),
                entries == call_entries(self.calls@),
                is_taken(self@, call) <==> exists|k: int|
                    0 <= k < entries.len() && (#[trigger] entries[k]).1 == call,
                forall|j: int| 0 <= j < i ==> (#[trigger] entries[j]).1 != call,
            decreases self.calls@.len() - i,
        {
            assert(entries[i as int].1 == self.calls@[i as int].1);
            if self.calls[i].1 == call {
                return true;
            }
            i = i + 1;
        }
        false
    }

    /// The first call from a number on under which no request runs.
    fn free_call(&self) -> (result: u64)
        ensures
            is_first_free(self@, self.next(), result),
    {
        proof {
            use_type_invariant(self);
        }
        let ghost entries = call_entries(self.calls@);
        let ghost mut steps: nat = 0;
        let mut call: u64 = self.next_call;
        let count: usize = self.calls.len();
        while self.takes(call)
            invariant
                entries == call_entries(self.calls@),
                distinct_ids(entries),
                self@ == calls_by_id(entries),
                count == entries.len(),
                steps <= count,
                call == number_after(self.next_call, steps),
                forall|before: nat|
                    before < steps ==> is_taken(
                        self@,
                        #[trigger] number_after(self.next_call, before),
                    ),
            decreases count - steps,
        {
            call = call.wrapping_add(1);
            proof {
                steps = steps + 1;
                lemma_taken_in_a_row(entries, self.next_call, steps);
            }
        }
        call
    }

    /// Starts a request: refused where its id is running, without any effect on the one that runs.
    /// It gets a call of its own.
    pub fn begin(&mut self, request_id: &str) -> (result: Result<u64, ConnectorError>)
        ensures
            match result {
                Ok(call) => {
                    &&& !old(self)@.contains_key(request_id@)
                    &&& is_first_free(old(self)@, old(self).next(), call)
                    &&& final(self)@ == old(self)@.insert(request_id@, call)
                    &&& final(self).next() == number_after(call, 1)
                },
                Err(error) => {
                    &&& old(self)@.contains_key(request_id@)
                    &&& error@ == duplicate_request()
                    &&& final(self)@ == old(self)@
                    &&& final(self).next() == number_after(old(self).next(), 1)
                },
            },
            no_call_is_shared(final(self)@),
    {
        proof {
            use_type_invariant(&*self);
            lemma_calls_are_apart(call_entries(self.calls@));
        }
        let ghost initial = self@;
        if self.find(request_id).is_some() {
            self.next_call = self.next_call.wrapping_add(1);
            assert(self@ == initial);
            return Err(
                ConnectorError::new(
                    ErrorCategory::Conflict,
                    "a request with this request_id is already running",
                ),
            );
        }
        let call: u64 = self.free_call();
        self.next_call = call.wrapping_add(1);
        assert(self@ == initial);
        let ghost entries = call_entries(self.calls@);
        let mut calls: Vec<(String, u64)> = Vec::new();
        std::mem::swap(&mut calls, &mut self.calls);
        calls.push((request_id.to_owned(), call));
        proof {
            let wider = call_entries(calls@);
            assert(wider =~= entries.push((request_id@, call)));
            assert(wider.drop_last() =~= entries);
            lemma_taken(entries, call);
            assert forall|i: int, j: int| 0 <= i < j < wider.len() implies (
            #[trigger] wider[i]).0 != (#[trigger] wider[j]).0 && wider[i].1 != wider[j].1 by {
                assert(wider[i] == entries[i]);
                if j == entries.len() {
                    lemma_calls_by_id(entries, i);
                } else {
                    assert(wider[j] == entries[j]);
                }
            }
            lemma_calls_are_apart(wider);
        }
        self.calls = calls;
        Ok(call)
    }

    /// Ends a call: its request id is free again, unless another call runs under it.
    pub fn end(&mut self, request_id: &str, call: u64)
        ensures
            final(self)@ == ended(old(self)@, request_id@, call),
            no_call_is_shared(final(self)@),
            final(self).next() == old(self).next(),
    {
        proof {
            use_type_invariant(&*self);
        }
        let ghost entries = call_entries(self.calls@);
        let ghost initial = self@;
        let mut calls: Vec<(String, u64)> = Vec::new();
        std::mem::swap(&mut calls, &mut self.calls);
        let mut i: usize = 0;
        while i < calls.len() && !same(calls[i].0.as_str(), request_id)
            invariant
                i <= calls@.len(),
                entries == call_entries(calls@),
                forall|j: int| 0 <= j < i ==> (#[trigger] entries[j]).0 != request_id@,
            decreases calls@.len() - i,
        {
            assert(entries[i as int].0 == calls@[i as int].0@);
            i = i + 1;
        }
        if i < calls.len() {
            assert(entries[i as int] == (calls@[i as int].0@, calls@[i as int].1));
            proof {
                lemma_calls_by_id(entries, i as int);
                lemma_calls_without(entries, i as int);
            }
            if calls[i].1 == call {
                calls.remove(i);
                assert(call_entries(calls@) =~= entries.remove(i as int));
            }
            assert(calls_by_id(call_entries(calls@)) == ended(initial, request_id@, call));
        } else {
            proof {
                lemma_not_among_calls(entries, request_id@);
            }
        }
        proof {
            lemma_calls_are_apart(call_entries(calls@));
        }
        self.calls = calls;
    }
}

/// The transports, which word one message differently.
#[derive(Debug, Clone, Copy, PartialEq, Eq, Structural)]
pub enum Transport {
    Sql,
    Http,
}

/// The error of a request that was cancelled or whose deadline passed. A write may have reached
/// the server, so its outcome is unknown and it is not worth a retry.
pub open spec fn interrupted(transport: Transport, write: bool, cancelled: bool) -> ErrorModel {
    if write {
        failure(
            ErrorCategory::UnknownOutcome,
            if cancelled {
                "write cancellation requested; the server outcome is unknown"@
            } else {
                "write deadline exceeded; the server outcome is unknown"@
            },
        )
    } else if cancelled {
        failure(
            ErrorCategory::Cancelled,
            match transport {
                Transport::Sql => "request cancelled"@,
                Transport::Http => "request was cancelled"@,
            },
        )
    } else {
        ErrorModel {
            retryable: true,
            ..failure(ErrorCategory::Timeout, "request deadline exceeded"@)
        }
    }
}

/// The error of an interrupted request.
pub fn interrupted_error(transport: Transport, write: bool, cancelled: bool) -> (result:
    ConnectorError)
    ensures
        result@ == interrupted(transport, write, cancelled),
{
    if write {
        ConnectorError::new(
            ErrorCategory::UnknownOutcome,
            if cancelled {
                "write cancellation requested; the server outcome is unknown"
            } else {
                "write deadline exceeded; the server outcome is unknown"
            },
        )
    } else if cancelled {
        ConnectorError::new(
            ErrorCategory::Cancelled,
            match transport {
                Transport::Sql => "request cancelled",
                Transport::Http => "request was cancelled",
            },
        )
    } else {
        ConnectorError::new(ErrorCategory::Timeout, "request deadline exceeded").retryable(true)
    }
}

/// Whether an error leaves open what became of a write.
pub open spec fn leaves_outcome_open(category: ErrorCategory) -> bool {
    category == ErrorCategory::Timeout || category == ErrorCategory::Unavailable || category
        == ErrorCategory::Internal
}

/// An error of an operation: of a write that may have taken place, the outcome is unknown and a
/// retry is not advised.
pub open spec fn classified(error: ErrorModel, write: bool) -> ErrorModel {
    if write && leaves_outcome_open(error.category) {
        ErrorModel {
            category: ErrorCategory::UnknownOutcome,
            message: error.message + "; the write outcome is unknown"@,
            retryable: false,
            ..error
        }
    } else {
        error
    }
}

/// The error of an operation, with regard to whether it writes.
pub fn classify_operation_error(error: ConnectorError, write: bool) -> (result: ConnectorError)
    ensures
        result@ == classified(error@, write),
{
    let open = match error.category {
        ErrorCategory::Timeout => true,
        ErrorCategory::Unavailable => true,
        ErrorCategory::Internal => true,
        _ => false,
    };
    if write && open {
        let mut message = error.message;
        message.append("; the write outcome is unknown");
        ConnectorError {
            category: ErrorCategory::UnknownOutcome,
            message,
            retryable: false,
            code: error.code,
            phase: error.phase,
        }
    } else {
        error
    }
}

/// Whether an operation writes.
pub open spec fn is_write(operation: DataOperation) -> bool {
    operation is Insert || operation is Update || operation is Delete || operation is NativeExecute
        || operation is VectorUpsert || operation is TimeSeriesWrite
}

/// Whether an operation writes.
pub fn operation_is_write(operation: &DataOperation) -> (result: bool)
    ensures
        result == is_write(*operation),
{
    match operation {
        DataOperation::Insert(_) => true,
        DataOperation::Update(_) => true,
        DataOperation::Delete(_) => true,
        DataOperation::NativeExecute(_) => true,
        DataOperation::VectorUpsert(_) => true,
        DataOperation::TimeSeriesWrite => true,
        _ => false,
    }
}

/// However a write ends that did not succeed, no error that says so invites a blind retry while
/// the write may have taken place.
pub proof fn lemma_open_writes_are_not_retried(
    transport: Transport,
    error: ErrorModel,
    cancelled: bool,
)
    ensures
        leaves_outcome_open(error.category) ==> classified(error, true).category
            == ErrorCategory::UnknownOutcome && !classified(error, true).retryable,
        !leaves_outcome_open(error.category) ==> classified(error, true) == error,
        interrupted(transport, true, cancelled).category == ErrorCategory::UnknownOutcome,
        !interrupted(transport, true, cancelled).retryable,
        classified(error, false) == error,
{
}

} // verus!
