use vstd::prelude::*;

use indexmap::IndexMap;

use crate::service::protocol::{OpenError, OpenErrorCode, RequestId, ServiceResponse};

verus! {

#[verifier::external_type_specification]
#[verifier::external_body]
#[verifier::reject_recursive_types(K)]
#[verifier::reject_recursive_types(V)]
#[verifier::reject_recursive_types(S)]
pub struct ExIndexMap<K, V, S>(IndexMap<K, V, S>);

/// Where an open request stands: waiting for its session, with the waiters to answer, or
/// answered, with the response and the session it made.
#[derive(Debug)]
pub enum RequestState {
    InFlight { waiters: Vec<u64> },
    Complete { response: ServiceResponse, session: Option<u64> },
}

/// A request's state with its waiters as a sequence.
pub enum StateView {
    InFlight { waiters: Seq<u64> },
    Complete { response: ServiceResponse, session: Option<u64> },
}

/// The view of a request state.
pub open spec fn state_view(state: RequestState) -> StateView {
    match state {
        RequestState::InFlight { waiters } => StateView::InFlight { waiters: waiters@ },
        RequestState::Complete { response, session } => StateView::Complete { response, session },
    }
}

/// The views of ledger entries.
pub open spec fn entries_view(entries: Seq<([u8; 16], RequestState)>) -> Seq<([u8; 16], StateView)> {
    entries.map_values(|e: ([u8; 16], RequestState)| (e.0, state_view(e.1)))
}

/// The entries of an insertion-ordered map of request states, in their order.
pub uninterp spec fn ledger_entries(map: IndexMap<[u8; 16], RequestState>) -> Seq<([u8; 16], RequestState)>;

/// The first position of a key among entries.
pub open spec fn position_of_key<V>(entries: Seq<([u8; 16], V)>, key: [u8; 16]) -> Option<int>
    decreases entries.len(),
{
    if entries.len() == 0 {
        None
    } else {
        match position_of_key(entries.drop_last(), key) {
            Some(i) => Some(i),
            None => if entries.last().0 == key {
                Some(entries.len() - 1)
            } else {
                None
            },
        }
    }
}

/// The value entries hold for a key.
pub open spec fn value_for<V>(entries: Seq<([u8; 16], V)>, key: [u8; 16]) -> Option<V> {
    match position_of_key(entries, key) {
        Some(i) => Some(entries[i].1),
        None => None,
    }
}

/// The entries after an insertion, as `IndexMap::insert` makes it: a present key keeps its
/// place and takes the new value; a new key comes last.
pub open spec fn with_inserted<V>(entries: Seq<([u8; 16], V)>, key: [u8; 16], value: V) -> Seq<
    ([u8; 16], V),
> {
    match position_of_key(entries, key) {
        Some(i) => entries.update(i, (key, value)),
        None => entries.push((key, value)),
    }
}

/// The entries after a removal that shifts the later ones, as `IndexMap::shift_remove` makes
/// it.
pub open spec fn without_key<V>(entries: Seq<([u8; 16], V)>, key: [u8; 16]) -> Seq<([u8; 16], V)> {
    match position_of_key(entries, key) {
        Some(i) => entries.remove(i),
        None => entries,
    }
}

/// Whether entries hold each key once.
pub open spec fn distinct_keys<V>(entries: Seq<([u8; 16], V)>) -> bool {
    forall|i: int, j: int|
        0 <= i < j < entries.len() ==> #[trigger] entries[i].0 != #[trigger] entries[j].0
}

pub proof fn lemma_position_of_key<V>(entries: Seq<([u8; 16], V)>, key: [u8; 16])
    ensures
        position_of_key(entries, key) matches Some(i) ==> 0 <= i < entries.len() && entries[i].0
            == key && forall|j: int| 0 <= j < i ==> entries[j].0 != key,
        position_of_key(entries, key) is None ==> forall|j: int|
            0 <= j < entries.len() ==> entries[j].0 != key,
    decreases entries.len(),
{
    if entries.len() > 0 {
        lemma_position_of_key(entries.drop_last(), key);
        assert forall|j: int| 0 <= j < entries.len() - 1 implies entries.drop_last()[j]
            == entries[j] by {}
    }
}

pub proof fn lemma_position_in_view(entries: Seq<([u8; 16], RequestState)>, key: [u8; 16])
    ensures
        position_of_key(entries_view(entries), key) == position_of_key(entries, key),
    decreases entries.len(),
{
    if entries.len() > 0 {
        assert(entries_view(entries).drop_last() =~= entries_view(entries.drop_last()));
        lemma_position_in_view(entries.drop_last(), key);
    }
}

pub proof fn lemma_inserted_view(entries: Seq<([u8; 16], RequestState)>, key: [u8; 16], value: RequestState)
    ensures
        entries_view(with_inserted(entries, key, value)) == with_inserted(
            entries_view(entries),
            key,
            state_view(value),
        ),
        value_for(entries_view(entries), key) == match value_for(entries, key) {
            Some(v) => Some(state_view(v)),
            None => None,
        },
{
    lemma_position_in_view(entries, key);
    lemma_position_of_key(entries, key);
    assert(entries_view(with_inserted(entries, key, value)) =~= with_inserted(
        entries_view(entries),
        key,
        state_view(value),
    ));
}

pub proof fn lemma_without_view(entries: Seq<([u8; 16], RequestState)>, key: [u8; 16])
    ensures
        entries_view(without_key(entries, key)) == without_key(entries_view(entries), key),
{
    lemma_position_in_view(entries, key);
    lemma_position_of_key(entries, key);
    assert(entries_view(without_key(entries, key)) =~= without_key(entries_view(entries), key));
}

pub proof fn lemma_inserted_distinct<V>(entries: Seq<([u8; 16], V)>, key: [u8; 16], value: V)
    requires
        distinct_keys(entries),
    ensures
        distinct_keys(with_inserted(entries, key, value)),
        position_of_key(with_inserted(entries, key, value), key) is Some,
{
    lemma_position_of_key(entries, key);
    let after = with_inserted(entries, key, value);
    assert forall|i: int, j: int| 0 <= i < j < after.len() implies #[trigger] after[i].0
        != #[trigger] after[j].0 by {
        if j == entries.len() {
            assert(after[i] == entries[i]);
        } else {
            match position_of_key(entries, key) {
                Some(p) => {
                    if i == p {
                        assert(entries[j].0 != entries[p].0);
                    } else if j == p {
                        assert(entries[i].0 != entries[p].0);
                    } else {
                        assert(after[i] == entries[i] && after[j] == entries[j]);
                    }
                },
                None => {
                    assert(after[i] == entries[i] && after[j] == entries[j]);
                },
            }
        }
    }
    lemma_position_of_key(after, key);
    match position_of_key(entries, key) {
        Some(p) => {
            assert(after[p].0 == key);
        },
        None => {
            assert(after[entries.len() as int].0 == key);
        },
    }
}

pub proof fn lemma_without_distinct<V>(entries: Seq<([u8; 16], V)>, key: [u8; 16])
    requires
        distinct_keys(entries),
    ensures
        distinct_keys(without_key(entries, key)),
        position_of_key(without_key(entries, key), key) is None,
{
    lemma_position_of_key(entries, key);
    let after = without_key(entries, key);
    match position_of_key(entries, key) {
        Some(p) => {
            assert forall|i: int, j: int| 0 <= i < j < after.len() implies #[trigger] after[i].0
                != #[trigger] after[j].0 by {
                let a = if i < p {
                    i
                } else {
                    i + 1
                };
                let b = if j < p {
                    j
                } else {
                    j + 1
                };
                assert(after[i] == entries[a] && after[j] == entries[b]);
            }
            assert forall|j: int| 0 <= j < after.len() implies after[j].0 != key by {
                let b = if j < p {
                    j
                } else {
                    j + 1
                };
                assert(after[j] == entries[b]);
            }
        },
        None => {},
    }
    lemma_position_of_key(after, key);
}

/// An empty insertion-ordered map, from `IndexMap::new`.
#[verifier::external_body]
fn ledger_new() -> (map: IndexMap<[u8; 16], RequestState>)
    ensures
        ledger_entries(map) == Seq::<([u8; 16], RequestState)>::empty(),
{
    IndexMap::new()
}

/// The value for a key, from `IndexMap::get`: that of the entry with the key.
#[verifier::external_body]
fn ledger_get<'a>(map: &'a IndexMap<[u8; 16], RequestState>, key: &[u8; 16]) -> (found: Option<
    &'a RequestState,
>)
    ensures
        match value_for(ledger_entries(*map), *key) {
            Some(v) => found matches Some(f) && *f == v,
            None => found is None,
        },
{
    map.get(key)
}

/// An insertion, from `IndexMap::insert`: a present key keeps its place and takes the new
/// value; a new key comes last.
#[verifier::external_body]
fn ledger_insert(map: &mut IndexMap<[u8; 16], RequestState>, key: [u8; 16], value: RequestState)
    ensures
        ledger_entries(*final(map)) == with_inserted(ledger_entries(*old(map)), key, value),
{
    map.insert(key, value);
}

/// A removal that shifts the later entries, from `IndexMap::shift_remove`; the removed value
/// is handed back.
#[verifier::external_body]
fn ledger_shift_remove(map: &mut IndexMap<[u8; 16], RequestState>, key: &[u8; 16]) -> (removed: Option<RequestState>)
    ensures
        removed == value_for(ledger_entries(*old(map)), *key),
        ledger_entries(*final(map)) == without_key(ledger_entries(*old(map)), *key),
{
    map.shift_remove(key)
}

/// The keys in their order, from `IndexMap::keys`.
#[verifier::external_body]
fn ledger_keys(map: &IndexMap<[u8; 16], RequestState>) -> (keys: Vec<[u8; 16]>)
    ensures
        keys@.len() == ledger_entries(*map).len(),
        forall|i: int| 0 <= i < keys@.len() ==> #[trigger] keys@[i] == ledger_entries(*map)[i].0,
{
    map.keys().copied().collect()
}

/// The response that refuses a request because the service is stopping.
pub open spec fn stopping_response(key: [u8; 16], message: String) -> ServiceResponse {
    ServiceResponse::Rejected {
        request_id: RequestId(key),
        error: OpenError { code: OpenErrorCode::ServiceStopping, message },
    }
}

/// A copy of a response.
pub fn copy_response(response: &ServiceResponse) -> (copy: ServiceResponse)
    ensures
        copy == *response,
{
    match response {
        ServiceResponse::Ready { request_id, view_url } => ServiceResponse::Ready {
            request_id: *request_id,
            view_url: view_url.clone(),
        },
        ServiceResponse::Rejected { request_id, error } => ServiceResponse::Rejected {
            request_id: *request_id,
            error: OpenError { code: error.code, message: error.message.clone() },
        },
        ServiceResponse::Incompatible { supported_version } => ServiceResponse::Incompatible {
            supported_version: *supported_version,
        },
        ServiceResponse::Stopped => ServiceResponse::Stopped,
    }
}

/// What the controller asks of the service around it.
#[derive(Debug)]
pub enum ControllerAction {
    /// Answer a waiting open or stop request.
    Reply { waiter: u64, response: ServiceResponse },
    /// Start creating the session that the open request just received asks for.
    SpawnCreation,
    /// Cancel every session creation under way.
    AbortCreations,
    /// Start the timer after which shutdown is forced.
    StartDeadline,
    /// Tell the service that a stop was accepted.
    SignalStopRequested,
    /// Shut a viewing session down, by force or gracefully.
    ShutDownSession { session: u64, force: bool },
    /// Tell the shutdowns under way to force their way.
    SignalForce,
    /// Tell the service that every session is shut down.
    SignalCleanupComplete,
    /// Stop the shutdown timer.
    CancelDeadline,
    /// Tell the service that the controller has stopped.
    SignalStopped,
}

/// Replies with one response to each waiter, in order.
pub open spec fn replies(waiters: Seq<u64>, response: ServiceResponse) -> Seq<ControllerAction> {
    waiters.map_values(|w: u64| ControllerAction::Reply { waiter: w, response })
}

/// The entries and actions after an open request arrives while the service runs: a waiting
/// request gains the waiter, an answered one answers it at once, and a new one is recorded as
/// waiting and its session creation starts.
pub open spec fn open_outcome(entries: Seq<([u8; 16], StateView)>, key: [u8; 16], waiter: u64) -> (
    Seq<([u8; 16], StateView)>,
    Seq<ControllerAction>,
) {
    match value_for(entries, key) {
        Some(StateView::InFlight { waiters }) => (
            with_inserted(entries, key, StateView::InFlight { waiters: waiters.push(waiter) }),
            Seq::empty(),
        ),
        Some(StateView::Complete { response, .. }) => (
            entries,
            seq![ControllerAction::Reply { waiter, response }],
        ),
        None => (
            with_inserted(entries, key, StateView::InFlight { waiters: seq![waiter] }),
            seq![ControllerAction::SpawnCreation],
        ),
    }
}

/// The entries and actions after a session creation finishes: a waiting request's waiters get
/// the response, and the request is recorded, last, as answered with it; the entry of a request
/// that was no longer waiting is dropped.
pub open spec fn complete_outcome(
    entries: Seq<([u8; 16], StateView)>,
    key: [u8; 16],
    response: ServiceResponse,
    session: Option<u64>,
) -> (Seq<([u8; 16], StateView)>, Seq<ControllerAction>) {
    match value_for(entries, key) {
        Some(StateView::InFlight { waiters }) => (
            with_inserted(
                without_key(entries, key),
                key,
                StateView::Complete { response, session },
            ),
            replies(waiters, response),
        ),
        Some(StateView::Complete { .. }) => (without_key(entries, key), Seq::empty()),
        None => (entries, Seq::empty()),
    }
}

/// An entry after stopping: a waiting request is answered as refused because the service
/// stops; an answered one is kept.
pub open spec fn rejected_entry(entry: ([u8; 16], StateView), message: String) -> ([u8; 16], StateView) {
    match entry.1 {
        StateView::InFlight { .. } => (
            entry.0,
            StateView::Complete { response: stopping_response(entry.0, message), session: None },
        ),
        _ => entry,
    }
}

/// The state of a request refused because the service stops.
pub open spec fn stopping_entry_state(key: [u8; 16], message: String) -> StateView {
    StateView::Complete { response: stopping_response(key, message), session: None }
}

/// The entries after stopping.
pub open spec fn rejected_entries(entries: Seq<([u8; 16], StateView)>, message: String) -> Seq<
    ([u8; 16], StateView),
> {
    entries.map_values(|e: ([u8; 16], StateView)| rejected_entry(e, message))
}

/// The replies that stopping sends: each waiter of each waiting request, in order, is told
/// that the service stops.
pub open spec fn rejection_replies(entries: Seq<([u8; 16], StateView)>, message: String) -> Seq<
    ControllerAction,
>
    decreases entries.len(),
{
    if entries.len() == 0 {
        Seq::empty()
    } else {
        rejection_replies(entries.drop_last(), message) + match entries.last().1 {
            StateView::InFlight { waiters } => replies(
                waiters,
                stopping_response(entries.last().0, message),
            ),
            _ => Seq::empty(),
        }
    }
}

/// The sessions that answered requests made, in order.
pub open spec fn sessions_of(entries: Seq<([u8; 16], StateView)>) -> Seq<u64>
    decreases entries.len(),
{
    if entries.len() == 0 {
        Seq::empty()
    } else {
        sessions_of(entries.drop_last()) + match entries.last().1 {
            StateView::Complete { session: Some(s), .. } => seq![s],
            _ => Seq::empty(),
        }
    }
}

proof fn lemma_position_of_distinct<V>(entries: Seq<([u8; 16], V)>, i: int)
    requires
        distinct_keys(entries),
        0 <= i < entries.len(),
    ensures
        position_of_key(entries, entries[i].0) == Some(i),
{
    lemma_position_of_key(entries, entries[i].0);
    if let Some(p) = position_of_key(entries, entries[i].0) {
        if p < i {
            assert(entries[p].0 != entries[i].0);
        }
    }
}

/// A copy of a list of waiters.
fn copy_waiters(waiters: &Vec<u64>) -> (copy: Vec<u64>)
    ensures
        copy@ == waiters@,
{
    let mut copy: Vec<u64> = Vec::new();
    let mut index: usize = 0;
    while index < waiters.len()
        invariant
            index <= waiters@.len(),
            copy@ == waiters@.subrange(0, index as int),
        decreases waiters@.len() - index,
    {
        copy.push(waiters[index]);
        index = index + 1;
        assert(copy@ =~= waiters@.subrange(0, index as int));
    }
    assert(copy@ =~= waiters@);
    copy
}

/// Appends a reply with one response to each waiter.
fn push_replies(actions: &mut Vec<ControllerAction>, waiters: &Vec<u64>, response: &ServiceResponse)
    ensures
        final(actions)@ == old(actions)@ + replies(waiters@, *response),
{
    let ghost start = actions@;
    let mut index: usize = 0;
    while index < waiters.len()
        invariant
            index <= waiters@.len(),
            actions@ == start + replies(waiters@.subrange(0, index as int), *response),
        decreases waiters@.len() - index,
    {
        actions.push(ControllerAction::Reply { waiter: waiters[index], response: copy_response(response) });
        index = index + 1;
        assert(actions@ =~= start + replies(waiters@.subrange(0, index as int), *response));
    }
    assert(waiters@.subrange(0, index as int) =~= waiters@);
}

/// The open requests a service has received, each with where it stands, in the order in
/// which they were last recorded. Each request is held once.
pub struct RequestLedger {
    entries: IndexMap<[u8; 16], RequestState>,
}

impl RequestLedger {
    #[verifier::type_invariant]
    spec fn distinct(&self) -> bool {
        distinct_keys(ledger_entries(self.entries))
    }

    /// The requests and where they stand, in order.
    pub closed spec fn requests(&self) -> Seq<([u8; 16], StateView)> {
        entries_view(ledger_entries(self.entries))
    }

    /// A ledger without requests.
    pub fn new() -> (ledger: Self)
        ensures
            ledger.requests() == Seq::<([u8; 16], StateView)>::empty(),
    {
        let ledger = RequestLedger { entries: ledger_new() };
        assert(ledger.requests() =~= Seq::<([u8; 16], StateView)>::empty());
        ledger
    }

    /// Records an open request that arrives while the service runs.
    pub fn open(&mut self, request_id: RequestId, waiter: u64) -> (actions: Vec<ControllerAction>)
        ensures
            (final(self).requests(), actions@) == open_outcome(old(self).requests(), request_id.0, waiter),
    {
        proof {
            use_type_invariant(&*self);
        }
        let key = request_id.0;
        let mut map = ledger_new();
        std::mem::swap(&mut map, &mut self.entries);
        let ghost before = ledger_entries(map);
        proof {
            lemma_inserted_view(before, key, vstd::pervasive::arbitrary());
        }
        let found: Option<Result<Vec<u64>, ServiceResponse>> = match ledger_get(&map, &key) {
            Some(RequestState::InFlight { waiters }) => Some(Ok(copy_waiters(waiters))),
            Some(RequestState::Complete { response, .. }) => Some(Err(copy_response(response))),
            None => None,
        };
        let mut actions: Vec<ControllerAction> = Vec::new();
        match found {
            Some(Ok(waiters)) => {
                let mut waiters = waiters;
                waiters.push(waiter);
                let state = RequestState::InFlight { waiters };
                proof {
                    lemma_inserted_view(before, key, state);
                    lemma_inserted_distinct(before, key, state);
                }
                ledger_insert(&mut map, key, state);
            },
            Some(Err(response)) => {
                actions.push(ControllerAction::Reply { waiter, response });
            },
            None => {
                let mut waiters: Vec<u64> = Vec::new();
                waiters.push(waiter);
                let state = RequestState::InFlight { waiters };
                proof {
                    lemma_inserted_view(before, key, state);
                    lemma_inserted_distinct(before, key, state);
                    assert(state_view(state) == StateView::InFlight { waiters: seq![waiter] });
                }
                ledger_insert(&mut map, key, state);
                actions.push(ControllerAction::SpawnCreation);
            },
        }
        self.entries = map;
        proof {
            assert(actions@ =~= open_outcome(entries_view(before), key, waiter).1);
        }
        actions
    }

    /// Records the outcome of a session creation.
    pub fn complete(&mut self, request_id: RequestId, response: ServiceResponse, session: Option<u64>) -> (actions: Vec<ControllerAction>)
        ensures
            (final(self).requests(), actions@) == complete_outcome(
                old(self).requests(),
                request_id.0,
                response,
                session,
            ),
    {
        proof {
            use_type_invariant(&*self);
        }
        let key = request_id.0;
        let mut map = ledger_new();
        std::mem::swap(&mut map, &mut self.entries);
        let ghost before = ledger_entries(map);
        let ghost state = RequestState::Complete { response, session };
        proof {
            lemma_inserted_view(before, key, state);
            lemma_without_view(before, key);
            lemma_without_distinct(before, key);
            lemma_inserted_view(without_key(before, key), key, state);
            lemma_inserted_distinct(without_key(before, key), key, state);
        }
        let removed = ledger_shift_remove(&mut map, &key);
        let mut actions: Vec<ControllerAction> = Vec::new();
        match removed {
            Some(RequestState::InFlight { waiters }) => {
                push_replies(&mut actions, &waiters, &response);
                ledger_insert(&mut map, key, RequestState::Complete { response, session });
            },
            _ => {},
        }
        self.entries = map;
        proof {
            assert(actions@ =~= complete_outcome(entries_view(before), key, response, session).1);
        }
        actions
    }

    /// Answers every waiting request as refused because the service stops.
    pub fn reject_inflight(&mut self, message: &String) -> (actions: Vec<ControllerAction>)
        ensures
            final(self).requests() == rejected_entries(old(self).requests(), *message),
            actions@ == rejection_replies(old(self).requests(), *message),
    {
        proof {
            use_type_invariant(&*self);
        }
        let mut map = ledger_new();
        std::mem::swap(&mut map, &mut self.entries);
        let ghost entries_before = entries_view(ledger_entries(map));
        let keys = ledger_keys(&map);
        let mut actions: Vec<ControllerAction> = Vec::new();
        let mut index: usize = 0;
        while index < keys.len()
            invariant
                index <= keys@.len(),
                keys@.len() == entries_before.len(),
                forall|i: int| 0 <= i < keys@.len() ==> #[trigger] keys@[i] == entries_before[i].0,
                distinct_keys(ledger_entries(map)),
                entries_view(ledger_entries(map)) == rejected_entries(
                    entries_before.take(index as int),
                    *message,
                ) + entries_before.skip(index as int),
                actions@ == rejection_replies(entries_before.take(index as int), *message),
            decreases keys@.len() - index,
        {
            let key = keys[index];
            let ghost current = ledger_entries(map);
            proof {
                assert(entries_view(current).len() == current.len());
                assert(rejected_entries(entries_before.take(index as int), *message).len() == index);
                assert(entries_view(current)[index as int] == entries_before[index as int]);
                assert(current.len() == entries_before.len());
                assert(current[index as int].0 == key);
                lemma_position_of_distinct(current, index as int);
            }
            let found: Option<Vec<u64>> = match ledger_get(&map, &key) {
                Some(RequestState::InFlight { waiters }) => Some(copy_waiters(waiters)),
                _ => None,
            };
            proof {
                assert(entries_before.take(index + 1).drop_last() =~= entries_before.take(index as int));
                assert(entries_before.take(index + 1).last() == entries_before[index as int]);
            }
            match found {
                Some(waiters) => {
                    let response = ServiceResponse::Rejected {
                        request_id: RequestId(key),
                        error: OpenError { code: OpenErrorCode::ServiceStopping, message: message.clone() },
                    };
                    push_replies(&mut actions, &waiters, &response);
                    let state = RequestState::Complete { response, session: None };
                    proof {
                        lemma_inserted_view(current, key, state);
                        lemma_inserted_distinct(current, key, state);
                        assert(entries_before[index as int].1 is InFlight);
                        assert(state_view(state) == stopping_entry_state(key, *message));
                        assert(rejected_entry(entries_before[index as int], *message) == (key, state_view(state)));
                    }
                    ledger_insert(&mut map, key, state);
                    proof {
                        let after = entries_view(ledger_entries(map));
                        let expected = rejected_entries(entries_before.take(index + 1), *message) + entries_before.skip(index + 1);
                        assert(after =~= entries_view(current).update(index as int, (key, state_view(state))));
                        assert forall|j: int| 0 <= j < after.len() implies after[j] == expected[j] by {
                            if j < index {
                                assert(entries_before.take(index + 1)[j] == entries_before.take(index as int)[j]);
                            }
                        }
                        assert(entries_view(ledger_entries(map)) =~= rejected_entries(
                            entries_before.take(index + 1),
                            *message,
                        ) + entries_before.skip(index + 1));
                    }
                },
                None => {
                    proof {
                        assert(entries_view(ledger_entries(map)) =~= rejected_entries(
                            entries_before.take(index + 1),
                            *message,
                        ) + entries_before.skip(index + 1));
                        assert(actions@ =~= rejection_replies(entries_before.take(index + 1), *message));
                    }
                },
            }
            index = index + 1;
        }
        proof {
            assert(entries_before.take(index as int) =~= entries_before);
            assert(entries_before.skip(index as int) =~= Seq::<([u8; 16], StateView)>::empty());
            assert(entries_view(ledger_entries(map)) =~= rejected_entries(entries_before, *message));
        }
        self.entries = map;
        actions
    }

    /// Takes the sessions that answered requests made, in order, and forgets every request.
    pub fn take_sessions(&mut self) -> (sessions: Vec<u64>)
        ensures
            sessions@ == sessions_of(old(self).requests()),
            final(self).requests() == Seq::<([u8; 16], StateView)>::empty(),
    {
        proof {
            use_type_invariant(&*self);
        }
        let mut map = ledger_new();
        std::mem::swap(&mut map, &mut self.entries);
        let ghost entries_before = entries_view(ledger_entries(map));
        let keys = ledger_keys(&map);
        let mut sessions: Vec<u64> = Vec::new();
        let mut index: usize = 0;
        while index < keys.len()
            invariant
                index <= keys@.len(),
                keys@.len() == entries_before.len(),
                forall|i: int| 0 <= i < keys@.len() ==> #[trigger] keys@[i] == entries_before[i].0,
                distinct_keys(ledger_entries(map)),
                entries_before == entries_view(ledger_entries(map)),
                sessions@ == sessions_of(entries_before.take(index as int)),
            decreases keys@.len() - index,
        {
            let key = keys[index];
            proof {
                let current = ledger_entries(map);
                assert(entries_view(current)[index as int] == entries_before[index as int]);
                lemma_position_of_distinct(current, index as int);
                assert(entries_before.take(index + 1).drop_last() =~= entries_before.take(index as int));
                assert(entries_before.take(index + 1).last() == entries_before[index as int]);
            }
            match ledger_get(&map, &key) {
                Some(RequestState::Complete { session: Some(s), .. }) => {
                    sessions.push(*s);
                },
                _ => {},
            }
            proof {
                assert(sessions@ =~= sessions_of(entries_before.take(index + 1)));
            }
            index = index + 1;
        }
        proof {
            assert(entries_before.take(index as int) =~= entries_before);
        }
        self.entries = ledger_new();
        proof {
            assert(self.requests() =~= Seq::<([u8; 16], StateView)>::empty());
        }
        sessions
    }
}

} // verus!
