//! Registry of background operations.
//!
//! Work that outlives its request gets a record that a client can poll. The
//! registry is bounded: it keeps every running operation, and of the finished
//! ones only the most recent.
use dashmap::DashMap;
use std::collections::VecDeque;
use uuid::Uuid;
use vstd::prelude::*;
use crate::clock;
use crate::shared::{self, HeldCopy};
use crate::text;

verus! {

/// Finished operations that a registry keeps by default.
pub const DEFAULT_MAX_COMPLETED: usize = 256;

/// The kind of work that an operation tracks.
#[derive(Debug, Clone, Copy, PartialEq, Eq, Structural)]
pub enum OperationKind {
    /// Cache warmup.
    Warmup,
    /// Vector index build.
    Index,
    /// Full-text index build.
    FtsIndex,
    /// Scalar index build.
    ScalarIndex,
    /// Compaction.
    Compact,
    /// Bulk import.
    Import,
}

/// State of an operation.
#[derive(Debug, Clone, Copy, PartialEq, Eq, Structural)]
pub enum OperationStatus {
    /// In flight.
    Running,
    /// Finished well.
    Succeeded,
    /// Finished with an error.
    Failed,
}

/// What is known of an operation.
#[derive(Debug, PartialEq)]
pub struct OperationRecord {
    /// Opaque identifier.
    pub operation_id: String,
    /// Kind of work.
    pub kind: OperationKind,
    /// Namespace that the work targets.
    pub namespace: String,
    /// State.
    pub status: OperationStatus,
    /// Milliseconds since the Unix epoch when the work began.
    pub started_at_ms: u64,
    /// Milliseconds since the Unix epoch when it finished; none while it runs.
    pub finished_at_ms: Option<u64>,
    /// Message for the client where it failed.
    pub error: Option<String>,
}

impl Clone for OperationRecord {
    fn clone(&self) -> (r: OperationRecord)
        ensures
            r == *self,
    {
        OperationRecord {
            operation_id: self.operation_id.clone(),
            kind: self.kind,
            namespace: self.namespace.clone(),
            status: self.status,
            started_at_ms: self.started_at_ms,
            finished_at_ms: self.finished_at_ms,
            error: match &self.error {
                Some(m) => Some(m.clone()),
                None => None,
            },
        }
    }
}

/// A record by its contents.
pub struct RecordView {
    pub operation_id: Seq<char>,
    pub kind: OperationKind,
    pub namespace: Seq<char>,
    pub status: OperationStatus,
    pub started_at_ms: u64,
    pub finished_at_ms: Option<u64>,
    pub error: Option<Seq<char>>,
}

impl View for OperationRecord {
    type V = RecordView;

    open spec fn view(&self) -> RecordView {
        RecordView {
            operation_id: self.operation_id@,
            kind: self.kind,
            namespace: self.namespace@,
            status: self.status,
            started_at_ms: self.started_at_ms,
            finished_at_ms: self.finished_at_ms,
            error: text::text_opt(self.error),
        }
    }
}

/// A bounded registry of operations.
pub struct OperationRegistry {
    records: DashMap<String, OperationRecord>,
    completed: VecDeque<String>,
    max_completed: usize,
}

/// A registry by its contents: the records by id, the ids of finished
/// operations in the order in which they finished, and how many of those are
/// kept.
pub struct RegistryView {
    pub records: Map<Seq<char>, RecordView>,
    pub completed: Seq<Seq<char>>,
    pub max_completed: nat,
}

impl View for OperationRegistry {
    type V = RegistryView;

    closed spec fn view(&self) -> RegistryView {
        RegistryView {
            records: shared::record_map(self.records).map_values(|r: OperationRecord| r@),
            completed: self.completed@.map_values(|s: String| s@),
            max_completed: self.max_completed as nat,
        }
    }
}

/// Whether a status is final.
pub open spec fn is_final(status: OperationStatus) -> bool {
    status is Succeeded || status is Failed
}

/// The bound holds, and every finished operation waits its turn to be dropped,
/// once.
pub open spec fn bounded(r: RegistryView) -> bool {
    &&& r.max_completed >= 1
    &&& r.completed.no_duplicates()
    &&& r.completed.len() <= r.max_completed
    &&& forall|id: Seq<char>| #[trigger]
        r.records.dom().contains(id) && is_final(r.records[id].status) ==> r.completed.contains(id)
}

/// No running operation waits to be dropped.
pub open spec fn settled(r: RegistryView) -> bool {
    forall|id: Seq<char>| #[trigger]
        r.records.dom().contains(id) && r.records[id].status is Running ==> !r.completed.contains(
            id,
        )
}

/// A registry of nothing.
pub open spec fn empty_registry(max_completed: nat) -> RegistryView {
    RegistryView { records: Map::empty(), completed: Seq::empty(), max_completed }
}

/// The registry once an operation has begun.
pub open spec fn begun(
    r: RegistryView,
    id: Seq<char>,
    kind: OperationKind,
    namespace: Seq<char>,
    now: u64,
) -> RegistryView {
    RegistryView {
        records: r.records.insert(
            id,
            RecordView {
                operation_id: id,
                kind,
                namespace,
                status: OperationStatus::Running,
                started_at_ms: now,
                finished_at_ms: None,
                error: None,
            },
        ),
        ..r
    }
}

/// The order in which operations finished, with one more at its end; one that
/// has a place in it keeps that place.
pub open spec fn queued(completed: Seq<Seq<char>>, id: Seq<char>) -> Seq<Seq<char>> {
    if completed.contains(id) {
        completed
    } else {
        completed.push(id)
    }
}

/// The registry once an operation has finished. One that it does not know
/// changes nothing; one that finished before keeps its turn. Past the bound, the
/// operation that finished first is dropped.
pub open spec fn finished(
    r: RegistryView,
    id: Seq<char>,
    status: OperationStatus,
    error: Option<Seq<char>>,
    now: u64,
) -> RegistryView {
    if !r.records.dom().contains(id) {
        r
    } else {
        let records = r.records.insert(
            id,
            RecordView { status, finished_at_ms: Some(now), error, ..r.records[id] },
        );
        let completed = queued(r.completed, id);
        if completed.len() > r.max_completed {
            RegistryView {
                records: records.remove(completed[0]),
                completed: completed.skip(1),
                ..r
            }
        } else {
            RegistryView { records, completed, ..r }
        }
    }
}

/// Whether a character may stand at position `i` of a hyphenated UUID.
pub open spec fn uuid_char(c: char, i: int) -> bool {
    if i == 8 || i == 13 || i == 18 || i == 23 {
        c == '-'
    } else {
        '0' <= c <= '9' || 'a' <= c <= 'f'
    }
}

/// Whether a text has the form of a hyphenated UUID.
pub open spec fn is_uuid(s: Seq<char>) -> bool {
    s.len() == 36 && forall|i: int| 0 <= i < 36 ==> uuid_char(#[trigger] s[i], i)
}

/// Whether a text is a UUID of version 7 and of the variant of RFC 4122.
pub open spec fn is_uuid_v7(s: Seq<char>) -> bool {
    is_uuid(s) && s[14] == '7' && (s[19] == '8' || s[19] == '9' || s[19] == 'a' || s[19] == 'b')
}

/// `Uuid::now_v7`, as text: thirty-two lower-case hexadecimal digits in five
/// groups, with the digits of its version and variant. Which the others are
/// rests on the clock and on chance; that two calls differ is not stated.
#[verifier::external_body]
pub(crate) fn fresh_uuid() -> (r: String)
    ensures
        is_uuid_v7(r@),
{
    Uuid::now_v7().to_string()
}

impl OperationRegistry {
    /// The bound holds of what the registry holds.
    pub open spec fn wf(&self) -> bool {
        bounded(self@)
    }

    /// A registry that keeps the default number of finished operations.
    pub fn new() -> (r: OperationRegistry)
        ensures
            r.wf(),
            r@ == empty_registry(DEFAULT_MAX_COMPLETED as nat),
    {
        OperationRegistry::with_capacity(DEFAULT_MAX_COMPLETED)
    }

    /// A registry that keeps this many finished operations, at least one.
    pub fn with_capacity(max_completed: usize) -> (r: OperationRegistry)
        ensures
            r.wf(),
            r@ == empty_registry(
                if max_completed < 1 {
                    1
                } else {
                    max_completed as nat
                },
            ),
    {
        let r = OperationRegistry {
            records: shared::new_record_map(),
            completed: VecDeque::new(),
            max_completed: if max_completed < 1 {
                1
            } else {
                max_completed
            },
        };
        assert(r@.records =~= Map::empty());
        assert(r@.completed =~= Seq::empty());
        r
    }

    /// Registers an operation under a given id and time.
    pub fn begin(&mut self, operation_id: &str, kind: OperationKind, namespace: String, now: u64)
        requires
            old(self).wf(),
        ensures
            final(self).wf(),
            final(self)@ == begun(old(self)@, operation_id@, kind, namespace@, now),
    {
        let record = OperationRecord {
            operation_id: operation_id.to_string(),
            kind,
            namespace,
            status: OperationStatus::Running,
            started_at_ms: now,
            finished_at_ms: None,
            error: None,
        };
        shared::map_insert(&mut self.records, operation_id, record);
        proof {
            let after = begun(old(self)@, operation_id@, kind, namespace@, now);
            assert(self@.records =~= after.records);
            law_begin_keeps_the_bound(old(self)@, operation_id@, kind, namespace@, now);
        }
    }

    /// Registers a new operation as running and gives its id: `op_` and a
    /// fresh UUID.
    pub fn start(&mut self, kind: OperationKind, namespace: String) -> (r: String)
        requires
            old(self).wf(),
        ensures
            final(self).wf(),
            exists|now: u64|
                final(self)@ == #[trigger] begun(old(self)@, r@, kind, namespace@, now)
                    && clock::read_millis(now),
            exists|uuid: Seq<char>| #[trigger] is_uuid_v7(uuid) && r@ == "op_"@ + uuid,
    {
        let operation_id = text::cat2("op_", fresh_uuid().as_str());
        let now: u64 = clock::now_ms();
        self.begin(operation_id.as_str(), kind, namespace, now);
        operation_id
    }

    /// Marks an operation as succeeded.
    pub fn succeed(&mut self, operation_id: &str)
        requires
            old(self).wf(),
        ensures
            final(self).wf(),
            exists|now: u64|
                final(self)@ == #[trigger] finished(
                    old(self)@,
                    operation_id@,
                    OperationStatus::Succeeded,
                    None,
                    now,
                ) && clock::read_millis(now),
    {
        let now: u64 = clock::now_ms();
        self.finish(operation_id, OperationStatus::Succeeded, None, now);
    }

    /// Marks an operation as failed, with a message for the client.
    pub fn fail(&mut self, operation_id: &str, error: &str)
        requires
            old(self).wf(),
        ensures
            final(self).wf(),
            exists|now: u64|
                final(self)@ == #[trigger] finished(
                    old(self)@,
                    operation_id@,
                    OperationStatus::Failed,
                    Some(error@),
                    now,
                ) && clock::read_millis(now),
    {
        let now: u64 = clock::now_ms();
        self.finish(operation_id, OperationStatus::Failed, Some(error.to_string()), now);
    }

    /// Whether an operation has its place in the order in which they finished.
    fn waits(&self, operation_id: &str) -> (r: bool)
        ensures
            r == self@.completed.contains(operation_id@),
    {
        let mut i: usize = 0;
        while i < self.completed.len()
            invariant
                i <= self.completed@.len(),
                forall|j: int| 0 <= j < i ==> self@.completed[j] != operation_id@,
            decreases self.completed@.len() - i,
        {
            assert(self@.completed[i as int] == self.completed@[i as int]@);
            if text::same(self.completed[i].as_str(), operation_id) {
                assert(self@.completed.contains(operation_id@));
                return true;
            }
            i = i + 1;
        }
        assert(self@.completed.len() == self.completed@.len());
        false
    }

    /// Gives an operation its final state at a given time, and drops what
    /// finished first where the bound is passed.
    pub fn finish(
        &mut self,
        operation_id: &str,
        status: OperationStatus,
        error: Option<String>,
        now: u64,
    )
        requires
            old(self).wf(),
            is_final(status),
        ensures
            final(self).wf(),
            final(self)@ == finished(
                old(self)@,
                operation_id@,
                status,
                text::text_opt(error),
                now,
            ),
    {
        let ghost after = finished(old(self)@, operation_id@, status, text::text_opt(error), now);
        proof {
            law_finish_keeps_the_bound(
                old(self)@,
                operation_id@,
                status,
                text::text_opt(error),
                now,
            );
        }
        let mut record = match shared::map_get(&self.records, operation_id) {
            Some(r) => r,
            None => {
                assert(!old(self)@.records.dom().contains(operation_id@));
                return;
            },
        };
        record.status = status;
        record.finished_at_ms = Some(now);
        record.error = error;
        shared::map_insert(&mut self.records, operation_id, record);
        if !self.waits(operation_id) {
            self.completed.push_back(operation_id.to_string());
            assert(self@.completed =~= old(self)@.completed.push(operation_id@));
        }
        proof {
            assert(self@.completed =~= queued(old(self)@.completed, operation_id@));
            assert(self@.records =~= old(self)@.records.insert(operation_id@, record@));
        }
        let ghost mid = *self;
        if self.completed.len() > self.max_completed {
            if let Some(oldest) = self.completed.pop_front() {
                shared::map_remove(&mut self.records, oldest.as_str());
                proof {
                    assert(oldest@ == mid@.completed[0]);
                    assert(self@.completed =~= mid@.completed.skip(1));
                    assert(self@.records =~= mid@.records.remove(oldest@));
                }
            }
        }
    }

    /// The record of an operation, if it is known and has not been dropped.
    pub fn get(&self, operation_id: &str) -> (r: Option<OperationRecord>)
        ensures
            match r {
                Some(rec) => self@.records.dom().contains(operation_id@) && rec@
                    == self@.records[operation_id@],
                None => !self@.records.dom().contains(operation_id@),
            },
    {
        shared::map_get(&self.records, operation_id)
    }
}

impl Default for OperationRegistry {
    fn default() -> (r: OperationRegistry)
        ensures
            r.wf(),
            r@ == empty_registry(DEFAULT_MAX_COMPLETED as nat),
    {
        OperationRegistry::new()
    }
}

// ------------------------------------------------------------------ laws
/// Beginning an operation keeps the bound.
pub proof fn law_begin_keeps_the_bound(
    r: RegistryView,
    id: Seq<char>,
    kind: OperationKind,
    namespace: Seq<char>,
    now: u64,
)
    requires
        bounded(r),
    ensures
        bounded(begun(r, id, kind, namespace, now)),
{
    let after = begun(r, id, kind, namespace, now);
    assert forall|k: Seq<char>| #[trigger]
        after.records.dom().contains(k) && is_final(
            after.records[k].status,
        ) implies after.completed.contains(k) by {
        assert(k != id);
        assert(r.records.dom().contains(k));
    }
}

/// A new operation is recorded as running under its id, and every other record
/// stays as it was; under an id that is not in use none is replaced.
pub proof fn law_starting_touches_no_other_record(
    r: RegistryView,
    id: Seq<char>,
    kind: OperationKind,
    namespace: Seq<char>,
    now: u64,
    other: Seq<char>,
)
    requires
        other != id,
    ensures
        begun(r, id, kind, namespace, now).records[id].status is Running,
        begun(r, id, kind, namespace, now).records.dom().contains(other)
            <==> r.records.dom().contains(other),
        r.records.dom().contains(other) ==> begun(r, id, kind, namespace, now).records[other]
            == r.records[other],
        begun(r, id, kind, namespace, now).completed == r.completed,
{
}

/// Finishing an operation keeps the bound.
pub proof fn law_finish_keeps_the_bound(
    r: RegistryView,
    id: Seq<char>,
    status: OperationStatus,
    error: Option<Seq<char>>,
    now: u64,
)
    requires
        bounded(r),
        is_final(status),
    ensures
        bounded(finished(r, id, status, error, now)),
{
    let after = finished(r, id, status, error, now);
    if r.records.dom().contains(id) {
        let completed = queued(r.completed, id);
        assert(completed.no_duplicates());
        assert forall|k: Seq<char>| #[trigger]
            after.records.dom().contains(k) && is_final(
                after.records[k].status,
            ) implies after.completed.contains(k) by {
            assert(completed.contains(k)) by {
                if k == id {
                    if !r.completed.contains(id) {
                        assert(completed[r.completed.len() as int] == id);
                    }
                } else {
                    assert(r.records.dom().contains(k));
                    let i = choose|i: int| 0 <= i < r.completed.len() && r.completed[i] == k;
                    assert(completed[i] == k);
                }
            }
            let i = choose|i: int| 0 <= i < completed.len() && completed[i] == k;
            if completed.len() > r.max_completed {
                assert(k != completed[0]);
                assert(completed.skip(1)[i - 1] == k);
            }
        }
    }
}

/// A registry is settled at first, and stays so: beginning an operation under
/// an id that does not wait to be dropped, and finishing any operation, keep
/// it settled.
pub proof fn law_registry_stays_settled(
    r: RegistryView,
    id: Seq<char>,
    kind: OperationKind,
    namespace: Seq<char>,
    status: OperationStatus,
    error: Option<Seq<char>>,
    now: u64,
    max: nat,
)
    requires
        settled(r),
        is_final(status),
    ensures
        settled(empty_registry(max)),
        !r.completed.contains(id) ==> settled(begun(r, id, kind, namespace, now)),
        settled(finished(r, id, status, error, now)),
{
    let b = begun(r, id, kind, namespace, now);
    if !r.completed.contains(id) {
        assert forall|k: Seq<char>| #[trigger]
            b.records.dom().contains(k) && b.records[k].status is Running implies !b.completed.contains(
            k,
        ) by {
            if k != id {
                assert(r.records.dom().contains(k));
            }
        }
    }
    let f = finished(r, id, status, error, now);
    if r.records.dom().contains(id) {
        assert forall|k: Seq<char>| #[trigger]
            f.records.dom().contains(k) && f.records[k].status is Running implies !f.completed.contains(
            k,
        ) by {
            assert(k != id);
            assert(r.records.dom().contains(k));
            let completed = queued(r.completed, id);
            if f.completed.contains(k) {
                let i = choose|i: int| 0 <= i < f.completed.len() && f.completed[i] == k;
                if completed.len() > r.max_completed {
                    assert(completed[i + 1] == k);
                    assert(r.completed[i + 1] == k);
                } else {
                    assert(r.completed[i] == k);
                }
            }
        }
    }
}

/// A running operation is never dropped: whatever finishes, every other
/// running operation keeps its record.
pub proof fn law_running_operations_are_never_dropped(
    r: RegistryView,
    id: Seq<char>,
    status: OperationStatus,
    error: Option<Seq<char>>,
    now: u64,
    running: Seq<char>,
)
    requires
        settled(r),
        is_final(status),
        running != id,
        r.records.dom().contains(running),
        r.records[running].status is Running,
    ensures
        finished(r, id, status, error, now).records.dom().contains(running),
        finished(r, id, status, error, now).records[running] == r.records[running],
{
    let completed = queued(r.completed, id);
    if r.completed.len() > 0 {
        assert(completed[0] == r.completed[0]);
        assert(r.completed.contains(r.completed[0]));
    }
}

/// An operation that was running has, once finished, the record of its end:
/// what it was, its final state, the message, and the time.
pub proof fn law_finished_operation_is_recorded(
    r: RegistryView,
    id: Seq<char>,
    status: OperationStatus,
    error: Option<Seq<char>>,
    now: u64,
)
    requires
        bounded(r),
        settled(r),
        is_final(status),
        r.records.dom().contains(id),
        r.records[id].status is Running,
    ensures
        finished(r, id, status, error, now).records.dom().contains(id),
        finished(r, id, status, error, now).records[id] == (RecordView {
            status,
            finished_at_ms: Some(now),
            error,
            ..r.records[id]
        }),
{
    assert(!r.completed.contains(id));
    let completed = queued(r.completed, id);
    if r.completed.len() > 0 {
        assert(completed[0] == r.completed[0]);
        assert(r.completed.contains(r.completed[0]));
    }
}

/// What is dropped is what finished first, and only past the bound; the order
/// of the others stays.
pub proof fn law_oldest_is_dropped_first(
    r: RegistryView,
    id: Seq<char>,
    status: OperationStatus,
    error: Option<Seq<char>>,
    now: u64,
    other: Seq<char>,
)
    requires
        bounded(r),
        is_final(status),
        r.records.dom().contains(id),
        r.records.dom().contains(other),
        other != id,
        !finished(r, id, status, error, now).records.dom().contains(other),
    ensures
        r.completed.len() == r.max_completed,
        r.completed[0] == other,
        !r.completed.contains(id),
        finished(r, id, status, error, now).completed == r.completed.push(id).skip(1),
{
}

/// An operation that finishes again gets its new final state, and nothing is
/// dropped on its account.
pub proof fn law_finishing_again_drops_nothing(
    r: RegistryView,
    id: Seq<char>,
    status: OperationStatus,
    error: Option<Seq<char>>,
    now: u64,
)
    requires
        bounded(r),
        is_final(status),
        r.records.dom().contains(id),
        is_final(r.records[id].status),
    ensures
        finished(r, id, status, error, now).records.dom() == r.records.dom(),
        finished(r, id, status, error, now).completed == r.completed,
        finished(r, id, status, error, now).records[id].status == status,
{
    assert(r.completed.contains(id));
    assert(finished(r, id, status, error, now).records.dom() =~= r.records.dom());
}

/// The ids of the finished operations that a registry holds.
pub open spec fn finished_ids(r: RegistryView) -> Set<Seq<char>> {
    Set::new(|id: Seq<char>| r.records.dom().contains(id) && is_final(r.records[id].status))
}

/// A registry never holds more finished operations than its bound.
pub proof fn law_finished_operations_are_bounded(r: RegistryView)
    requires
        bounded(r),
    ensures
        finished_ids(r).finite(),
        finished_ids(r).len() <= r.max_completed,
{
    let waiting = r.completed.to_set();
    vstd::seq_lib::seq_to_set_is_finite(r.completed);
    r.completed.lemma_cardinality_of_set();
    assert(finished_ids(r).subset_of(waiting)) by {
        assert forall|id: Seq<char>| finished_ids(r).contains(id) implies waiting.contains(id) by {
            assert(r.records.dom().contains(id));
            assert(r.completed.contains(id));
        }
    }
    vstd::set_lib::lemma_len_subset(finished_ids(r), waiting);
}

// --------------------------------------------------------------- history
/// What happens to a registry.
pub enum Event {
    /// An operation begins.
    Begin(Seq<char>, OperationKind, Seq<char>, u64),
    /// An operation finishes, with its final state, message and time.
    Finish(Seq<char>, OperationStatus, Option<Seq<char>>, u64),
}

/// The registry after an event.
pub open spec fn after_event(r: RegistryView, e: Event) -> RegistryView {
    match e {
        Event::Begin(id, kind, namespace, now) => begun(r, id, kind, namespace, now),
        Event::Finish(id, status, error, now) => finished(r, id, status, error, now),
    }
}

/// The registry after a history.
pub open spec fn after_events(r: RegistryView, events: Seq<Event>) -> RegistryView
    decreases events.len(),
{
    if events.len() == 0 {
        r
    } else {
        after_event(after_events(r, events.drop_last()), events.last())
    }
}

/// What has happened in a history, were nothing ever dropped: the record of
/// every operation, and the order in which they finished for the first time.
pub struct Annals {
    pub records: Map<Seq<char>, RecordView>,
    pub order: Seq<Seq<char>>,
}

/// What has happened after one more event. Finishing an operation that never
/// began changes nothing.
pub open spec fn one_more_event(a: Annals, e: Event) -> Annals {
    match e {
        Event::Begin(id, kind, namespace, now) => Annals {
            records: a.records.insert(
                id,
                RecordView {
                    operation_id: id,
                    kind,
                    namespace,
                    status: OperationStatus::Running,
                    started_at_ms: now,
                    finished_at_ms: None,
                    error: None,
                },
            ),
            ..a
        },
        Event::Finish(id, status, error, now) => if a.records.dom().contains(id) {
            Annals {
                records: a.records.insert(
                    id,
                    RecordView { status, finished_at_ms: Some(now), error, ..a.records[id] },
                ),
                order: queued(a.order, id),
            }
        } else {
            a
        },
    }
}

/// What has happened in a history.
pub open spec fn annals(events: Seq<Event>) -> Annals
    decreases events.len(),
{
    if events.len() == 0 {
        Annals { records: Map::empty(), order: Seq::empty() }
    } else {
        one_more_event(annals(events.drop_last()), events.last())
    }
}

/// Whether every operation of a history begins under an id of its own, and ends
/// in a final state.
pub open spec fn orderly(events: Seq<Event>) -> bool
    decreases events.len(),
{
    events.len() == 0 || (orderly(events.drop_last()) && match events.last() {
        Event::Begin(id, _, _, _) => !annals(events.drop_last()).records.dom().contains(id),
        Event::Finish(_, status, _, _) => is_final(status),
    })
}

/// The last `n` of some ids.
pub open spec fn last_ones(s: Seq<Seq<char>>, n: nat) -> Seq<Seq<char>> {
    if s.len() > n {
        s.skip(s.len() - n)
    } else {
        s
    }
}

/// Whether an operation of a history is to be found in a registry with room for
/// `room` finished ones: it still runs, or is among the last to have finished.
pub open spec fn to_be_found(a: Annals, room: nat, id: Seq<char>) -> bool {
    a.records.dom().contains(id) && (a.records[id].status is Running || last_ones(
        a.order,
        room,
    ).contains(id))
}

/// The order of a history names each finished operation once, and no running
/// one.
proof fn lemma_annals(events: Seq<Event>)
    requires
        orderly(events),
    ensures
        annals(events).order.no_duplicates(),
        forall|id: Seq<char>| #[trigger]
            annals(events).order.contains(id) <==> annals(events).records.dom().contains(id)
                && is_final(annals(events).records[id].status),
    decreases events.len(),
{
    let now = annals(events);
    if events.len() > 0 {
        let before = annals(events.drop_last());
        lemma_annals(events.drop_last());
        match events.last() {
            Event::Begin(id, _, _, _) => {
                assert(now.order == before.order);
                assert(!before.order.contains(id));
            },
            Event::Finish(id, status, _, _) => {
                if before.records.dom().contains(id) {
                    assert(now.order == queued(before.order, id));
                    assert forall|k: Seq<char>| #[trigger] now.order.contains(k) <==> (
                    before.order.contains(k) || k == id) by {
                        if !before.order.contains(id) {
                            if k == id {
                                assert(now.order[before.order.len() as int] == id);
                            } else if before.order.contains(k) {
                                let i = choose|i: int|
                                    0 <= i < before.order.len() && before.order[i] == k;
                                assert(now.order[i] == k);
                            }
                        }
                    }
                }
            },
        }
    }
}

/// After any history of a registry, of whatever length, the finished operations
/// on record are exactly the last ones to have finished, as many as there is
/// room for, and every operation that still runs is on record, however old.
/// Each record is what was made of its operation since it began.
pub proof fn law_history_is_kept(max: nat, events: Seq<Event>, id: Seq<char>)
    requires
        max >= 1,
        orderly(events),
    ensures
        ({
            let r = after_events(empty_registry(max), events);
            let a = annals(events);
            &&& r.max_completed == max
            &&& r.completed == last_ones(a.order, max)
            &&& r.records.dom().contains(id) <==> to_be_found(a, max, id)
            &&& r.records.dom().contains(id) ==> r.records[id] == a.records[id]
        }),
    decreases events.len(),
{
    if events.len() > 0 {
        let r0 = after_events(empty_registry(max), events.drop_last());
        let a0 = annals(events.drop_last());
        let r = after_events(empty_registry(max), events);
        let a = annals(events);
        lemma_annals(events.drop_last());
        lemma_annals(events);
        law_history_is_kept(max, events.drop_last(), id);
        match events.last() {
            Event::Begin(x, _, _, _) => {
                if x == id {
                    assert(to_be_found(a, max, id));
                }
            },
            Event::Finish(x, status, error, now) => {
                law_history_is_kept(max, events.drop_last(), x);
                lemma_finish_in_history(r0, a0, max, id, x, status, error, now);
            },
        }
    }
}

proof fn lemma_finish_in_history(
    r0: RegistryView,
    a0: Annals,
    max: nat,
    id: Seq<char>,
    x: Seq<char>,
    status: OperationStatus,
    error: Option<Seq<char>>,
    now: u64,
)
    requires
        max >= 1,
        is_final(status),
        r0.max_completed == max,
        r0.completed == last_ones(a0.order, max),
        a0.order.no_duplicates(),
        forall|k: Seq<char>| #[trigger]
            a0.order.contains(k) <==> a0.records.dom().contains(k) && is_final(
                a0.records[k].status,
            ),
        r0.records.dom().contains(id) <==> to_be_found(a0, max, id),
        r0.records.dom().contains(id) ==> r0.records[id] == a0.records[id],
        r0.records.dom().contains(x) <==> to_be_found(a0, max, x),
        r0.records.dom().contains(x) ==> r0.records[x] == a0.records[x],
    ensures
        ({
            let r = finished(r0, x, status, error, now);
            let a = one_more_event(a0, Event::Finish(x, status, error, now));
            &&& r.max_completed == max
            &&& r.completed == last_ones(a.order, max)
            &&& r.records.dom().contains(id) <==> to_be_found(a, max, id)
            &&& r.records.dom().contains(id) ==> r.records[id] == a.records[id]
        }),
{
    let r = finished(r0, x, status, error, now);
    let a = one_more_event(a0, Event::Finish(x, status, error, now));
    let tail0 = last_ones(a0.order, max);
    let tail = last_ones(a.order, max);
    // What is among the last ones has finished.
    assert forall|k: Seq<char>| #[trigger] tail0.contains(k) implies a0.order.contains(k) by {
        let i = choose|i: int| 0 <= i < tail0.len() && tail0[i] == k;
        assert(a0.order[a0.order.len() - tail0.len() + i] == k);
    }
    if a0.records.dom().contains(x) && !a0.order.contains(x) {
        // It was running: it takes the last place, and the first may have to go.
        assert(a0.records[x].status is Running);
        assert(!tail0.contains(x));
        let longer = tail0.push(x);
        assert(a.order == a0.order.push(x));
        if a0.order.len() >= max {
            assert(tail0.len() == max);
            assert(tail =~= longer.skip(1));
            assert(longer[0] == tail0[0]);
            let gone = tail0[0];
            assert(tail0.contains(gone));
            assert(a0.order.contains(gone));
            assert(!tail.contains(gone)) by {
                if tail.contains(gone) {
                    let i = choose|i: int| 0 <= i < tail.len() && tail[i] == gone;
                    let base = a.order.len() - max;
                    assert(a.order[base + i] == gone);
                    assert(a0.order[a0.order.len() - max] == gone);
                    if base + i < a0.order.len() {
                        assert(a0.order[base + i] == gone);
                    }
                }
            }
            assert forall|k: Seq<char>| k != gone && k != x implies (#[trigger] tail.contains(k)
                <==> tail0.contains(k)) by {
                if tail0.contains(k) {
                    let i = choose|i: int| 0 <= i < tail0.len() && tail0[i] == k;
                    assert(longer[i] == k && i > 0);
                    assert(tail[i - 1] == k);
                }
                if tail.contains(k) {
                    let i = choose|i: int| 0 <= i < tail.len() && tail[i] == k;
                    assert(longer[i + 1] == k);
                    assert(tail0[i + 1] == k);
                }
            }
            assert(tail[tail.len() - 1] == x);
        } else {
            assert(tail =~= longer);
            assert forall|k: Seq<char>| k != x implies (#[trigger] tail.contains(k)
                <==> tail0.contains(k)) by {
                if tail0.contains(k) {
                    let i = choose|i: int| 0 <= i < tail0.len() && tail0[i] == k;
                    assert(tail[i] == k);
                }
                if tail.contains(k) {
                    let i = choose|i: int| 0 <= i < tail.len() && tail[i] == k;
                    assert(tail0[i] == k);
                }
            }
            assert(tail[tail.len() - 1] == x);
        }
        assert(tail.contains(x));
        assert(to_be_found(a, max, x));
    }
}

/// A registry keeps two hundred and fifty-six finished operations unless it is told
/// otherwise; a new one has nothing on record.
pub proof fn law_registries_start_empty(max: nat, id: Seq<char>)
    ensures
        DEFAULT_MAX_COMPLETED == 256,
        !empty_registry(max).records.dom().contains(id),
        empty_registry(max).completed.len() == 0,
        empty_registry(max).max_completed == max,
{
}

/// A new operation is on record as what it was started as, from the time of its
/// start, without an end and without a message.
pub proof fn law_new_operations_are_recorded_whole(
    r: RegistryView,
    id: Seq<char>,
    kind: OperationKind,
    namespace: Seq<char>,
    now: u64,
)
    ensures
        ({
            let record = begun(r, id, kind, namespace, now).records[id];
            &&& begun(r, id, kind, namespace, now).records.dom().contains(id)
            &&& record.operation_id == id
            &&& record.kind == kind
            &&& record.namespace == namespace
            &&& record.status is Running
            &&& record.started_at_ms == now
            &&& record.finished_at_ms is None
            &&& record.error is None
        }),
        begun(r, id, kind, namespace, now).max_completed == r.max_completed,
{
}

/// An operation that is not on record cannot finish: nothing changes.
pub proof fn law_unknown_operations_change_nothing(
    r: RegistryView,
    id: Seq<char>,
    status: OperationStatus,
    error: Option<Seq<char>>,
    now: u64,
)
    requires
        !r.records.dom().contains(id),
    ensures
        finished(r, id, status, error, now) == r,
{
}

/// A status is final exactly where the work has ended, well or not.
pub proof fn law_final_states(status: OperationStatus)
    ensures
        is_final(status) <==> status != OperationStatus::Running,
{
}

/// Records that are the same by their contents are the same in every part.
pub proof fn law_records_are_seen_whole(a: OperationRecord, b: OperationRecord)
    requires
        a@ == b@,
    ensures
        a.operation_id@ == b.operation_id@,
        a.kind == b.kind,
        a.namespace@ == b.namespace@,
        a.status == b.status,
        a.started_at_ms == b.started_at_ms,
        a.finished_at_ms == b.finished_at_ms,
        a.error is Some <==> b.error is Some,
        a.error is Some ==> a.error->0@ == b.error->0@,
{
}

} // verus!
