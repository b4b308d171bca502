//! The event store: an append-only log of events, each tagged with the
//! aggregate it belongs to, from which the events of one aggregate can be
//! read back in the order of their time.
//!
//! The store gives each event its number and its time. The numbers count up
//! from 1 and the times never run backwards, so the order in which the events
//! came is the order of their times.

use crate::errors::{ErrorModel, KnownErrors};
use crate::event::{
    domain_event_models, AggregateType, DomainEvent, DomainEventModel, EventType,
};
use crate::ids::AggregateId;
use vstd::prelude::*;

verus! {

/// One event as the store holds it.
#[derive(Debug, PartialEq, Eq)]
pub struct StoredEvent {
    /// The number that the store gave the event; later events have greater numbers.
    pub id: i64,
    pub aggregate_id: AggregateId,
    pub aggregate_type: AggregateType,
    pub event_type: EventType,
    pub payload: DomainEvent,
    /// When the event was recorded.
    pub created_at: i64,
}

/// A [`StoredEvent`] as a mathematical value.
pub struct RecordModel {
    pub id: int,
    pub aggregate_id: AggregateId,
    pub aggregate_type: AggregateType,
    pub event_type: EventType,
    pub payload: DomainEventModel,
    pub created_at: int,
}

impl View for StoredEvent {
    type V = RecordModel;

    open spec fn view(&self) -> RecordModel {
        RecordModel {
            id: self.id as int,
            aggregate_id: self.aggregate_id,
            aggregate_type: self.aggregate_type,
            event_type: self.event_type,
            payload: self.payload@,
            created_at: self.created_at as int,
        }
    }
}

impl Clone for StoredEvent {
    fn clone(&self) -> (copy: StoredEvent)
        ensures
            copy@ == self@,
    {
        StoredEvent {
            id: self.id,
            aggregate_id: self.aggregate_id,
            aggregate_type: self.aggregate_type,
            event_type: self.event_type,
            payload: self.payload.clone(),
            created_at: self.created_at,
        }
    }
}

/// The views of a list of stored events.
pub open spec fn record_models(records: Seq<StoredEvent>) -> Seq<RecordModel> {
    records.map_values(|r: StoredEvent| r@)
}

/// The payloads of a list of records.
pub open spec fn payloads_of(records: Seq<RecordModel>) -> Seq<DomainEventModel> {
    records.map_values(|r: RecordModel| r.payload)
}

/// The time that the store gives an event that arrives when the clock shows
/// `clock`: that time, or the time of the last event where the clock lags
/// behind it. The times of a log never run backwards.
pub open spec fn stamp(log: Seq<RecordModel>, clock: int) -> int {
    if log.len() > 0 && log.last().created_at > clock {
        log.last().created_at
    } else {
        clock
    }
}

/// The record that an append to `log` writes.
pub open spec fn new_record(
    log: Seq<RecordModel>,
    aggregate_id: AggregateId,
    payload: DomainEventModel,
    clock: int,
) -> RecordModel {
    RecordModel {
        id: log.len() as int + 1,
        aggregate_id,
        aggregate_type: payload.aggregate_type(),
        event_type: payload.event_type(),
        payload,
        created_at: stamp(log, clock),
    }
}

/// What holds of every log: the events are numbered from 1 in the order in
/// which they came, each is tagged with the kind and the type of its payload,
/// and none is earlier than one before it.
pub open spec fn well_formed_log(log: Seq<RecordModel>) -> bool {
    &&& log.len() <= i64::MAX
    &&& forall|i: int|
        0 <= i < log.len() ==> {
            &&& (#[trigger] log[i]).id == i + 1
            &&& log[i].aggregate_type == log[i].payload.aggregate_type()
            &&& log[i].event_type == log[i].payload.event_type()
        }
    &&& forall|i: int, j: int|
        #![trigger log[i], log[j]]
        0 <= i <= j < log.len() ==> log[i].created_at <= log[j].created_at
}

/// Whether `log` holds an event of the aggregate `aggregate_id`.
pub open spec fn aggregate_exists(log: Seq<RecordModel>, aggregate_id: AggregateId) -> bool {
    exists|k: int| 0 <= k < log.len() && (#[trigger] log[k]).aggregate_id == aggregate_id
}

/// Whether `record` belongs to the aggregate and has one of the types asked for.
pub open spec fn selects(
    record: RecordModel,
    aggregate_id: AggregateId,
    aggregate_type: AggregateType,
    event_types: Seq<EventType>,
) -> bool {
    &&& record.aggregate_id == aggregate_id
    &&& record.aggregate_type == aggregate_type
    &&& event_types.contains(record.event_type)
}

/// The selected records of `log`, in the order of the log.
pub open spec fn selection(
    log: Seq<RecordModel>,
    aggregate_id: AggregateId,
    aggregate_type: AggregateType,
    event_types: Seq<EventType>,
) -> Seq<RecordModel>
    decreases log.len(),
{
    if log.len() == 0 {
        Seq::empty()
    } else {
        let front = selection(log.drop_last(), aggregate_id, aggregate_type, event_types);
        if selects(log.last(), aggregate_id, aggregate_type, event_types) {
            front.push(log.last())
        } else {
            front
        }
    }
}

/// Whether `a` comes before `b`: by time, and by number where the times are equal.
pub open spec fn precedes(a: RecordModel, b: RecordModel) -> bool {
    a.created_at < b.created_at || (a.created_at == b.created_at && a.id < b.id)
}

/// Whether each record of `records` comes before those behind it.
pub open spec fn in_time_order(records: Seq<RecordModel>) -> bool {
    forall|i: int, j: int| 0 <= i < j < records.len() ==> precedes(records[i], records[j])
}

/// Whether `found` holds the selected records of `log`, all of them and no
/// others, each before those that come after it in time.
pub open spec fn is_selection(
    log: Seq<RecordModel>,
    found: Seq<RecordModel>,
    aggregate_id: AggregateId,
    aggregate_type: AggregateType,
    event_types: Seq<EventType>,
) -> bool {
    &&& in_time_order(found)
    &&& forall|i: int|
        0 <= i < found.len() ==> log.contains(#[trigger] found[i]) && selects(
            found[i],
            aggregate_id,
            aggregate_type,
            event_types,
        )
    &&& forall|k: int|
        0 <= k < log.len() && selects(#[trigger] log[k], aggregate_id, aggregate_type, event_types)
            ==> found.contains(log[k])
}

/// The front of a well-formed log is a well-formed log.
pub proof fn lemma_front_is_well_formed(log: Seq<RecordModel>)
    requires
        well_formed_log(log),
        log.len() > 0,
    ensures
        well_formed_log(log.drop_last()),
{
    let front = log.drop_last();
    assert forall|i: int| 0 <= i < front.len() implies {
        &&& (#[trigger] front[i]).id == i + 1
        &&& front[i].aggregate_type == front[i].payload.aggregate_type()
        &&& front[i].event_type == front[i].payload.event_type()
    } by {
        assert(front[i] == log[i]);
    }
    assert forall|i: int, j: int|
        #![trigger front[i], front[j]]
        0 <= i <= j < front.len() implies front[i].created_at <= front[j].created_at by {
        assert(log[i].created_at <= log[j].created_at);
    }
}

/// A well-formed log with the record of an append behind it is a well-formed log.
pub proof fn lemma_log_grows(
    log: Seq<RecordModel>,
    aggregate_id: AggregateId,
    payload: DomainEventModel,
    clock: int,
)
    requires
        well_formed_log(log),
        log.len() < i64::MAX,
    ensures
        well_formed_log(log.push(new_record(log, aggregate_id, payload, clock))),
{
    let record = new_record(log, aggregate_id, payload, clock);
    let after = log.push(record);
    assert forall|i: int| 0 <= i < after.len() implies {
        &&& (#[trigger] after[i]).id == i + 1
        &&& after[i].aggregate_type == after[i].payload.aggregate_type()
        &&& after[i].event_type == after[i].payload.event_type()
    } by {
        if i < log.len() {
            assert(after[i] == log[i]);
        }
    }
    assert forall|i: int, j: int|
        #![trigger after[i], after[j]]
        0 <= i <= j < after.len() implies after[i].created_at <= after[j].created_at by {
        if j < log.len() {
            assert(log[i].created_at <= log[j].created_at);
        } else if i < log.len() {
            assert(log[i].created_at <= log[log.len() - 1].created_at);
        }
    }
}

/// The selection of a well-formed log holds the selected records of the log,
/// all of them and no others, earliest first; records of one time come in the
/// order of their numbers.
pub proof fn lemma_selection_is_in_time_order(
    log: Seq<RecordModel>,
    aggregate_id: AggregateId,
    aggregate_type: AggregateType,
    event_types: Seq<EventType>,
)
    requires
        well_formed_log(log),
    ensures
        is_selection(
            log,
            selection(log, aggregate_id, aggregate_type, event_types),
            aggregate_id,
            aggregate_type,
            event_types,
        ),
    decreases log.len(),
{
    if log.len() > 0 {
        let front = log.drop_last();
        let last = log.last();
        let n = log.len() - 1;
        lemma_front_is_well_formed(log);
        lemma_selection_is_in_time_order(front, aggregate_id, aggregate_type, event_types);
        let found = selection(front, aggregate_id, aggregate_type, event_types);
        let grown = selection(log, aggregate_id, aggregate_type, event_types);
        assert forall|i: int| 0 <= i < found.len() implies log.contains(#[trigger] found[i])
            && precedes(found[i], last) by {
            assert(front.contains(found[i]));
            let k = choose|k: int| 0 <= k < front.len() && front[k] == found[i];
            assert(log[k] == found[i]);
            assert(log[k].id == k + 1);
            assert(log[n].id == n + 1);
            assert(log[k].created_at <= log[n].created_at);
        }
        assert forall|i: int| 0 <= i < grown.len() implies log.contains(#[trigger] grown[i])
            && selects(grown[i], aggregate_id, aggregate_type, event_types) by {
            if i < found.len() {
                assert(grown[i] == found[i]);
            } else {
                assert(log[n] == grown[i]);
            }
        }
        assert forall|k: int|
            0 <= k < log.len() && selects(
                #[trigger] log[k],
                aggregate_id,
                aggregate_type,
                event_types,
            ) implies grown.contains(log[k]) by {
            if k < n {
                assert(front[k] == log[k]);
                assert(found.contains(front[k]));
                let i = choose|i: int| 0 <= i < found.len() && found[i] == front[k];
                assert(grown[i] == log[k]);
            } else {
                assert(grown[grown.len() - 1] == log[k]);
            }
        }
        assert forall|i: int, j: int| 0 <= i < j < grown.len() implies precedes(
            grown[i],
            grown[j],
        ) by {
            assert(grown[i] == found[i]);
            if j < found.len() {
                assert(grown[j] == found[j]);
            }
        }
    }
}

/// An aggregate without an event in the log has nothing in any selection.
pub proof fn lemma_unused_id_selects_nothing(
    log: Seq<RecordModel>,
    aggregate_id: AggregateId,
    aggregate_type: AggregateType,
    event_types: Seq<EventType>,
)
    requires
        !aggregate_exists(log, aggregate_id),
    ensures
        selection(log, aggregate_id, aggregate_type, event_types) == Seq::<RecordModel>::empty(),
    decreases log.len(),
{
    if log.len() > 0 {
        let front = log.drop_last();
        assert(log[log.len() - 1].aggregate_id != aggregate_id);
        assert(!aggregate_exists(front, aggregate_id)) by {
            if aggregate_exists(front, aggregate_id) {
                let k = choose|k: int|
                    0 <= k < front.len() && (#[trigger] front[k]).aggregate_id == aggregate_id;
                assert(log[k].aggregate_id == aggregate_id);
            }
        }
        lemma_unused_id_selects_nothing(front, aggregate_id, aggregate_type, event_types);
    }
}

/// Two lists in time order that hold the same records are one list.
pub proof fn lemma_time_order_is_unique(a: Seq<RecordModel>, b: Seq<RecordModel>)
    requires
        in_time_order(a),
        in_time_order(b),
        forall|r: RecordModel| a.contains(r) <==> b.contains(r),
    ensures
        a == b,
    decreases a.len(),
{
    if a.len() == 0 {
        if b.len() > 0 {
            assert(b.contains(b[0]));
        }
        assert(a =~= b);
    } else {
        assert(a.contains(a[0]));
        let j = choose|j: int| 0 <= j < b.len() && b[j] == a[0];
        assert(b.contains(b[0]));
        let i = choose|i: int| 0 <= i < a.len() && a[i] == b[0];
        if i > 0 && j > 0 {
            assert(precedes(a[0], a[i]));
            assert(precedes(b[0], b[j]));
        }
        assert(a[0] == b[0]);
        let ta = a.skip(1);
        let tb = b.skip(1);
        assert forall|r: RecordModel| ta.contains(r) <==> tb.contains(r) by {
            if ta.contains(r) {
                let k = choose|k: int| 0 <= k < ta.len() && ta[k] == r;
                assert(a[k + 1] == r);
                assert(precedes(a[0], a[k + 1]));
                assert(b.contains(r));
                let m = choose|m: int| 0 <= m < b.len() && b[m] == r;
                assert(m > 0);
                assert(tb[m - 1] == r);
            }
            if tb.contains(r) {
                let k = choose|k: int| 0 <= k < tb.len() && tb[k] == r;
                assert(b[k + 1] == r);
                assert(precedes(b[0], b[k + 1]));
                assert(a.contains(r));
                let m = choose|m: int| 0 <= m < a.len() && a[m] == r;
                assert(m > 0);
                assert(ta[m - 1] == r);
            }
        }
        assert forall|x: int, y: int| 0 <= x < y < ta.len() implies precedes(ta[x], ta[y]) by {
            assert(precedes(a[x + 1], a[y + 1]));
        }
        assert forall|x: int, y: int| 0 <= x < y < tb.len() implies precedes(tb[x], tb[y]) by {
            assert(precedes(b[x + 1], b[y + 1]));
        }
        lemma_time_order_is_unique(ta, tb);
        assert(a =~= seq![a[0]] + ta);
        assert(b =~= seq![b[0]] + tb);
    }
}

/// A well-formed log has one list of its selected records in time order:
/// whatever meets [`is_selection`] is [`selection`].
pub proof fn lemma_selection_is_unique(
    log: Seq<RecordModel>,
    found: Seq<RecordModel>,
    aggregate_id: AggregateId,
    aggregate_type: AggregateType,
    event_types: Seq<EventType>,
)
    requires
        well_formed_log(log),
        is_selection(log, found, aggregate_id, aggregate_type, event_types),
    ensures
        found == selection(log, aggregate_id, aggregate_type, event_types),
{
    let other = selection(log, aggregate_id, aggregate_type, event_types);
    lemma_selection_is_in_time_order(log, aggregate_id, aggregate_type, event_types);
    assert forall|r: RecordModel| found.contains(r) <==> other.contains(r) by {
        if found.contains(r) {
            let i = choose|i: int| 0 <= i < found.len() && found[i] == r;
            assert(log.contains(found[i]));
            let k = choose|k: int| 0 <= k < log.len() && log[k] == r;
            assert(selects(log[k], aggregate_id, aggregate_type, event_types));
        }
        if other.contains(r) {
            let i = choose|i: int| 0 <= i < other.len() && other[i] == r;
            assert(log.contains(other[i]));
            let k = choose|k: int| 0 <= k < log.len() && log[k] == r;
            assert(selects(log[k], aggregate_id, aggregate_type, event_types));
        }
    }
    lemma_time_order_is_unique(found, other);
}

/// The selected records of a well-formed log carry payloads of the kind asked for.
pub proof fn lemma_selection_has_kind(
    log: Seq<RecordModel>,
    aggregate_id: AggregateId,
    aggregate_type: AggregateType,
    event_types: Seq<EventType>,
)
    requires
        well_formed_log(log),
    ensures
        forall|i: int|
            0 <= i < selection(log, aggregate_id, aggregate_type, event_types).len() ==> {
                let record = #[trigger] selection(
                    log,
                    aggregate_id,
                    aggregate_type,
                    event_types,
                )[i];
                &&& record.payload.aggregate_type() == aggregate_type
                &&& record.aggregate_id == aggregate_id
                &&& event_types.contains(record.payload.event_type())
            },
{
    let found = selection(log, aggregate_id, aggregate_type, event_types);
    lemma_selection_is_in_time_order(log, aggregate_id, aggregate_type, event_types);
    assert forall|i: int| 0 <= i < found.len() implies {
        let record = #[trigger] found[i];
        &&& record.payload.aggregate_type() == aggregate_type
        &&& record.aggregate_id == aggregate_id
        &&& event_types.contains(record.payload.event_type())
    } by {
        assert(log.contains(found[i]));
        let k = choose|k: int| 0 <= k < log.len() && log[k] == found[i];
        assert(log[k].aggregate_type == log[k].payload.aggregate_type());
        assert(log[k].event_type == log[k].payload.event_type());
    }
}

/// An append-only log of events.
#[derive(Debug)]
pub struct EventStore {
    events: Vec<StoredEvent>,
}

impl View for EventStore {
    type V = Seq<RecordModel>;

    closed spec fn view(&self) -> Seq<RecordModel> {
        record_models(self.events@)
    }
}

/// Whether `event_type` is one of `event_types`.
pub fn type_is_among(event_type: EventType, event_types: &Vec<EventType>) -> (found: bool)
    ensures
        found == event_types@.contains(event_type),
{
    let mut i: usize = 0;
    while i < event_types.len()
        invariant
            i <= event_types.len(),
            forall|k: int| 0 <= k < i ==> event_types@[k] != event_type,
        decreases event_types.len() - i,
    {
        if event_types[i] == event_type {
            return true;
        }
        i += 1;
    }
    false
}

impl EventStore {
    /// The log is well formed. Every constructor establishes this and every
    /// method keeps it.
    pub open spec fn wf(&self) -> bool {
        well_formed_log(self@)
    }

    /// The store without any event.
    pub fn new() -> (store: EventStore)
        ensures
            store.wf(),
            store@ == Seq::<RecordModel>::empty(),
    {
        let store = EventStore { events: Vec::new() };
        assert(store@ =~= Seq::<RecordModel>::empty());
        store
    }

    /// How many events the store holds.
    pub fn len(&self) -> (count: usize)
        ensures
            count == self@.len(),
    {
        self.events.len()
    }

    /// The number of the last event, or 0 in an empty store. A writer that read
    /// the store at one version can tell from a later version that others wrote.
    pub fn version(&self) -> (version: i64)
        requires
            self.wf(),
        ensures
            version == self@.len(),
    {
        let count = self.events.len();
        if count == 0 {
            0
        } else {
            assert(self@[count - 1].id == count);
            self.events[count - 1].id
        }
    }

    /// Whether the store holds an event of the aggregate `aggregate_id`.
    pub fn holds_aggregate(&self, aggregate_id: AggregateId) -> (held: bool)
        ensures
            held == aggregate_exists(self@, aggregate_id),
    {
        let mut i: usize = 0;
        while i < self.events.len()
            invariant
                i <= self.events.len(),
                forall|k: int| 0 <= k < i ==> (#[trigger] self@[k]).aggregate_id != aggregate_id,
            decreases self.events.len() - i,
        {
            if self.events[i].aggregate_id == aggregate_id {
                assert(self@[i as int].aggregate_id == aggregate_id);
                return true;
            }
            i += 1;
        }
        false
    }

    /// The stored events in the order in which they came.
    pub fn events(&self) -> (all: &Vec<StoredEvent>)
        ensures
            record_models(all@) == self@,
    {
        &self.events
    }

    /// Records `payload` as the next event of the aggregate `aggregate_id`, at
    /// the time that the clock shows, and returns the number that the event got.
    ///
    /// The event is tagged with the kind and the type of its payload. Its time
    /// is `clock`, or the time of the last event where the clock lags behind
    /// it. Nothing that the store held changes. A store that has run out of
    /// numbers refuses with `StoreError` and stays as it was.
    pub fn append(
        &mut self,
        aggregate_id: AggregateId,
        payload: DomainEvent,
        clock: i64,
    ) -> (event_id: Result<i64, KnownErrors>)
        requires
            old(self).wf(),
        ensures
            final(self).wf(),
            event_id is Ok <==> old(self)@.len() < i64::MAX,
            event_id matches Ok(id) ==> id == old(self)@.len() + 1 && final(self)@ == old(
                self,
            )@.push(new_record(old(self)@, aggregate_id, payload@, clock as int)),
            event_id matches Err(error) ==> error@ == ErrorModel::StoreError && final(self)@
                == old(self)@,
    {
        let count = self.events.len();
        if count as u64 >= 0x7fff_ffff_ffff_ffff {
            return Err(KnownErrors::StoreError);
        }
        let id: i64 = (count as u64 + 1) as i64;
        let created_at = if count > 0 && self.events[count - 1].created_at > clock {
            self.events[count - 1].created_at
        } else {
            clock
        };
        let record = StoredEvent {
            id,
            aggregate_id,
            aggregate_type: payload.aggregate_type(),
            event_type: payload.event_type(),
            payload,
            created_at,
        };
        let ghost before = self.events@;
        proof {
            if count > 0 {
                assert(self@[count - 1] == self@.last());
            }
            lemma_log_grows(self@, aggregate_id, payload@, clock as int);
        }
        self.events.push(record);
        assert(record_models(self.events@) =~= record_models(before).push(record@));
        Ok(id)
    }

    /// The events of the aggregate `aggregate_id` of kind `aggregate_type` whose
    /// type is among `event_types`, in the order in which they came, which is
    /// the order of their times. An aggregate without such events gives an
    /// empty list.
    pub fn query(
        &self,
        aggregate_id: AggregateId,
        aggregate_type: AggregateType,
        event_types: &Vec<EventType>,
    ) -> (found: Vec<StoredEvent>)
        requires
            self.wf(),
        ensures
            record_models(found@) == selection(self@, aggregate_id, aggregate_type, event_types@),
            is_selection(
                self@,
                record_models(found@),
                aggregate_id,
                aggregate_type,
                event_types@,
            ),
    {
        let mut found: Vec<StoredEvent> = Vec::new();
        let mut n: usize = 0;
        assert(self@.take(0) =~= Seq::<RecordModel>::empty());
        assert(record_models(found@) =~= Seq::<RecordModel>::empty());
        while n < self.events.len()
            invariant
                n <= self.events.len(),
                record_models(found@) == selection(
                    self@.take(n as int),
                    aggregate_id,
                    aggregate_type,
                    event_types@,
                ),
            decreases self.events.len() - n,
        {
            let record = &self.events[n];
            proof {
                assert(record@ == self@[n as int]);
                assert(self@.take(n + 1).drop_last() =~= self@.take(n as int));
                assert(self@.take(n + 1).last() == self@[n as int]);
            }
            if record.aggregate_id == aggregate_id && record.aggregate_type == aggregate_type
                && type_is_among(record.event_type, event_types) {
                let ghost front = record_models(found@);
                found.push(record.clone());
                assert(record_models(found@) =~= front.push(record@));
            }
            n += 1;
        }
        proof {
            assert(self@.take(n as int) =~= self@);
            lemma_selection_is_in_time_order(self@, aggregate_id, aggregate_type, event_types@);
        }
        found
    }
}

/// The payloads of `records`, in their order.
pub fn payloads(records: Vec<StoredEvent>) -> (events: Vec<DomainEvent>)
    ensures
        domain_event_models(events@) == payloads_of(record_models(records@)),
{
    let mut events: Vec<DomainEvent> = Vec::new();
    let ghost all = record_models(records@);
    for record in it: records.into_iter()
        invariant
            all == record_models(it.seq()),
            events@.len() == it.index(),
            forall|k: int| 0 <= k < events@.len() ==> (#[trigger] events@[k])@ == all[k].payload,
    {
        events.push(record.payload);
    }
    assert(domain_event_models(events@) =~= payloads_of(all));
    events
}

} // verus!
