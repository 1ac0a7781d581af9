//! What a relational store of events decides: how it is opened, how a row
//! stands for an event, and what the answer to an insertion means.
//!
//! The statements against the database are made elsewhere; here are the
//! rules that surround them.

use vstd::prelude::*;
use crate::event::{Event, EventId, EventView, Message, MessageView};
use crate::history::{RecordOutcome, StorageFailure};
use crate::log::{holds_id, holds_message, verdict, well_formed, Verdict};

verus! {

/// The schema generation that this library reads and writes.
pub const CURRENT_VERSION: u32 = 1;

/// What a refusal to open a store of a later generation says.
pub const NEWER_VERSION_MESSAGE: &'static str =
    "Chat History has been created by a newer version. To load it you need to upgrade to a newer \
    version.";

/// Extended result code of SQLite for a violated `UNIQUE` constraint.
pub const SQLITE_CONSTRAINT_UNIQUE: i32 = 2067;

/// The highest identifier that a row can hold: the database keeps
/// identifiers as signed integers of 64 bits.
pub const MAX_STORED_ID: u64 = 0x7fff_ffff_ffff_ffff;

/// What opening a store found, by its schema generation.
#[derive(Clone, Copy, PartialEq, Eq, Debug, Structural)]
pub enum MigrationOutcome {
    /// The store is empty. The schema is to be created and the generation
    /// set to [`CURRENT_VERSION`], both in one transaction.
    Created,
    /// The store is of the current generation. Nothing is to be written.
    NoMigration,
    /// The store is of a later generation. Nothing is to be written and
    /// the store is not to be used.
    Future { version: u32 },
}

/// A store was written by a later generation of the schema.
#[derive(Clone, Copy, PartialEq, Eq, Debug, Structural)]
pub struct NewerVersion {
    /// The generation found.
    pub version: u32,
}

impl NewerVersion {
    /// The refusal in words.
    pub fn message(&self) -> (text: String)
        ensures
            text@ == NEWER_VERSION_MESSAGE@,
    {
        NEWER_VERSION_MESSAGE.to_owned()
    }
}

/// What is to be done with a store whose schema generation is
/// `user_version`.
pub open spec fn outcome_for(user_version: u32) -> MigrationOutcome {
    if user_version == 0 {
        MigrationOutcome::Created
    } else if user_version == CURRENT_VERSION {
        MigrationOutcome::NoMigration
    } else {
        MigrationOutcome::Future { version: user_version }
    }
}

/// Decides what to do with a store whose schema generation is
/// `user_version`.
pub fn migrate(user_version: u32) -> (outcome: MigrationOutcome)
    ensures
        outcome == outcome_for(user_version),
{
    if user_version == 0 {
        MigrationOutcome::Created
    } else if user_version == CURRENT_VERSION {
        MigrationOutcome::NoMigration
    } else {
        MigrationOutcome::Future { version: user_version }
    }
}

impl MigrationOutcome {
    /// Whether anything is to be written to the store on opening it.
    pub open spec fn asks_to_write(self) -> bool {
        self == MigrationOutcome::Created
    }

    /// What the opening of the store comes to.
    pub open spec fn status(self) -> Result<(), NewerVersion> {
        match self {
            MigrationOutcome::Future { version } => Err(NewerVersion { version }),
            _ => Ok(()),
        }
    }

    /// Whether anything is to be written to the store on opening it.
    pub fn writes(&self) -> (writes: bool)
        ensures
            writes == self.asks_to_write(),
    {
        match self {
            MigrationOutcome::Created => true,
            MigrationOutcome::NoMigration => false,
            MigrationOutcome::Future { .. } => false,
        }
    }

    /// Whether the store may be used: not if a later generation wrote it.
    pub fn report_migration_status(self) -> (status: Result<(), NewerVersion>)
        ensures
            status == self.status(),
    {
        match self {
            MigrationOutcome::Created => Ok(()),
            MigrationOutcome::NoMigration => Ok(()),
            MigrationOutcome::Future { version } => Err(NewerVersion { version }),
        }
    }
}

/// A store of a later generation is refused, with the generation found,
/// and nothing is to be written to it.
pub proof fn lemma_newer_version_is_refused_unwritten(user_version: u32)
    requires
        user_version > CURRENT_VERSION,
    ensures
        !outcome_for(user_version).asks_to_write(),
        outcome_for(user_version).status() == Err::<(), NewerVersion>(
            NewerVersion { version: user_version },
        ),
{
}

/// The identifier from which a store goes on counting: the highest that
/// it holds, or the identifier before all where it holds none.
pub fn starting_event_id(highest: Option<EventId>) -> (id: EventId)
    ensures
        id == match highest {
            Some(held) => held,
            None => EventId(0),
        },
{
    match highest {
        Some(held) => held,
        None => EventId::before_all(),
    }
}

/// The integer that the database keeps for `value`: the same 64 bits,
/// read with a sign.
pub open spec fn signed(value: u64) -> int {
    if value <= i64::MAX {
        value as int
    } else {
        value - 0x1_0000_0000_0000_0000
    }
}

/// The value that the database integer `stored` stands for: the same 64
/// bits, read without a sign.
pub open spec fn unsigned(stored: i64) -> int {
    if stored >= 0 {
        stored as int
    } else {
        stored + 0x1_0000_0000_0000_0000
    }
}

/// Converts a value to the integer that the database keeps for it.
pub fn to_signed(value: u64) -> (stored: i64)
    ensures
        stored == signed(value),
        unsigned(stored) == value,
{
    if value <= 0x7fff_ffff_ffff_ffff {
        value as i64
    } else {
        let low: u64 = value - 0x8000_0000_0000_0000;
        (low as i64) + i64::MIN
    }
}

/// Converts a database integer to the value that it stands for.
pub fn to_unsigned(stored: i64) -> (value: u64)
    ensures
        value == unsigned(stored),
        signed(value) == stored,
{
    if stored >= 0 {
        stored as u64
    } else {
        let low: i64 = stored - i64::MIN;
        (low as u64) + 0x8000_0000_0000_0000
    }
}

/// The bound of a query for the events after `last_event_id`, as the
/// database keeps it; none where no row can hold a greater identifier,
/// so that there is nothing to query.
pub fn query_bound(last_event_id: EventId) -> (bound: Option<i64>)
    ensures
        match bound {
            Some(stored) => last_event_id.0 < MAX_STORED_ID && stored == last_event_id.0,
            None => last_event_id.0 >= MAX_STORED_ID,
        },
{
    if last_event_id.0 < MAX_STORED_ID {
        Some(to_signed(last_event_id.0))
    } else {
        None
    }
}

/// The number that `bytes` spell, most significant byte first.
pub open spec fn big_endian(bytes: Seq<u8>) -> nat
    decreases bytes.len(),
{
    if bytes.len() == 0 {
        0
    } else {
        big_endian(bytes.drop_last()) * 256 + bytes.last() as nat
    }
}

/// Calls `uuid::Uuid::from_slice` and, on the identifier that it gives,
/// `uuid::Uuid::as_u128`. The first accepts exactly the slices of 16
/// bytes; the second reads those bytes as one number, most significant
/// byte first.
#[verifier::external_body]
fn message_id_from_bytes(bytes: &[u8]) -> (id: Option<u128>)
    ensures
        id is Some <==> bytes@.len() == 16,
        id matches Some(value) ==> value == big_endian(bytes@),
{
    match uuid::Uuid::from_slice(bytes) {
        Ok(id) => Some(id.as_u128()),
        Err(_) => None,
    }
}

/// Calls `uuid::Uuid::from_u128` and copies the bytes that
/// `uuid::Uuid::as_bytes` shows of the result: the 16 bytes of the
/// number, most significant first.
#[verifier::external_body]
fn message_id_to_bytes(id: u128) -> (bytes: Vec<u8>)
    ensures
        bytes@.len() == 16,
        big_endian(bytes@) == id,
{
    uuid::Uuid::from_u128(id).as_bytes().to_vec()
}

/// A row of the table of events.
#[derive(Debug)]
pub struct StoredRow {
    /// Identifier of the event.
    pub id: i64,
    /// The 16 bytes of the client identifier.
    pub message_id: Vec<u8>,
    pub sender: String,
    pub content: String,
    /// Milliseconds since the Unix epoch.
    pub timestamp_ms: i64,
}

/// The event that a row stands for, if its client identifier has 16 bytes.
pub open spec fn decoded(row: StoredRow) -> Option<EventView> {
    if row.message_id@.len() == 16 {
        Some(
            EventView {
                id: unsigned(row.id) as u64,
                message: MessageView {
                    id: big_endian(row.message_id@) as u128,
                    sender: row.sender@,
                    content: row.content@,
                },
                timestamp_ms: unsigned(row.timestamp_ms) as u64,
            },
        )
    } else {
        None
    }
}

/// The row that stands for `event`.
pub fn encode_row(event: &Event) -> (row: StoredRow)
    ensures
        decoded(row) == Some(event@),
        row.id == signed(event.id.0),
        row.timestamp_ms == signed(event.timestamp_ms),
        row.sender@ == event.message.sender@,
        row.content@ == event.message.content@,
{
    StoredRow {
        id: to_signed(event.id.0),
        message_id: message_id_to_bytes(event.message.id),
        sender: event.message.sender.clone(),
        content: event.message.content.clone(),
        timestamp_ms: to_signed(event.timestamp_ms),
    }
}

/// The event that `row` stands for; none where its client identifier has
/// not 16 bytes.
pub fn decode_row(row: &StoredRow) -> (event: Option<Event>)
    ensures
        match event {
            Some(event) => decoded(*row) == Some(event@),
            None => decoded(*row) is None,
        },
{
    match message_id_from_bytes(row.message_id.as_slice()) {
        Some(id) => Some(
            Event {
                id: EventId(to_unsigned(row.id)),
                message: Message { id, sender: row.sender.clone(), content: row.content.clone() },
                timestamp_ms: to_unsigned(row.timestamp_ms),
            },
        ),
        None => None,
    }
}

/// The events that `rows` stand for, row by row.
pub open spec fn all_decoded(rows: Seq<StoredRow>, events: Seq<Event>) -> bool {
    &&& events.len() == rows.len()
    &&& forall|i: int| 0 <= i < rows.len() ==> decoded(#[trigger] rows[i]) == Some(events[i]@)
}

/// Turns the rows that a query for the events after some identifier
/// returned into events, in the order of the rows. A row that stands for
/// no event makes the whole read fail.
pub fn fetch_events_since(rows: &Vec<StoredRow>) -> (result: Result<Vec<Event>, StorageFailure>)
    ensures
        match result {
            Ok(events) => all_decoded(rows@, events@),
            Err(_) => exists|i: int| 0 <= i < rows@.len() && decoded(#[trigger] rows@[i]) is None,
        },
{
    let mut events: Vec<Event> = Vec::new();
    let mut i: usize = 0;
    while i < rows.len()
        invariant
            i <= rows@.len(),
            all_decoded(rows@.subrange(0, i as int), events@),
        decreases rows@.len() - i,
    {
        match decode_row(&rows[i]) {
            Some(event) => {
                events.push(event);
                assert forall|j: int| 0 <= j < i + 1 implies decoded(
                    #[trigger] rows@.subrange(0, i + 1)[j],
                ) == Some(events@[j]@) by {
                    if j < i {
                        assert(rows@.subrange(0, i as int)[j] == rows@[j]);
                    }
                }
            },
            None => {
                return Err(StorageFailure);
            },
        }
        i += 1;
    }
    assert(rows@.subrange(0, i as int) =~= rows@);
    Ok(events)
}

/// Whether an error of the database reports a violated `UNIQUE`
/// constraint, by its primary kind and its extended code.
pub fn is_unique_violation(constraint_violation: bool, extended_code: i32) -> (unique: bool)
    ensures
        unique == (constraint_violation && extended_code == SQLITE_CONSTRAINT_UNIQUE),
{
    constraint_violation && extended_code == SQLITE_CONSTRAINT_UNIQUE
}

/// What a look-up of the row that holds a client identifier gave.
#[derive(Debug)]
pub enum Lookup {
    /// The sender and the content of that row.
    Found { sender: String, content: String },
    /// The look-up failed.
    Failed,
}

/// What the database answered to the insertion of a row.
#[derive(Debug)]
pub enum InsertAttempt {
    /// The row was inserted.
    Inserted,
    /// The client identifier is taken; the row that holds it was looked
    /// up.
    UniqueViolation(Lookup),
    /// The database failed otherwise.
    Failed,
}

/// What an insertion came to.
#[derive(Clone, Copy, PartialEq, Eq, Debug, Structural)]
pub enum InsertOutcome {
    /// The message was not recorded before and now is.
    New,
    /// The very same message was recorded before. Nothing changed.
    Duplicate,
    /// A different message holds the client identifier. Nothing changed.
    Conflict,
}

/// What the answer `attempt` to the insertion of `m` means.
pub open spec fn insert_outcome(attempt: InsertAttempt, m: MessageView) -> Result<
    InsertOutcome,
    StorageFailure,
> {
    match attempt {
        InsertAttempt::Inserted => Ok(InsertOutcome::New),
        InsertAttempt::UniqueViolation(Lookup::Found { sender, content }) => if sender@ == m.sender
            && content@ == m.content {
            Ok(InsertOutcome::Duplicate)
        } else {
            Ok(InsertOutcome::Conflict)
        },
        InsertAttempt::UniqueViolation(Lookup::Failed) => Err(StorageFailure),
        InsertAttempt::Failed => Err(StorageFailure),
    }
}

/// Says what the database's answer to the insertion of `message` means:
/// a taken identifier is a repetition where sender and content are those
/// of the row that holds it, and a conflict where they are not.
pub fn insert_event(attempt: InsertAttempt, message: &Message) -> (result: Result<
    InsertOutcome,
    StorageFailure,
>)
    ensures
        result == insert_outcome(attempt, message@),
{
    match attempt {
        InsertAttempt::Inserted => Ok(InsertOutcome::New),
        InsertAttempt::UniqueViolation(Lookup::Found { sender, content }) => {
            if sender == message.sender && content == message.content {
                Ok(InsertOutcome::Duplicate)
            } else {
                Ok(InsertOutcome::Conflict)
            }
        },
        InsertAttempt::UniqueViolation(Lookup::Failed) => Err(StorageFailure),
        InsertAttempt::Failed => Err(StorageFailure),
    }
}

/// Whether `attempt` is what a database that holds `log`, and keeps the
/// client identifiers unique, answers to the insertion of `m` when it does
/// not fail: it inserts where the identifier is free, and else shows the
/// row that holds it.
pub open spec fn reflects(attempt: InsertAttempt, log: Seq<EventView>, m: MessageView) -> bool {
    match attempt {
        InsertAttempt::Inserted => !holds_id(log, m.id),
        InsertAttempt::UniqueViolation(Lookup::Found { sender, content }) => exists|i: int|
            0 <= i < log.len() && (#[trigger] log[i]).message.id == m.id && log[i].message.sender
                == sender@ && log[i].message.content == content@,
        _ => false,
    }
}

/// Read from the answers of a database that keeps client identifiers
/// unique, the outcome of an insertion is the verdict of the log on the
/// message.
pub proof fn lemma_insert_outcome_is_verdict(
    attempt: InsertAttempt,
    log: Seq<EventView>,
    m: MessageView,
)
    requires
        well_formed(log),
        log.len() < u64::MAX,
        reflects(attempt, log, m),
    ensures
        insert_outcome(attempt, m) == Ok::<InsertOutcome, StorageFailure>(InsertOutcome::New)
            <==> verdict(log, m) == Verdict::New,
        insert_outcome(attempt, m) == Ok::<InsertOutcome, StorageFailure>(
            InsertOutcome::Duplicate,
        ) <==> verdict(log, m) == Verdict::Duplicate,
        insert_outcome(attempt, m) == Ok::<InsertOutcome, StorageFailure>(
            InsertOutcome::Conflict,
        ) <==> verdict(log, m) == Verdict::Conflict,
{
    match attempt {
        InsertAttempt::Inserted => {
            if holds_message(log, m) {
                let j = choose|j: int| 0 <= j < log.len() && (#[trigger] log[j]).message == m;
                assert(log[j].message.id == m.id);
            }
        },
        InsertAttempt::UniqueViolation(Lookup::Found { sender, content }) => {
            let i = choose|i: int|
                0 <= i < log.len() && (#[trigger] log[i]).message.id == m.id
                    && log[i].message.sender == sender@ && log[i].message.content == content@;
            if sender@ == m.sender && content@ == m.content {
                assert(log[i].message == m);
            } else if holds_message(log, m) {
                let j = choose|j: int| 0 <= j < log.len() && (#[trigger] log[j]).message == m;
                assert(log[i].message.id == log[j].message.id);
            }
        },
        _ => {},
    }
}

/// The count of events of a store whose events are kept elsewhere.
#[derive(Clone, Copy, Debug)]
pub struct EventCounter {
    /// Identifier of the event recorded last.
    last_event_id: EventId,
}

impl EventCounter {
    /// Identifier of the event recorded last, or the identifier before
    /// all.
    pub closed spec fn last(&self) -> u64 {
        self.last_event_id.0
    }

    /// The count of a store just opened, whose highest identifier is
    /// `highest`.
    pub fn new(highest: Option<EventId>) -> (counter: Self)
        ensures
            counter.last() == match highest {
                Some(held) => held.0,
                None => 0,
            },
    {
        EventCounter { last_event_id: starting_event_id(highest) }
    }

    /// Identifier of the event recorded last, or the identifier before
    /// all.
    pub fn last_event_id(&self) -> (id: EventId)
        ensures
            id.0 == self.last(),
    {
        self.last_event_id
    }

    /// The event under which `message`, accepted at `timestamp_ms`, is to
    /// be inserted: it carries the next unused identifier. There is none
    /// once the identifiers that a row can hold are used up.
    pub fn next_event(&self, message: Message, timestamp_ms: u64) -> (event: Option<Event>)
        ensures
            match event {
                Some(event) => {
                    &&& self.last() < MAX_STORED_ID
                    &&& event.id.0 == self.last() + 1
                    &&& event.message == message
                    &&& event.timestamp_ms == timestamp_ms
                },
                None => self.last() >= MAX_STORED_ID,
            },
    {
        if self.last_event_id.0 >= MAX_STORED_ID {
            None
        } else {
            Some(Event::with_timestamp(self.last_event_id.successor(), message, timestamp_ms))
        }
    }

    /// Concludes the recording of a message for which `event` was to be
    /// inserted: the count moves on only where the insertion took place.
    pub fn record_message(
        &mut self,
        event: Event,
        inserted: Result<InsertOutcome, StorageFailure>,
    ) -> (outcome: RecordOutcome)
        ensures
            match inserted {
                Ok(InsertOutcome::New) => {
                    &&& outcome == RecordOutcome::New(event)
                    &&& final(self).last() == event.id.0
                },
                Ok(InsertOutcome::Duplicate) => {
                    &&& outcome is Duplicate
                    &&& final(self).last() == old(self).last()
                },
                Ok(InsertOutcome::Conflict) => {
                    &&& outcome is Conflict
                    &&& final(self).last() == old(self).last()
                },
                Err(_) => {
                    &&& outcome is StorageFailure
                    &&& final(self).last() == old(self).last()
                },
            },
    {
        match inserted {
            Ok(InsertOutcome::New) => {
                self.last_event_id = event.id;
                RecordOutcome::New(event)
            },
            Ok(InsertOutcome::Duplicate) => RecordOutcome::Duplicate,
            Ok(InsertOutcome::Conflict) => RecordOutcome::Conflict,
            Err(_) => RecordOutcome::StorageFailure,
        }
    }
}

} // verus!
