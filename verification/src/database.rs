//! The time-series store: balance snapshots kept in time order, and the usage
//! records derived from each snapshot and the one before it.
//!
//! The store lives in memory. Times are milliseconds since the Unix epoch and
//! identifiers are 128-bit numbers; whoever persists the records writes what
//! the store hands back.

use vstd::prelude::*;
use vstd::string::StringExecFns;
use crate::error::{AppError, AppResult};

verus! {

/// The most snapshots, and the most usage records, that a store holds.
pub const MAX_RECORDS: usize = 0x7fff_ffff;

/// One timestamped balance reading.
#[derive(Debug)]
pub struct BalanceRecord {
    pub id: u128,
    pub amount: u32,
    pub timestamp: i64,
    pub source: String,
}

impl Clone for BalanceRecord {
    fn clone(&self) -> (copy: Self)
        ensures
            copy == *self,
    {
        BalanceRecord {
            id: self.id,
            amount: self.amount,
            timestamp: self.timestamp,
            source: self.source.clone(),
        }
    }
}

/// Consumption between two consecutive snapshots.
#[derive(Clone, Copy, Debug, PartialEq, Eq, Structural)]
pub struct UsageRecord {
    pub id: u128,
    pub start_balance: u32,
    pub end_balance: u32,
    pub usage_amount: u32,
    pub duration_minutes: u32,
    pub timestamp: i64,
}

impl UsageRecord {
    /// A usage record is a positive decrease over at least one minute.
    pub open spec fn valid(self) -> bool {
        &&& self.usage_amount > 0
        &&& self.duration_minutes >= 1
        &&& self.start_balance - self.end_balance == self.usage_amount
    }
}

/// The timestamps of a series of snapshots, in the same order.
pub open spec fn balance_times(records: Seq<BalanceRecord>) -> Seq<i64> {
    records.map_values(|r: BalanceRecord| r.timestamp)
}

/// The timestamps of a series of usage records, in the same order.
pub open spec fn usage_times(records: Seq<UsageRecord>) -> Seq<i64> {
    records.map_values(|r: UsageRecord| r.timestamp)
}

/// No later time stands before an earlier one.
pub open spec fn in_time_order(times: Seq<i64>) -> bool {
    forall|i: int, j: int| 0 <= i <= j < times.len() ==> times[i] <= times[j]
}

/// Where a record of time `t` goes: behind the last record that is not later.
pub open spec fn slot_after(times: Seq<i64>, t: i64) -> nat
    decreases times.len(),
{
    if times.len() == 0 {
        0
    } else if times.last() <= t {
        times.len()
    } else {
        slot_after(times.drop_last(), t)
    }
}

/// The snapshot that immediately precedes time `t`, if there is one.
pub open spec fn predecessor(balances: Seq<BalanceRecord>, t: i64) -> Option<BalanceRecord> {
    let slot = slot_after(balance_times(balances), t);
    if slot > 0 {
        Some(balances[slot - 1])
    } else {
        None
    }
}

/// Whole minutes from `from` to `to`, at least 1 and at most `u32::MAX`.
pub open spec fn usage_duration(from: i64, to: i64) -> int {
    let minutes = (to - from) / 60_000;
    if minutes < 1 {
        1
    } else if minutes > u32::MAX {
        u32::MAX as int
    } else {
        minutes
    }
}

/// The usage record that a new reading gives rise to: one exactly when the
/// preceding snapshot held strictly more.
pub open spec fn derived_usage(
    previous: Option<BalanceRecord>,
    amount: u32,
    timestamp: i64,
    usage_id: u128,
) -> Option<UsageRecord> {
    match previous {
        Some(p) => if p.amount > amount {
            Some(
                UsageRecord {
                    id: usage_id,
                    start_balance: p.amount,
                    end_balance: amount,
                    usage_amount: (p.amount - amount) as u32,
                    duration_minutes: usage_duration(p.timestamp, timestamp) as u32,
                    timestamp,
                },
            )
        } else {
            None
        },
        None => None,
    }
}

/// The first instant of a window that reaches `hours` back from `now`.
pub open spec fn window_start(now: i64, hours: u32) -> int {
    now - hours * 3_600_000
}

/// The instant before which records are past a retention of `days`.
pub open spec fn retention_cutoff(now: i64, days: u32) -> int {
    now - days * 86_400_000
}

/// Holds of the snapshots taken at `start` or later.
pub open spec fn balance_since(start: int) -> spec_fn(BalanceRecord) -> bool {
    |r: BalanceRecord| r.timestamp >= start
}

/// Holds of the usage records taken at `start` or later.
pub open spec fn usage_since(start: int) -> spec_fn(UsageRecord) -> bool {
    |r: UsageRecord| r.timestamp >= start
}

/// A usage record is derived exactly when the reading is strictly below the
/// snapshot before it; it then holds the exact decrease and lasts at least
/// one minute.
pub proof fn lemma_usage_iff_decrease(
    previous: Option<BalanceRecord>,
    amount: u32,
    timestamp: i64,
    usage_id: u128,
)
    ensures
        derived_usage(previous, amount, timestamp, usage_id) is Some <==> (previous is Some
            && previous->0.amount > amount),
        derived_usage(previous, amount, timestamp, usage_id) matches Some(u) ==> {
            &&& u.valid()
            &&& u.usage_amount == previous->0.amount - amount
            &&& u.start_balance == previous->0.amount
            &&& u.end_balance == amount
            &&& u.duration_minutes >= 1
        },
{
}

/// Taking in a reading derives a usage record exactly when the reading is
/// strictly below the snapshot that immediately precedes it in time, and the
/// record then holds the exact decrease over at least one minute.
pub proof fn lemma_reading_derives_usage_iff_decrease(
    before: Database,
    after: Database,
    outcome: AppResult<(BalanceRecord, Option<UsageRecord>)>,
    id: u128,
    amount: u32,
    timestamp: i64,
    usage_id: u128,
    source: Seq<char>,
)
    requires
        before.wf(),
        !before.full(),
        before.recorded(&after, outcome, id, amount, timestamp, usage_id, source),
    ensures
        outcome is Ok,
        outcome->Ok_0.1 is Some <==> (predecessor(before.balances(), timestamp) is Some
            && predecessor(before.balances(), timestamp)->0.amount > amount),
        outcome->Ok_0.1 matches Some(u) ==> u.usage_amount == predecessor(
            before.balances(),
            timestamp,
        )->0.amount - amount && u.duration_minutes >= 1,
        outcome->Ok_0.1 is None ==> after.usages() == before.usages(),
        after.balances().len() == before.balances().len() + 1,
{
    lemma_usage_iff_decrease(
        predecessor(before.balances(), timestamp),
        amount,
        timestamp,
        usage_id,
    );
    lemma_slot_splits(balance_times(before.balances()), timestamp);
}

/// Every usage record that a well-formed store holds is a positive decrease
/// over at least one minute.
pub proof fn lemma_stored_usage_is_valid(store: Database, i: int)
    requires
        store.wf(),
        0 <= i < store.usages().len(),
    ensures
        store.usages()[i].usage_amount > 0,
        store.usages()[i].duration_minutes >= 1,
        store.usages()[i].usage_amount == store.usages()[i].start_balance
            - store.usages()[i].end_balance,
{
    assert(store.usages()[i].valid());
}

/// Below its slot every time is not later than `t`; from the slot on every
/// time is later.
pub proof fn lemma_slot_splits(times: Seq<i64>, t: i64)
    requires
        in_time_order(times),
    ensures
        slot_after(times, t) <= times.len(),
        forall|i: int| 0 <= i < slot_after(times, t) ==> times[i] <= t,
        forall|i: int| slot_after(times, t) <= i < times.len() ==> times[i] > t,
    decreases times.len(),
{
    if times.len() > 0 {
        if times.last() > t {
            let front = times.drop_last();
            assert forall|i: int, j: int| 0 <= i <= j < front.len() implies front[i]
                <= front[j] by {
                assert(times[i] <= times[j]);
            }
            lemma_slot_splits(front, t);
            assert forall|i: int| 0 <= i < slot_after(times, t) implies times[i] <= t by {
                assert(front[i] <= t);
            }
            assert forall|i: int| slot_after(times, t) <= i < times.len() implies times[i] > t by {
                if i < front.len() {
                    assert(front[i] > t);
                }
            }
        } else {
            assert forall|i: int| 0 <= i < slot_after(times, t) implies times[i] <= t by {
                assert(times[i] <= times[times.len() - 1]);
            }
        }
    }
}

/// A series that is in time order stays so when a time goes into its slot.
pub proof fn lemma_insert_keeps_order(times: Seq<i64>, t: i64)
    requires
        in_time_order(times),
    ensures
        in_time_order(times.insert(slot_after(times, t) as int, t)),
{
    lemma_slot_splits(times, t);
    let slot = slot_after(times, t) as int;
    let grown = times.insert(slot, t);
    assert forall|i: int, j: int| 0 <= i <= j < grown.len() implies grown[i] <= grown[j] by {
        if i < slot && j > slot {
            assert(grown[i] == times[i] && grown[j] == times[j - 1]);
        } else if i > slot {
            assert(grown[i] == times[i - 1] && grown[j] == times[j - 1]);
        }
    }
}

/// The snapshots of a window of a series in time order are in time order,
/// and none is from before the window.
pub proof fn lemma_balance_window_in_time_order(records: Seq<BalanceRecord>, start: int)
    requires
        in_time_order(balance_times(records)),
    ensures
        in_time_order(balance_times(records.filter(balance_since(start)))),
        forall|i: int|
            0 <= i < records.filter(balance_since(start)).len() ==> (#[trigger] records.filter(
                balance_since(start),
            )[i]).timestamp >= start,
        forall|i: int|
            0 <= i < records.filter(balance_since(start)).len() ==> records.contains(
                #[trigger] records.filter(balance_since(start))[i],
            ),
    decreases records.len(),
{
    reveal(Seq::filter);
    let kept = records.filter(balance_since(start));
    if records.len() > 0 {
        let front = records.drop_last();
        let last = records.last();
        assert forall|i: int, j: int| 0 <= i <= j < front.len() implies balance_times(front)[i]
            <= balance_times(front)[j] by {
            assert(balance_times(records)[i] <= balance_times(records)[j]);
        }
        lemma_balance_window_in_time_order(front, start);
        let before = front.filter(balance_since(start));
        assert forall|i: int| 0 <= i < before.len() implies (#[trigger] before[i]).timestamp
            <= last.timestamp && records.contains(before[i]) by {
            assert(front.contains(before[i]));
            let k = choose|k: int| 0 <= k < front.len() && front[k] == before[i];
            assert(records[k] == before[i]);
            assert(balance_times(records)[k] <= balance_times(records)[records.len() - 1]);
        }
        if balance_since(start)(last) {
            assert(kept =~= before.push(last));
            assert(records[records.len() - 1] == last);
            assert forall|i: int, j: int| 0 <= i <= j < kept.len() implies balance_times(kept)[i]
                <= balance_times(kept)[j] by {
                if j < before.len() {
                    assert(balance_times(before)[i] <= balance_times(before)[j]);
                } else if i < before.len() {
                    assert(before[i].timestamp <= last.timestamp);
                }
            }
        } else {
            assert(kept =~= before);
        }
    }
}

/// The usage records of a window of a series in time order are in time
/// order, and none is from before the window.
pub proof fn lemma_usage_window_in_time_order(records: Seq<UsageRecord>, start: int)
    requires
        in_time_order(usage_times(records)),
    ensures
        in_time_order(usage_times(records.filter(usage_since(start)))),
        forall|i: int|
            0 <= i < records.filter(usage_since(start)).len() ==> (#[trigger] records.filter(
                usage_since(start),
            )[i]).timestamp >= start,
        forall|i: int|
            0 <= i < records.filter(usage_since(start)).len() ==> records.contains(
                #[trigger] records.filter(usage_since(start))[i],
            ),
    decreases records.len(),
{
    reveal(Seq::filter);
    let kept = records.filter(usage_since(start));
    if records.len() > 0 {
        let front = records.drop_last();
        let last = records.last();
        assert forall|i: int, j: int| 0 <= i <= j < front.len() implies usage_times(front)[i]
            <= usage_times(front)[j] by {
            assert(usage_times(records)[i] <= usage_times(records)[j]);
        }
        lemma_usage_window_in_time_order(front, start);
        let before = front.filter(usage_since(start));
        assert forall|i: int| 0 <= i < before.len() implies (#[trigger] before[i]).timestamp
            <= last.timestamp && records.contains(before[i]) by {
            assert(front.contains(before[i]));
            let k = choose|k: int| 0 <= k < front.len() && front[k] == before[i];
            assert(records[k] == before[i]);
            assert(usage_times(records)[k] <= usage_times(records)[records.len() - 1]);
        }
        if usage_since(start)(last) {
            assert(kept =~= before.push(last));
            assert(records[records.len() - 1] == last);
            assert forall|i: int, j: int| 0 <= i <= j < kept.len() implies usage_times(kept)[i]
                <= usage_times(kept)[j] by {
                if j < before.len() {
                    assert(usage_times(before)[i] <= usage_times(before)[j]);
                } else if i < before.len() {
                    assert(before[i].timestamp <= last.timestamp);
                }
            }
        } else {
            assert(kept =~= before);
        }
    }
}

/// Where `keep` splits a series into what is before `start` and what is not,
/// keeping the records since `start` keeps the part from `keep` on.
proof fn lemma_balance_window_is_suffix(records: Seq<BalanceRecord>, start: int, keep: int)
    requires
        0 <= keep <= records.len(),
        forall|i: int| 0 <= i < keep ==> records[i].timestamp < start,
        forall|i: int| keep <= i < records.len() ==> records[i].timestamp >= start,
    ensures
        records.filter(balance_since(start)) == records.subrange(keep, records.len() as int),
    decreases records.len(),
{
    reveal(Seq::filter);
    if records.len() > 0 {
        let front = records.drop_last();
        if keep == records.len() {
            lemma_balance_window_is_suffix(front, start, front.len() as int);
        } else {
            lemma_balance_window_is_suffix(front, start, keep);
            assert(front.subrange(keep, front.len() as int).push(records.last())
                =~= records.subrange(keep, records.len() as int));
        }
    }
    assert(records.filter(balance_since(start)) =~= records.subrange(
        keep,
        records.len() as int,
    ));
}

/// The same for usage records.
proof fn lemma_usage_window_is_suffix(records: Seq<UsageRecord>, start: int, keep: int)
    requires
        0 <= keep <= records.len(),
        forall|i: int| 0 <= i < keep ==> records[i].timestamp < start,
        forall|i: int| keep <= i < records.len() ==> records[i].timestamp >= start,
    ensures
        records.filter(usage_since(start)) == records.subrange(keep, records.len() as int),
    decreases records.len(),
{
    reveal(Seq::filter);
    if records.len() > 0 {
        let front = records.drop_last();
        if keep == records.len() {
            lemma_usage_window_is_suffix(front, start, front.len() as int);
        } else {
            lemma_usage_window_is_suffix(front, start, keep);
            assert(front.subrange(keep, front.len() as int).push(records.last())
                =~= records.subrange(keep, records.len() as int));
        }
    }
    assert(records.filter(usage_since(start)) =~= records.subrange(keep, records.len() as int));
}

/// Calls `uuid::Uuid::new_v4` and hands back the identifier as a number.
/// Nothing is claimed of the value: it is random.
#[verifier::external_body]
pub(crate) fn fresh_id() -> (id: u128) {
    uuid::Uuid::new_v4().as_u128()
}

/// Calls `chrono::Utc::now` and hands back the instant as milliseconds since
/// the Unix epoch, by `DateTime::timestamp_millis`. Nothing is claimed of
/// the value: it is the clock's. The call does not return where the clock
/// stands before the epoch.
#[verifier::external_body]
pub(crate) fn now_millis() -> (now: i64) {
    chrono::Utc::now().timestamp_millis()
}

/// The store of snapshots and usage records.
pub struct Database {
    balances: Vec<BalanceRecord>,
    usages: Vec<UsageRecord>,
}

impl Database {
    /// The snapshots held, earliest first.
    pub closed spec fn balances(&self) -> Seq<BalanceRecord> {
        self.balances@
    }

    /// The usage records held, earliest first.
    pub closed spec fn usages(&self) -> Seq<UsageRecord> {
        self.usages@
    }

    /// Both series are in time order and within capacity, and every usage
    /// record is valid.
    pub open spec fn wf(&self) -> bool {
        &&& in_time_order(balance_times(self.balances()))
        &&& in_time_order(usage_times(self.usages()))
        &&& self.balances().len() <= MAX_RECORDS
        &&& self.usages().len() <= MAX_RECORDS
        &&& forall|i: int| 0 <= i < self.usages().len() ==> (#[trigger] self.usages()[i]).valid()
    }

    /// No further snapshot can be taken in.
    pub open spec fn full(&self) -> bool {
        self.balances().len() >= MAX_RECORDS || self.usages().len() >= MAX_RECORDS
    }

    /// What taking in a reading does: `after` and `outcome` are the store and
    /// the result that follow from `self` and the reading.
    pub open spec fn recorded(
        &self,
        after: &Database,
        outcome: AppResult<(BalanceRecord, Option<UsageRecord>)>,
        id: u128,
        amount: u32,
        timestamp: i64,
        usage_id: u128,
        source: Seq<char>,
    ) -> bool {
        if self.full() {
            &&& outcome matches Err(AppError::Database(_))
            &&& after.balances() == self.balances()
            &&& after.usages() == self.usages()
        } else {
            &&& outcome matches Ok((snapshot, usage))
            &&& snapshot.id == id
            &&& snapshot.amount == amount
            &&& snapshot.timestamp == timestamp
            &&& snapshot.source@ == source
            &&& usage == derived_usage(
                predecessor(self.balances(), timestamp),
                amount,
                timestamp,
                usage_id,
            )
            &&& after.balances() == self.balances().insert(
                slot_after(balance_times(self.balances()), timestamp) as int,
                snapshot,
            )
            &&& after.usages() == match usage {
                Some(u) => self.usages().insert(
                    slot_after(usage_times(self.usages()), timestamp) as int,
                    u,
                ),
                None => self.usages(),
            }
        }
    }

    /// An empty store.
    pub fn new() -> (db: Self)
        ensures
            db.wf(),
            db.balances() == Seq::<BalanceRecord>::empty(),
            db.usages() == Seq::<UsageRecord>::empty(),
    {
        Database { balances: Vec::new(), usages: Vec::new() }
    }

    /// The slot of time `t` among the snapshots.
    fn balance_slot(&self, t: i64) -> (slot: usize)
        ensures
            slot == slot_after(balance_times(self.balances()), t),
            slot <= self.balances().len(),
    {
        let ghost times = balance_times(self.balances@);
        let mut slot: usize = self.balances.len();
        assert(times.subrange(0, slot as int) =~= times);
        while slot > 0 && self.balances[slot - 1].timestamp > t
            invariant
                slot <= self.balances.len(),
                times == balance_times(self.balances@),
                slot_after(times, t) == slot_after(times.subrange(0, slot as int), t),
            decreases slot,
        {
            assert(times.subrange(0, slot as int).drop_last() =~= times.subrange(
                0,
                slot as int - 1,
            ));
            slot = slot - 1;
        }
        slot
    }

    /// The slot of time `t` among the usage records.
    fn usage_slot(&self, t: i64) -> (slot: usize)
        ensures
            slot == slot_after(usage_times(self.usages()), t),
            slot <= self.usages().len(),
    {
        let ghost times = usage_times(self.usages@);
        let mut slot: usize = self.usages.len();
        assert(times.subrange(0, slot as int) =~= times);
        while slot > 0 && self.usages[slot - 1].timestamp > t
            invariant
                slot <= self.usages.len(),
                times == usage_times(self.usages@),
                slot_after(times, t) == slot_after(times.subrange(0, slot as int), t),
            decreases slot,
        {
            assert(times.subrange(0, slot as int).drop_last() =~= times.subrange(
                0,
                slot as int - 1,
            ));
            slot = slot - 1;
        }
        slot
    }

    /// Takes in a reading of `amount` at `timestamp` under the given
    /// identifiers, with the label of the path that it came by. The snapshot
    /// goes into its slot in time order; where the snapshot before it held
    /// strictly more, the usage record of the decrease is stored too. A full
    /// store takes nothing in and says so.
    pub fn record_balance(
        &mut self,
        id: u128,
        amount: u32,
        timestamp: i64,
        usage_id: u128,
        source: &str,
    ) -> (outcome: AppResult<(BalanceRecord, Option<UsageRecord>)>)
        requires
            old(self).wf(),
        ensures
            final(self).wf(),
            old(self).recorded(final(self), outcome, id, amount, timestamp, usage_id, source@),
    {
        if self.balances.len() >= MAX_RECORDS || self.usages.len() >= MAX_RECORDS {
            return Err(AppError::Database(String::from_str("the store is full")));
        }
        let slot = self.balance_slot(timestamp);
        let usage = if slot > 0 {
            let previous = &self.balances[slot - 1];
            if previous.amount > amount {
                proof {
                    lemma_slot_splits(balance_times(self.balances@), timestamp);
                    assert(balance_times(self.balances@)[slot - 1] == previous.timestamp);
                }
                Some(
                    UsageRecord {
                        id: usage_id,
                        start_balance: previous.amount,
                        end_balance: amount,
                        usage_amount: previous.amount - amount,
                        duration_minutes: minutes_between(previous.timestamp, timestamp),
                        timestamp,
                    },
                )
            } else {
                None
            }
        } else {
            None
        };
        let snapshot = BalanceRecord { id, amount, timestamp, source: String::from_str(source) };
        proof {
            let times = balance_times(self.balances@);
            lemma_insert_keeps_order(times, timestamp);
            assert(balance_times(self.balances@.insert(slot as int, snapshot)) =~= times.insert(
                slot as int,
                timestamp,
            ));
        }
        self.balances.insert(slot, snapshot.clone());
        match usage {
            Some(u) => {
                let at = self.usage_slot(timestamp);
                proof {
                    let times = usage_times(self.usages@);
                    lemma_insert_keeps_order(times, timestamp);
                    assert(usage_times(self.usages@.insert(at as int, u)) =~= times.insert(
                        at as int,
                        timestamp,
                    ));
                }
                self.usages.insert(at, u);
            },
            None => {},
        }
        Ok((snapshot, usage))
    }

    /// Stores a snapshot as given, in its slot in time order, and derives
    /// nothing from it: for a snapshot that was recorded before. A full store
    /// refuses it and nothing changes.
    pub fn restore_balance_record(&mut self, record: BalanceRecord) -> (outcome: AppResult<()>)
        requires
            old(self).wf(),
        ensures
            final(self).wf(),
            final(self).usages() == old(self).usages(),
            old(self).balances().len() < MAX_RECORDS ==> {
                &&& outcome is Ok
                &&& final(self).balances() == old(self).balances().insert(
                    slot_after(balance_times(old(self).balances()), record.timestamp) as int,
                    record,
                )
            },
            old(self).balances().len() >= MAX_RECORDS ==> {
                &&& outcome matches Err(AppError::Database(_))
                &&& final(self).balances() == old(self).balances()
            },
    {
        if self.balances.len() >= MAX_RECORDS {
            return Err(AppError::Database(String::from_str("the store is full")));
        }
        let slot = self.balance_slot(record.timestamp);
        proof {
            let times = balance_times(self.balances@);
            lemma_insert_keeps_order(times, record.timestamp);
            assert(balance_times(self.balances@.insert(slot as int, record)) =~= times.insert(
                slot as int,
                record.timestamp,
            ));
        }
        self.balances.insert(slot, record);
        Ok(())
    }

    /// Takes in a reading of `amount` now, under fresh identifiers: what
    /// `record_balance` does, at the clock's time.
    pub fn insert_balance_record(&mut self, amount: u32, source: &str) -> (outcome: AppResult<
        (BalanceRecord, Option<UsageRecord>),
    >)
        requires
            old(self).wf(),
        ensures
            final(self).wf(),
            exists|id: u128, timestamp: i64, usage_id: u128|
                old(self).recorded(final(self), outcome, id, amount, timestamp, usage_id, source@),
    {
        let id = fresh_id();
        let usage_id = fresh_id();
        let timestamp = now_millis();
        self.record_balance(id, amount, timestamp, usage_id, source)
    }

    /// Stores a usage record as given, in its slot in time order. A record
    /// that is not valid, or a full store, is refused and nothing changes.
    pub fn insert_usage_record(&mut self, record: UsageRecord) -> (outcome: AppResult<
        UsageRecord,
    >)
        requires
            old(self).wf(),
        ensures
            final(self).wf(),
            final(self).balances() == old(self).balances(),
            record.valid() && old(self).usages().len() < MAX_RECORDS ==> {
                &&& outcome == Ok::<UsageRecord, AppError>(record)
                &&& final(self).usages() == old(self).usages().insert(
                    slot_after(usage_times(old(self).usages()), record.timestamp) as int,
                    record,
                )
            },
            !(record.valid() && old(self).usages().len() < MAX_RECORDS) ==> {
                &&& outcome matches Err(AppError::Database(_))
                &&& final(self).usages() == old(self).usages()
            },
    {
        if self.usages.len() >= MAX_RECORDS {
            return Err(AppError::Database(String::from_str("the store is full")));
        }
        if record.usage_amount == 0 || record.duration_minutes == 0 || record.start_balance
            < record.end_balance || record.start_balance - record.end_balance
            != record.usage_amount {
            return Err(AppError::Database(String::from_str("the usage record is not valid")));
        }
        let at = self.usage_slot(record.timestamp);
        proof {
            let times = usage_times(self.usages@);
            lemma_insert_keeps_order(times, record.timestamp);
            assert(usage_times(self.usages@.insert(at as int, record)) =~= times.insert(
                at as int,
                record.timestamp,
            ));
        }
        self.usages.insert(at, record);
        Ok(record)
    }

    /// The latest snapshot.
    pub fn get_latest_balance(&self) -> (latest: Option<BalanceRecord>)
        ensures
            latest == if self.balances().len() > 0 {
                Some(self.balances().last())
            } else {
                None
            },
    {
        let n = self.balances.len();
        if n > 0 {
            Some(self.balances[n - 1].clone())
        } else {
            None
        }
    }

    /// The snapshot before the latest one.
    pub fn get_previous_balance_record(&self) -> (previous: Option<BalanceRecord>)
        ensures
            previous == if self.balances().len() > 1 {
                Some(self.balances()[self.balances().len() - 2])
            } else {
                None
            },
    {
        let n = self.balances.len();
        if n > 1 {
            Some(self.balances[n - 2].clone())
        } else {
            None
        }
    }

    /// The snapshots of the last `hours` hours before `now`, earliest first.
    pub fn balance_history_at(&self, hours: u32, now: i64) -> (history: Vec<BalanceRecord>)
        ensures
            history@ == self.balances().filter(balance_since(window_start(now, hours))),
            self.wf() ==> in_time_order(balance_times(history@)),
    {
        proof {
            if self.wf() {
                lemma_balance_window_in_time_order(self.balances@, window_start(now, hours));
            }
        }
        let start: i128 = now as i128 - (hours as i128) * 3_600_000;
        let mut history: Vec<BalanceRecord> = Vec::new();
        let mut i: usize = 0;
        while i < self.balances.len()
            invariant
                i <= self.balances.len(),
                start == window_start(now, hours),
                history@ == self.balances@.subrange(0, i as int).filter(
                    balance_since(start as int),
                ),
            decreases self.balances.len() - i,
        {
            proof {
                reveal(Seq::filter);
                assert(self.balances@.subrange(0, i + 1).drop_last() =~= self.balances@.subrange(
                    0,
                    i as int,
                ));
            }
            if self.balances[i].timestamp as i128 >= start {
                history.push(self.balances[i].clone());
            }
            i = i + 1;
        }
        proof {
            assert(self.balances@.subrange(0, i as int) =~= self.balances@);
        }
        history
    }

    /// The usage records of the last `hours` hours before `now`, earliest first.
    pub fn usage_history_at(&self, hours: u32, now: i64) -> (history: Vec<UsageRecord>)
        ensures
            history@ == self.usages().filter(usage_since(window_start(now, hours))),
            self.wf() ==> in_time_order(usage_times(history@)),
    {
        proof {
            if self.wf() {
                lemma_usage_window_in_time_order(self.usages@, window_start(now, hours));
            }
        }
        let start: i128 = now as i128 - (hours as i128) * 3_600_000;
        let mut history: Vec<UsageRecord> = Vec::new();
        let mut i: usize = 0;
        while i < self.usages.len()
            invariant
                i <= self.usages.len(),
                start == window_start(now, hours),
                history@ == self.usages@.subrange(0, i as int).filter(usage_since(start as int)),
            decreases self.usages.len() - i,
        {
            proof {
                reveal(Seq::filter);
                assert(self.usages@.subrange(0, i + 1).drop_last() =~= self.usages@.subrange(
                    0,
                    i as int,
                ));
            }
            if self.usages[i].timestamp as i128 >= start {
                history.push(self.usages[i]);
            }
            i = i + 1;
        }
        proof {
            assert(self.usages@.subrange(0, i as int) =~= self.usages@);
        }
        history
    }

    /// The snapshots of the last `hours` hours, earliest first: a window of
    /// that length ending at the clock's time.
    pub fn get_balance_history(&self, hours: u32) -> (history: Vec<BalanceRecord>)
        ensures
            exists|now: i64|
                history@ == self.balances().filter(balance_since(window_start(now, hours))),
    {
        let now = now_millis();
        self.balance_history_at(hours, now)
    }

    /// The usage records of the last `hours` hours, earliest first: a window
    /// of that length ending at the clock's time.
    pub fn get_usage_history(&self, hours: u32) -> (history: Vec<UsageRecord>)
        ensures
            exists|now: i64|
                history@ == self.usages().filter(usage_since(window_start(now, hours))),
    {
        let now = now_millis();
        self.usage_history_at(hours, now)
    }

    /// Drops every snapshot and usage record older than `retention_days`
    /// days before `now`.
    pub fn prune_at(&mut self, retention_days: u32, now: i64)
        requires
            old(self).wf(),
        ensures
            final(self).wf(),
            final(self).balances() == old(self).balances().filter(
                balance_since(retention_cutoff(now, retention_days)),
            ),
            final(self).usages() == old(self).usages().filter(
                usage_since(retention_cutoff(now, retention_days)),
            ),
    {
        let cutoff: i128 = now as i128 - (retention_days as i128) * 86_400_000;
        let mut keep: usize = 0;
        while keep < self.balances.len() && (self.balances[keep].timestamp as i128) < cutoff
            invariant
                keep <= self.balances.len(),
                forall|i: int| 0 <= i < keep ==> self.balances@[i].timestamp < cutoff,
            decreases self.balances.len() - keep,
        {
            keep = keep + 1;
        }
        proof {
            let times = balance_times(self.balances@);
            assert forall|i: int| keep <= i < self.balances@.len() implies self.balances@[i]
                .timestamp >= cutoff by {
                assert(times[keep as int] <= times[i]);
            }
            lemma_balance_window_is_suffix(self.balances@, cutoff as int, keep as int);
            let kept = self.balances@.subrange(keep as int, self.balances@.len() as int);
            assert forall|i: int, j: int| 0 <= i <= j < kept.len() implies balance_times(kept)[i]
                <= balance_times(kept)[j] by {
                assert(times[keep + i] <= times[keep + j]);
            }
        }
        let kept_balances = self.balances.split_off(keep);
        self.balances = kept_balances;

        let mut keep: usize = 0;
        while keep < self.usages.len() && (self.usages[keep].timestamp as i128) < cutoff
            invariant
                keep <= self.usages.len(),
                forall|i: int| 0 <= i < keep ==> self.usages@[i].timestamp < cutoff,
            decreases self.usages.len() - keep,
        {
            keep = keep + 1;
        }
        proof {
            let times = usage_times(self.usages@);
            assert forall|i: int| keep <= i < self.usages@.len() implies self.usages@[i].timestamp
                >= cutoff by {
                assert(times[keep as int] <= times[i]);
            }
            lemma_usage_window_is_suffix(self.usages@, cutoff as int, keep as int);
            let kept = self.usages@.subrange(keep as int, self.usages@.len() as int);
            assert forall|i: int, j: int| 0 <= i <= j < kept.len() implies usage_times(kept)[i]
                <= usage_times(kept)[j] by {
                assert(times[keep + i] <= times[keep + j]);
            }
            assert forall|i: int| 0 <= i < kept.len() implies (#[trigger] kept[i]).valid() by {
                assert(self.usages@[keep + i].valid());
            }
        }
        let kept_usages = self.usages.split_off(keep);
        self.usages = kept_usages;
    }

    /// Drops every snapshot and usage record older than `retention_days`
    /// days: what `prune_at` does, at the clock's time.
    pub fn cleanup_old_records(&mut self, retention_days: u32)
        requires
            old(self).wf(),
        ensures
            final(self).wf(),
            exists|now: i64|
                {
                    &&& final(self).balances() == old(self).balances().filter(
                        balance_since(retention_cutoff(now, retention_days)),
                    )
                    &&& final(self).usages() == old(self).usages().filter(
                        usage_since(retention_cutoff(now, retention_days)),
                    )
                },
    {
        let now = now_millis();
        self.prune_at(retention_days, now);
    }
}

/// The instant before which records are past a retention of `days` days at
/// `now`, or the earliest instant there is where that is later.
pub fn cutoff_at(retention_days: u32, now: i64) -> (cutoff: i64)
    ensures
        cutoff == if retention_cutoff(now, retention_days) < i64::MIN {
            i64::MIN as int
        } else {
            retention_cutoff(now, retention_days)
        },
{
    let cutoff: i128 = now as i128 - (retention_days as i128) * 86_400_000;
    if cutoff < -0x8000_0000_0000_0000 {
        -0x8000_0000_0000_0000
    } else {
        cutoff as i64
    }
}

/// Whole minutes from `from` to `to`, at least 1 and at most `u32::MAX`.
pub fn minutes_between(from: i64, to: i64) -> (minutes: u32)
    ensures
        minutes == usage_duration(from, to),
        minutes >= 1,
{
    if to <= from {
        return 1;
    }
    let elapsed: u128 = (to as i128 - from as i128) as u128;
    let minutes: u128 = elapsed / 60_000;
    if minutes < 1 {
        1
    } else if minutes > 0xffff_ffff {
        0xffff_ffff
    } else {
        minutes as u32
    }
}

} // verus!
