//! Transfer rate limits: per-user hourly and daily counts and volumes, a
//! global hourly capacity, a cooldown between transfers, escalating
//! penalties for violations, and a whitelist that bypasses all of it.
use vstd::prelude::*;
use crate::errors::AutoTradeError;
use crate::math::in_i128;
use crate::store::OrdMap;
use crate::AccountId;

verus! {

/// The limits in force.
#[derive(Clone, Copy, Debug, PartialEq, Eq, Structural)]
pub struct BridgeRateLimits {
    pub per_user_hourly_transfers: u32,
    pub per_user_hourly_volume: i128,
    pub per_user_daily_transfers: u32,
    pub per_user_daily_volume: i128,
    pub global_hourly_capacity: u32,
    pub global_daily_volume: i128,
    pub min_transfer_amount: i128,
    pub cooldown_between_transfers: u64,
}

/// The limits used until an admin sets others.
pub open spec fn default_limits() -> BridgeRateLimits {
    BridgeRateLimits {
        per_user_hourly_transfers: 10,
        per_user_hourly_volume: 1_000_000_0000000,
        per_user_daily_transfers: 50,
        per_user_daily_volume: 5_000_000_0000000,
        global_hourly_capacity: 1000,
        global_daily_volume: 100_000_000_0000000,
        min_transfer_amount: 1_0000000,
        cooldown_between_transfers: 30,
    }
}

impl Default for BridgeRateLimits {
    fn default() -> (r: Self)
        ensures
            r == default_limits(),
    {
        BridgeRateLimits {
            per_user_hourly_transfers: 10,
            per_user_hourly_volume: 1_000_000_0000000,
            per_user_daily_transfers: 50,
            per_user_daily_volume: 5_000_000_0000000,
            global_hourly_capacity: 1000,
            global_daily_volume: 100_000_000_0000000,
            min_transfer_amount: 1_0000000,
            cooldown_between_transfers: 30,
        }
    }
}

/// One transfer.
#[derive(Clone, Copy, Debug, PartialEq, Eq, Structural)]
pub struct TransferRecord {
    pub timestamp: u64,
    pub amount: i128,
}

/// A user's recent transfers and penalty state.
#[derive(Debug)]
pub struct UserTransferHistory {
    pub transfers_last_hour: Vec<TransferRecord>,
    pub transfers_last_day: Vec<TransferRecord>,
    pub last_transfer_time: u64,
    pub violation_count: u32,
    /// 0 when no penalty applies.
    pub penalty_until: u64,
}

impl UserTransferHistory {
    pub fn duplicate(&self) -> (r: Self)
        ensures
            r.transfers_last_hour@ == self.transfers_last_hour@,
            r.transfers_last_day@ == self.transfers_last_day@,
            r.last_transfer_time == self.last_transfer_time,
            r.violation_count == self.violation_count,
            r.penalty_until == self.penalty_until,
    {
        UserTransferHistory {
            transfers_last_hour: self.transfers_last_hour.clone(),
            transfers_last_day: self.transfers_last_day.clone(),
            last_transfer_time: self.last_transfer_time,
            violation_count: self.violation_count,
            penalty_until: self.penalty_until,
        }
    }
}

/// The kinds of violation reported against a user.
#[derive(Clone, Copy, Debug, PartialEq, Eq, Structural)]
pub enum ViolationType {
    HourlyCountExceeded,
    HourlyVolumeExceeded,
    DailyCountExceeded,
    DailyVolumeExceeded,
    GlobalCapacityExceeded,
    CooldownViolation,
    BelowMinimum,
}

/// The limiter's persistent slots.
#[derive(Clone, Copy, Debug, PartialEq, Eq, Structural)]
pub enum RateLimitKey {
    Limits,
    UserHistory(AccountId),
    Whitelist,
    GlobalHourlyCount,
    Admin,
}

pub const HOUR_SECONDS: u64 = 3600;
pub const DAY_SECONDS: u64 = 86400;

/// `a - b`, or 0 when `b` exceeds `a`.
pub open spec fn sat_sub(a: int, b: int) -> int {
    if a >= b { a - b } else { 0 }
}

/// The records strictly later than `cutoff`, in their order.
pub open spec fn records_after(s: Seq<TransferRecord>, cutoff: int) -> Seq<TransferRecord>
    decreases s.len(),
{
    if s.len() == 0 {
        s
    } else {
        let p = records_after(s.drop_last(), cutoff);
        if s.last().timestamp > cutoff { p.push(s.last()) } else { p }
    }
}

/// The total amount of a list of records.
pub open spec fn amount_sum(s: Seq<TransferRecord>) -> int
    decreases s.len(),
{
    if s.len() == 0 { 0 } else { amount_sum(s.drop_last()) + s.last().amount }
}

/// Every running total of `s`, and the total plus `extra`, fit in `i128`.
pub open spec fn sums_fit(s: Seq<TransferRecord>, extra: int) -> bool {
    &&& forall|i: int| 0 <= i <= s.len() ==> in_i128(#[trigger] amount_sum(s.take(i)))
    &&& in_i128(amount_sum(s) + extra)
}

/// The penalty for a user's `count`-th violation, in seconds.
pub open spec fn penalty_duration(count: int) -> u64 {
    if 1 <= count <= 2 {
        3600
    } else if 3 <= count <= 5 {
        86400
    } else if 6 <= count <= 10 {
        604800
    } else {
        2592000
    }
}

/// Keeps the records later than `cutoff`.
fn keep_after(records: &Vec<TransferRecord>, cutoff: u64) -> (r: Vec<TransferRecord>)
    ensures
        r@ == records_after(records@, cutoff as int),
{
    let mut out: Vec<TransferRecord> = Vec::new();
    let mut i: usize = 0;
    while i < records.len()
        invariant
            i <= records@.len(),
            out@ == records_after(records@.take(i as int), cutoff as int),
        decreases records@.len() - i,
    {
        proof { assert(records@.take(i as int + 1).drop_last() =~= records@.take(i as int)); }
        let r = records[i];
        if r.timestamp > cutoff {
            out.push(r);
        }
        i = i + 1;
    }
    proof { assert(records@.take(records@.len() as int) =~= records@); }
    out
}

/// Total amount of a list of records.
fn total_amount(records: &Vec<TransferRecord>) -> (r: i128)
    requires
        forall|i: int| 0 <= i <= records@.len() ==> in_i128(#[trigger] amount_sum(records@.take(i))),
    ensures
        r == amount_sum(records@),
{
    let mut sum: i128 = 0;
    let mut i: usize = 0;
    while i < records.len()
        invariant
            i <= records@.len(),
            sum == amount_sum(records@.take(i as int)),
            forall|j: int| 0 <= j <= records@.len() ==> in_i128(#[trigger] amount_sum(records@.take(j))),
        decreases records@.len() - i,
    {
        proof {
            assert(records@.take(i as int + 1).drop_last() =~= records@.take(i as int));
            assert(in_i128(amount_sum(records@.take(i as int + 1))));
        }
        sum = sum + records[i].amount;
        i = i + 1;
    }
    proof { assert(records@.take(records@.len() as int) =~= records@); }
    sum
}

/// Limits, per-user histories, the whitelist and the global hourly count.
pub struct RateLimiter {
    pub limits: BridgeRateLimits,
    pub histories: OrdMap<UserTransferHistory>,
    pub whitelist: Vec<AccountId>,
    pub global_hourly_count: u32,
    pub admin: Option<AccountId>,
}

impl RateLimiter {
    /// The user's transfers of the last hour as stored (empty when none).
    pub open spec fn hour_of(&self, user: AccountId) -> Seq<TransferRecord> {
        if self.histories@.contains_key(user as u128) { self.histories@[user as u128].transfers_last_hour@ } else { Seq::empty() }
    }

    pub open spec fn day_of(&self, user: AccountId) -> Seq<TransferRecord> {
        if self.histories@.contains_key(user as u128) { self.histories@[user as u128].transfers_last_day@ } else { Seq::empty() }
    }

    pub open spec fn last_time_of(&self, user: AccountId) -> u64 {
        if self.histories@.contains_key(user as u128) { self.histories@[user as u128].last_transfer_time } else { 0 }
    }

    pub open spec fn violations_of(&self, user: AccountId) -> u32 {
        if self.histories@.contains_key(user as u128) { self.histories@[user as u128].violation_count } else { 0 }
    }

    pub open spec fn penalty_of(&self, user: AccountId) -> u64 {
        if self.histories@.contains_key(user as u128) { self.histories@[user as u128].penalty_until } else { 0 }
    }

    /// The user's last-hour records still inside the hour at `now`.
    pub open spec fn live_hour(&self, user: AccountId, now: u64) -> Seq<TransferRecord> {
        records_after(self.hour_of(user), sat_sub(now as int, HOUR_SECONDS as int))
    }

    /// The user's last-day records still inside the day at `now`.
    pub open spec fn live_day(&self, user: AccountId, now: u64) -> Seq<TransferRecord> {
        records_after(self.day_of(user), sat_sub(now as int, DAY_SECONDS as int))
    }

    /// Whether the checks on counts and volumes are reached for a transfer.
    pub open spec fn reaches_volume_checks(&self, user: AccountId, amount: i128, now: u64) -> bool {
        &&& !self.whitelist@.contains(user)
        &&& !(self.penalty_of(user) > 0 && now < self.penalty_of(user))
        &&& amount >= self.limits.min_transfer_amount
        &&& !(self.last_time_of(user) > 0 && sat_sub(now as int, self.last_time_of(user) as int) < self.limits.cooldown_between_transfers)
    }

    /// The outcome of checking a transfer of `amount` by `user` at `now`.
    pub open spec fn rate_check(&self, user: AccountId, amount: i128, now: u64) -> Result<(), AutoTradeError> {
        let lim = self.limits;
        let hour = self.live_hour(user, now);
        let day = self.live_day(user, now);
        if self.whitelist@.contains(user) {
            Ok(())
        } else if self.penalty_of(user) > 0 && now < self.penalty_of(user) {
            Err(AutoTradeError::RateLimitPenalty)
        } else if amount < lim.min_transfer_amount {
            Err(AutoTradeError::BelowMinTransfer)
        } else if self.last_time_of(user) > 0 && sat_sub(now as int, self.last_time_of(user) as int) < lim.cooldown_between_transfers {
            Err(AutoTradeError::CooldownNotElapsed)
        } else if hour.len() >= lim.per_user_hourly_transfers {
            Err(AutoTradeError::HourlyTransferLimitExceeded)
        } else if amount_sum(hour) + amount > lim.per_user_hourly_volume {
            Err(AutoTradeError::HourlyVolumeLimitExceeded)
        } else if day.len() >= lim.per_user_daily_transfers {
            Err(AutoTradeError::DailyTransferLimitExceeded)
        } else if amount_sum(day) + amount > lim.per_user_daily_volume {
            Err(AutoTradeError::DailyVolumeLimitExceeded)
        } else if self.global_hourly_count >= lim.global_hourly_capacity {
            Err(AutoTradeError::GlobalCapacityExceeded)
        } else {
            Ok(())
        }
    }

    pub fn new() -> (r: Self)
        ensures
            r.limits == default_limits(),
            r.histories@ == Map::<u128, UserTransferHistory>::empty(),
            r.whitelist@ == Seq::<AccountId>::empty(),
            r.global_hourly_count == 0,
            r.admin == None::<AccountId>,
    {
        RateLimiter {
            limits: BridgeRateLimits::default(),
            histories: OrdMap::new(),
            whitelist: Vec::new(),
            global_hourly_count: 0,
            admin: None,
        }
    }

    pub fn get_limits(&self) -> (r: BridgeRateLimits)
        ensures
            r == self.limits,
    {
        self.limits
    }

    pub fn set_limits(&mut self, limits: BridgeRateLimits)
        ensures
            final(self).limits == limits,
            final(self).histories@ == old(self).histories@,
            final(self).whitelist@ == old(self).whitelist@,
            final(self).global_hourly_count == old(self).global_hourly_count,
            final(self).admin == old(self).admin,
    {
        self.limits = limits;
    }

    /// Replaces the limits (admin only).
    pub fn set_rate_limits(&mut self, caller: AccountId, limits: BridgeRateLimits) -> (r: Result<(), AutoTradeError>)
        ensures
            r is Ok <==> old(self).admin == Some(caller),
            r is Err ==> r == Err::<(), AutoTradeError>(AutoTradeError::Unauthorized) && final(self).limits == old(self).limits,
            r is Ok ==> final(self).limits == limits,
            final(self).histories@ == old(self).histories@,
            final(self).whitelist@ == old(self).whitelist@,
            final(self).global_hourly_count == old(self).global_hourly_count,
            final(self).admin == old(self).admin,
    {
        self.require_admin(caller)?;
        self.set_limits(limits);
        Ok(())
    }

    pub fn get_admin(&self) -> (r: Option<AccountId>)
        ensures
            r == self.admin,
    {
        self.admin
    }

    pub fn set_admin(&mut self, admin: AccountId)
        ensures
            final(self).admin == Some(admin),
            final(self).limits == old(self).limits,
            final(self).histories@ == old(self).histories@,
            final(self).whitelist@ == old(self).whitelist@,
            final(self).global_hourly_count == old(self).global_hourly_count,
    {
        self.admin = Some(admin);
    }

    pub fn get_global_hourly_count(&self) -> (r: u32)
        ensures
            r == self.global_hourly_count,
    {
        self.global_hourly_count
    }

    pub fn get_whitelist(&self) -> (r: Vec<AccountId>)
        ensures
            r@ == self.whitelist@,
    {
        self.whitelist.clone()
    }

    /// Succeeds only for the admin (and fails when none is set).
    fn require_admin(&self, caller: AccountId) -> (r: Result<(), AutoTradeError>)
        ensures
            r is Ok <==> self.admin == Some(caller),
            r is Err ==> r == Err::<(), AutoTradeError>(AutoTradeError::Unauthorized),
    {
        match self.admin {
            Some(a) => if a == caller { Ok(()) } else { Err(AutoTradeError::Unauthorized) },
            None => Err(AutoTradeError::Unauthorized),
        }
    }

    /// A user's history; an empty one when none is stored.
    pub fn get_user_history(&self, user: AccountId) -> (r: UserTransferHistory)
        ensures
            r.transfers_last_hour@ == self.hour_of(user),
            r.transfers_last_day@ == self.day_of(user),
            r.last_transfer_time == self.last_time_of(user),
            r.violation_count == self.violations_of(user),
            r.penalty_until == self.penalty_of(user),
    {
        match self.histories.get(user as u128) {
            Some(h) => h.duplicate(),
            None => UserTransferHistory {
                transfers_last_hour: Vec::new(),
                transfers_last_day: Vec::new(),
                last_transfer_time: 0,
                violation_count: 0,
                penalty_until: 0,
            },
        }
    }

    pub fn is_whitelisted(&self, user: AccountId) -> (r: bool)
        ensures
            r == self.whitelist@.contains(user),
    {
        let mut i: usize = 0;
        while i < self.whitelist.len()
            invariant
                i <= self.whitelist@.len(),
                forall|j: int| 0 <= j < i ==> self.whitelist@[j] != user,
            decreases self.whitelist@.len() - i,
        {
            if self.whitelist[i] == user {
                return true;
            }
            i = i + 1;
        }
        false
    }

    /// Puts a user on the whitelist (admin only); a no-op if already there.
    pub fn add_to_whitelist(&mut self, caller: AccountId, user: AccountId) -> (r: Result<(), AutoTradeError>)
        ensures
            r is Ok <==> old(self).admin == Some(caller),
            r is Err ==> r == Err::<(), AutoTradeError>(AutoTradeError::Unauthorized) && final(self).whitelist@ == old(self).whitelist@,
            r is Ok ==> final(self).whitelist@ == (if old(self).whitelist@.contains(user) { old(self).whitelist@ } else { old(self).whitelist@.push(user) }),
            final(self).limits == old(self).limits,
            final(self).histories@ == old(self).histories@,
            final(self).global_hourly_count == old(self).global_hourly_count,
            final(self).admin == old(self).admin,
    {
        self.require_admin(caller)?;
        if !self.is_whitelisted(user) {
            self.whitelist.push(user);
        }
        Ok(())
    }

    /// Takes every entry of a user off the whitelist (admin only).
    pub fn remove_from_whitelist(&mut self, caller: AccountId, user: AccountId) -> (r: Result<(), AutoTradeError>)
        ensures
            r is Ok <==> old(self).admin == Some(caller),
            r is Err ==> r == Err::<(), AutoTradeError>(AutoTradeError::Unauthorized) && final(self).whitelist@ == old(self).whitelist@,
            r is Ok ==> final(self).whitelist@ == old(self).whitelist@.filter(|a: AccountId| a != user),
            final(self).limits == old(self).limits,
            final(self).histories@ == old(self).histories@,
            final(self).global_hourly_count == old(self).global_hourly_count,
            final(self).admin == old(self).admin,
    {
        self.require_admin(caller)?;
        let mut new_list: Vec<AccountId> = Vec::new();
        let mut i: usize = 0;
        while i < self.whitelist.len()
            invariant
                i <= self.whitelist@.len(),
                new_list@ == self.whitelist@.take(i as int).filter(|a: AccountId| a != user),
            decreases self.whitelist@.len() - i,
        {
            proof {
                let s = self.whitelist@.take(i as int + 1);
                assert(s.drop_last() =~= self.whitelist@.take(i as int));
                reveal(Seq::filter);
            }
            let a = self.whitelist[i];
            if a != user {
                new_list.push(a);
            }
            i = i + 1;
        }
        proof { assert(self.whitelist@.take(self.whitelist@.len() as int) =~= self.whitelist@); }
        self.whitelist = new_list;
        Ok(())
    }
}


/// Two limiters keep the same history for a user.
pub open spec fn same_history(a: RateLimiter, b: RateLimiter, user: AccountId) -> bool {
    &&& a.hour_of(user) == b.hour_of(user)
    &&& a.day_of(user) == b.day_of(user)
    &&& a.last_time_of(user) == b.last_time_of(user)
    &&& a.violations_of(user) == b.violations_of(user)
    &&& a.penalty_of(user) == b.penalty_of(user)
}

/// The hourly transfer allowance after a load adjustment.
pub open spec fn adjusted_limits(lim: BridgeRateLimits, load_pct: int) -> BridgeRateLimits {
    if 0 <= load_pct <= 50 {
        BridgeRateLimits {
            per_user_hourly_transfers: if lim.per_user_hourly_transfers + 1 < 20 { (lim.per_user_hourly_transfers + 1) as u32 } else { 20 },
            ..lim
        }
    } else if 80 <= load_pct <= 100 {
        BridgeRateLimits {
            per_user_hourly_transfers: if sat_sub(lim.per_user_hourly_transfers as int, 1) > 3 { sat_sub(lim.per_user_hourly_transfers as int, 1) as u32 } else { 3 },
            cooldown_between_transfers: if lim.cooldown_between_transfers + 60 < 600 { (lim.cooldown_between_transfers + 60) as u64 } else { 600 },
            ..lim
        }
    } else {
        lim
    }
}

/// The global load in percent of the hourly capacity (100 with no capacity).
pub open spec fn load_percent(count: int, capacity: int) -> int {
    if capacity > 0 { (count * 100) / capacity } else { 100 }
}

impl RateLimiter {
    fn store_history(&mut self, user: AccountId, h: UserTransferHistory)
        ensures
            final(self).hour_of(user) == h.transfers_last_hour@,
            final(self).day_of(user) == h.transfers_last_day@,
            final(self).last_time_of(user) == h.last_transfer_time,
            final(self).violations_of(user) == h.violation_count,
            final(self).penalty_of(user) == h.penalty_until,
            forall|u: AccountId| u != user ==> #[trigger] same_history(*final(self), *old(self), u),
            final(self).limits == old(self).limits,
            final(self).whitelist@ == old(self).whitelist@,
            final(self).global_hourly_count == old(self).global_hourly_count,
            final(self).admin == old(self).admin,
    {
        self.histories.insert(user as u128, h);
        proof {
            assert forall|u: AccountId| u != user implies #[trigger] same_history(*self, *old(self), u) by {
                assert(u as u128 != user as u128);
            }
        }
    }

    /// Drops the records that have left the hour and the day at `now`.
    pub fn prune_old_records(history: &mut UserTransferHistory, now: u64)
        ensures
            final(history).transfers_last_hour@ == records_after(old(history).transfers_last_hour@, sat_sub(now as int, HOUR_SECONDS as int)),
            final(history).transfers_last_day@ == records_after(old(history).transfers_last_day@, sat_sub(now as int, DAY_SECONDS as int)),
            final(history).last_transfer_time == old(history).last_transfer_time,
            final(history).violation_count == old(history).violation_count,
            final(history).penalty_until == old(history).penalty_until,
    {
        let hour_ago = now.saturating_sub(HOUR_SECONDS);
        let day_ago = now.saturating_sub(DAY_SECONDS);
        let new_hour = keep_after(&history.transfers_last_hour, hour_ago);
        let new_day = keep_after(&history.transfers_last_day, day_ago);
        history.transfers_last_hour = new_hour;
        history.transfers_last_day = new_day;
    }

    /// Counts a violation against the user and sets the penalty that the
    /// new count calls for, starting at `now`.
    pub fn record_violation(&mut self, user: AccountId, violation_type: ViolationType, now: u64) -> (r: Result<(), AutoTradeError>)
        requires
            old(self).violations_of(user) < u32::MAX,
            now + penalty_duration(old(self).violations_of(user) + 1) <= u64::MAX,
        ensures
            r is Ok,
            final(self).violations_of(user) == old(self).violations_of(user) + 1,
            final(self).penalty_of(user) == now + penalty_duration(old(self).violations_of(user) + 1),
            final(self).hour_of(user) == old(self).hour_of(user),
            final(self).day_of(user) == old(self).day_of(user),
            final(self).last_time_of(user) == old(self).last_time_of(user),
            forall|u: AccountId| u != user ==> #[trigger] same_history(*final(self), *old(self), u),
            final(self).limits == old(self).limits,
            final(self).whitelist@ == old(self).whitelist@,
            final(self).global_hourly_count == old(self).global_hourly_count,
            final(self).admin == old(self).admin,
    {
        let mut history = self.get_user_history(user);
        history.violation_count = history.violation_count + 1;
        let penalty: u64 = if history.violation_count >= 1 && history.violation_count <= 2 {
            3600
        } else if history.violation_count >= 3 && history.violation_count <= 5 {
            86400
        } else if history.violation_count >= 6 && history.violation_count <= 10 {
            604800
        } else {
            2592000
        };
        history.penalty_until = now + penalty;
        self.store_history(user, history);
        Ok(())
    }

    /// Checks a transfer of `amount` by `user` at `now` against the limits:
    /// the whitelist bypasses all checks; then the penalty, the minimum, the
    /// cooldown, the hourly and daily counts and volumes (of the records
    /// still inside their window) and the global hourly capacity.
    pub fn check_rate_limits(&self, user: AccountId, amount: i128, now: u64) -> (r: Result<(), AutoTradeError>)
        requires
            self.reaches_volume_checks(user, amount, now) ==> {
                &&& sums_fit(self.live_hour(user, now), amount as int)
                &&& sums_fit(self.live_day(user, now), amount as int)
            },
        ensures
            r == self.rate_check(user, amount, now),
    {
        if self.is_whitelisted(user) {
            return Ok(());
        }
        let limits = self.limits;
        let mut history = self.get_user_history(user);
        if history.penalty_until > 0 && now < history.penalty_until {
            return Err(AutoTradeError::RateLimitPenalty);
        }
        if amount < limits.min_transfer_amount {
            return Err(AutoTradeError::BelowMinTransfer);
        }
        if history.last_transfer_time > 0 {
            let elapsed = now.saturating_sub(history.last_transfer_time);
            if elapsed < limits.cooldown_between_transfers {
                return Err(AutoTradeError::CooldownNotElapsed);
            }
        }
        Self::prune_old_records(&mut history, now);
        if history.transfers_last_hour.len() >= limits.per_user_hourly_transfers as usize {
            return Err(AutoTradeError::HourlyTransferLimitExceeded);
        }
        let hourly_vol = total_amount(&history.transfers_last_hour);
        if hourly_vol + amount > limits.per_user_hourly_volume {
            return Err(AutoTradeError::HourlyVolumeLimitExceeded);
        }
        if history.transfers_last_day.len() >= limits.per_user_daily_transfers as usize {
            return Err(AutoTradeError::DailyTransferLimitExceeded);
        }
        let daily_vol = total_amount(&history.transfers_last_day);
        if daily_vol + amount > limits.per_user_daily_volume {
            return Err(AutoTradeError::DailyVolumeLimitExceeded);
        }
        if self.global_hourly_count >= limits.global_hourly_capacity {
            return Err(AutoTradeError::GlobalCapacityExceeded);
        }
        Ok(())
    }

    /// Records a transfer at `now`: prunes the user's windows, appends the
    /// record to both, stamps the last transfer time and counts it globally.
    pub fn record_transfer(&mut self, user: AccountId, amount: i128, now: u64)
        requires
            old(self).global_hourly_count < u32::MAX,
        ensures
            final(self).hour_of(user) == old(self).live_hour(user, now).push(TransferRecord { timestamp: now, amount: amount }),
            final(self).day_of(user) == old(self).live_day(user, now).push(TransferRecord { timestamp: now, amount: amount }),
            final(self).last_time_of(user) == now,
            final(self).violations_of(user) == old(self).violations_of(user),
            final(self).penalty_of(user) == old(self).penalty_of(user),
            forall|u: AccountId| u != user ==> #[trigger] same_history(*final(self), *old(self), u),
            final(self).global_hourly_count == old(self).global_hourly_count + 1,
            final(self).limits == old(self).limits,
            final(self).whitelist@ == old(self).whitelist@,
            final(self).admin == old(self).admin,
    {
        let mut history = self.get_user_history(user);
        Self::prune_old_records(&mut history, now);
        let record = TransferRecord { timestamp: now, amount: amount };
        history.transfers_last_hour.push(record);
        history.transfers_last_day.push(record);
        history.last_transfer_time = now;
        self.store_history(user, history);
        let ghost mid = *self;
        self.global_hourly_count = self.global_hourly_count + 1;
        proof {
            assert forall|u: AccountId| u != user implies #[trigger] same_history(*self, *old(self), u) by {
                assert(same_history(mid, *old(self), u));
            }
        }
    }

    /// Adapts the limits to the global load: at most half the capacity used
    /// raises the hourly allowance by one (up to 20); 80% to 100% lowers it
    /// by one (down to 3) and lengthens the cooldown by a minute (up to ten).
    pub fn adjust_limits_based_on_load(&mut self) -> (r: Result<(), AutoTradeError>)
        ensures
            r is Ok,
            final(self).limits == adjusted_limits(old(self).limits,
                load_percent(old(self).global_hourly_count as int, old(self).limits.global_hourly_capacity as int)),
            final(self).histories@ == old(self).histories@,
            final(self).whitelist@ == old(self).whitelist@,
            final(self).global_hourly_count == old(self).global_hourly_count,
            final(self).admin == old(self).admin,
    {
        let mut limits = self.limits;
        let current_load = self.global_hourly_count;
        let load_pct: u64 = if limits.global_hourly_capacity > 0 {
            (current_load as u64 * 100) / limits.global_hourly_capacity as u64
        } else {
            100
        };
        if load_pct <= 50 {
            let raised = if limits.per_user_hourly_transfers < 19 { limits.per_user_hourly_transfers + 1 } else { 20 };
            limits.per_user_hourly_transfers = raised;
        } else if load_pct >= 80 && load_pct <= 100 {
            let lowered = limits.per_user_hourly_transfers.saturating_sub(1);
            limits.per_user_hourly_transfers = if lowered > 3 { lowered } else { 3 };
            let longer = if limits.cooldown_between_transfers < 540 { limits.cooldown_between_transfers + 60 } else { 600 };
            limits.cooldown_between_transfers = longer;
        }
        self.limits = limits;
        Ok(())
    }
}

/// A whitelisted user is never held back: every transfer passes the
/// checks, whatever its amount, timing or the user's history.
pub proof fn law_whitelisted_always_passes(limiter: RateLimiter, user: AccountId, amount: i128, now: u64)
    requires
        limiter.whitelist@.contains(user),
    ensures
        limiter.rate_check(user, amount, now) is Ok,
{
}


/// Taking a user off the whitelist undoes putting them on it, whatever
/// else the list holds: afterwards the user is not whitelisted, and every
/// other entry stays.
pub proof fn law_remove_undoes_add(list: Seq<AccountId>, user: AccountId, other: AccountId)
    requires
        other != user,
    ensures
        ({
            let added = if list.contains(user) { list } else { list.push(user) };
            let removed = added.filter(|a: AccountId| a != user);
            &&& !removed.contains(user)
            &&& list.contains(other) ==> removed.contains(other)
        }),
{
    let added = if list.contains(user) { list } else { list.push(user) };
    let pred = |a: AccountId| a != user;
    let removed = added.filter(pred);
    if removed.contains(user) {
        let j = choose|j: int| 0 <= j < removed.len() && removed[j] == user;
        added.lemma_filter_pred(pred, j);
    }
    if list.contains(other) {
        let i = choose|i: int| 0 <= i < list.len() && list[i] == other;
        assert(added[i] == other);
        added.lemma_filter_contains(pred, i);
    }
}

}
