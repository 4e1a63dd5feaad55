//! Tracked positions: opening, closing with profit and loss, and listing a
//! user's positions.
use vstd::prelude::*;
use crate::math::in_i128;
use crate::store::OrdMap;
use crate::AccountId;

verus! {

/// Whether a position is open.
#[derive(Clone, Copy, Debug, PartialEq, Eq, Structural)]
pub enum PositionStatus {
    Open,
    Closed,
}

/// A position as stored. `trade_id` is the number the book handed out when
/// it was opened, unique over the book.
#[derive(Clone, Copy, Debug, PartialEq, Eq, Structural)]
pub struct PositionData {
    pub trade_id: u64,
    pub user: AccountId,
    pub signal_id: u64,
    pub asset_pair: u32,
    pub amount: i128,
    pub entry_price: i128,
    pub stop_loss: i128,
    pub take_profit: i128,
    pub status: PositionStatus,
    pub exit_price: i128,
    pub pnl: i128,
    pub opened_at: u64,
    pub closed_at: u64,
}

/// What closing a position reports.
#[derive(Clone, Copy, Debug, PartialEq, Eq, Structural)]
pub struct PositionResult {
    pub trade_id: u64,
    pub entry_price: i128,
    pub exit_price: i128,
    pub pnl: i128,
    pub amount: i128,
    pub closed_at: u64,
}

/// The book's persistent slots.
#[derive(Clone, Copy, Debug, PartialEq, Eq, Structural)]
pub enum PositionKey {
    Position(u64),
    UserPositions(AccountId),
    PositionNonce,
}

/// Whether a position has the wanted status (any status when `None`).
pub open spec fn status_matches(p: PositionData, only: Option<PositionStatus>) -> bool {
    match only {
        Some(s) => p.status == s,
        None => true,
    }
}

/// The positions behind a list of ids, in list order, skipping ids with
/// no position and keeping those of the wanted status.
pub open spec fn positions_listed(ids: Seq<u64>, m: Map<u128, PositionData>, only: Option<PositionStatus>) -> Seq<PositionData>
    decreases ids.len(),
{
    if ids.len() == 0 {
        Seq::empty()
    } else {
        let prev = positions_listed(ids.drop_last(), m, only);
        let k = ids.last() as u128;
        if m.contains_key(k) && status_matches(m[k], only) { prev.push(m[k]) } else { prev }
    }
}

/// The profit or loss of closing at `exit_price`.
pub open spec fn pnl_of(p: PositionData, exit_price: int) -> int {
    (exit_price - p.entry_price) * p.amount
}

/// All positions, each user's trade ids in opening order, and the next id.
pub struct PositionBook {
    pub positions: OrdMap<PositionData>,
    pub user_ids: OrdMap<Vec<u64>>,
    pub nonce: u64,
}

impl PositionBook {
    pub open spec fn ids_of(&self, user: AccountId) -> Seq<u64> {
        if self.user_ids@.contains_key(user as u128) { self.user_ids@[user as u128]@ } else { Seq::empty() }
    }

    /// Stored positions are keyed by their trade id, and every id handed
    /// out is below the nonce.
    pub open spec fn wf(&self) -> bool {
        forall|k: u128| #[trigger] self.positions@.contains_key(k) ==>
            self.positions@[k].trade_id == k && k < self.nonce
    }

    pub fn new() -> (r: Self)
        ensures
            r.wf(),
            r.positions@ == Map::<u128, PositionData>::empty(),
            r.user_ids@ == Map::<u128, Vec<u64>>::empty(),
            r.nonce == 0,
    {
        PositionBook { positions: OrdMap::new(), user_ids: OrdMap::new(), nonce: 0 }
    }

    pub fn get_nonce(&self) -> (r: u64)
        ensures
            r == self.nonce,
    {
        self.nonce
    }

    /// Hands out the next trade id.
    fn generate_trade_id(&mut self) -> (id: u64)
        requires
            old(self).nonce < u64::MAX,
        ensures
            id == old(self).nonce,
            final(self).nonce == old(self).nonce + 1,
            final(self).positions@ == old(self).positions@,
            final(self).user_ids@ == old(self).user_ids@,
    {
        let nonce = self.nonce;
        self.nonce = nonce + 1;
        nonce
    }

    pub fn get_position(&self, trade_id: u64) -> (r: Option<PositionData>)
        ensures
            r == (if self.positions@.contains_key(trade_id as u128) { Some(self.positions@[trade_id as u128]) } else { None }),
    {
        match self.positions.get(trade_id as u128) {
            Some(p) => Some(*p),
            None => None,
        }
    }

    /// The user's trade ids in opening order.
    pub fn get_user_trade_ids(&self, user: AccountId) -> (r: Vec<u64>)
        ensures
            r@ == self.ids_of(user),
    {
        match self.user_ids.get(user as u128) {
            Some(v) => v.clone(),
            None => Vec::new(),
        }
    }

    /// Opens a position at `now` and returns its new trade id.
    pub fn open_position(&mut self, user: AccountId, signal_id: u64, asset_pair: u32, amount: i128,
        entry_price: i128, stop_loss: i128, take_profit: i128, now: u64) -> (id: u64)
        requires
            old(self).wf(),
            old(self).nonce < u64::MAX,
        ensures
            final(self).wf(),
            id == old(self).nonce,
            !old(self).positions@.contains_key(id as u128),
            final(self).nonce == old(self).nonce + 1,
            final(self).positions@ == old(self).positions@.insert(id as u128, PositionData {
                trade_id: id, user: user, signal_id: signal_id, asset_pair: asset_pair, amount: amount,
                entry_price: entry_price, stop_loss: stop_loss, take_profit: take_profit,
                status: PositionStatus::Open, exit_price: 0, pnl: 0, opened_at: now, closed_at: 0,
            }),
            final(self).ids_of(user) == old(self).ids_of(user).push(id),
            forall|u: AccountId| u != user ==> #[trigger] final(self).ids_of(u) == old(self).ids_of(u),
    {
        let trade_id = self.generate_trade_id();
        let position = PositionData {
            trade_id: trade_id, user: user, signal_id: signal_id, asset_pair: asset_pair, amount: amount,
            entry_price: entry_price, stop_loss: stop_loss, take_profit: take_profit,
            status: PositionStatus::Open, exit_price: 0, pnl: 0, opened_at: now, closed_at: 0,
        };
        self.positions.insert(trade_id as u128, position);
        let mut ids = self.get_user_trade_ids(user);
        ids.push(trade_id);
        self.user_ids.insert(user as u128, ids);
        proof {
            assert forall|u: AccountId| u != user implies #[trigger] self.ids_of(u) == old(self).ids_of(u) by {
                assert(u as u128 != user as u128);
            }
        }
        trade_id
    }

    /// Closes the user's open position at `exit_price` and `now`, with
    /// profit and loss `(exit_price - entry_price) * amount`; `None` when the
    /// position is missing, someone else's or already closed.
    pub fn close_position(&mut self, user: AccountId, trade_id: u64, exit_price: i128, now: u64) -> (r: Option<PositionResult>)
        requires
            old(self).wf(),
            old(self).positions@.contains_key(trade_id as u128) ==> {
                let p = old(self).positions@[trade_id as u128];
                (p.user == user && p.status == PositionStatus::Open) ==>
                    in_i128(exit_price - p.entry_price) && in_i128(pnl_of(p, exit_price as int))
            },
        ensures
            final(self).wf(),
            final(self).nonce == old(self).nonce,
            final(self).user_ids@ == old(self).user_ids@,
            ({
                let p = old(self).positions@[trade_id as u128];
                let closable = old(self).positions@.contains_key(trade_id as u128) && p.user == user && p.status == PositionStatus::Open;
                &&& !closable ==> r is None && final(self).positions@ == old(self).positions@
                &&& closable ==> r == Some(PositionResult {
                    trade_id: trade_id, entry_price: p.entry_price, exit_price: exit_price,
                    pnl: pnl_of(p, exit_price as int) as i128, amount: p.amount, closed_at: now,
                })
                &&& closable ==> final(self).positions@ == old(self).positions@.insert(trade_id as u128, PositionData {
                    status: PositionStatus::Closed, exit_price: exit_price, pnl: pnl_of(p, exit_price as int) as i128,
                    closed_at: now, ..p
                })
            }),
    {
        let mut position = match self.get_position(trade_id) {
            Some(p) => p,
            None => return None,
        };
        if position.user != user || position.status != PositionStatus::Open {
            return None;
        }
        let pnl = (exit_price - position.entry_price) * position.amount;
        position.status = PositionStatus::Closed;
        position.exit_price = exit_price;
        position.pnl = pnl;
        position.closed_at = now;
        self.positions.insert(trade_id as u128, position);
        Some(PositionResult {
            trade_id: trade_id,
            entry_price: position.entry_price,
            exit_price: exit_price,
            pnl: pnl,
            amount: position.amount,
            closed_at: now,
        })
    }

    /// The user's positions whose status is `only` (all of them when
    /// `None`), in opening order.
    fn collect_positions(&self, user: AccountId, only: Option<PositionStatus>) -> (r: Vec<PositionData>)
        ensures
            r@ == positions_listed(self.ids_of(user), self.positions@, only),
    {
        let ids = self.get_user_trade_ids(user);
        let mut result: Vec<PositionData> = Vec::new();
        let mut i: usize = 0;
        while i < ids.len()
            invariant
                i <= ids@.len(),
                ids@ == self.ids_of(user),
                result@ == positions_listed(ids@.take(i as int), self.positions@, only),
            decreases ids@.len() - i,
        {
            proof { assert(ids@.take(i as int + 1).drop_last() =~= ids@.take(i as int)); }
            match self.get_position(ids[i]) {
                Some(pos) => {
                    let wanted = match only { Some(s) => pos.status == s, None => true };
                    if wanted {
                        result.push(pos);
                    }
                },
                None => {},
            }
            i = i + 1;
        }
        proof { assert(ids@.take(ids@.len() as int) =~= ids@); }
        result
    }

    /// All of the user's positions, in opening order.
    pub fn get_all_positions(&self, user: AccountId) -> (r: Vec<PositionData>)
        ensures
            r@ == positions_listed(self.ids_of(user), self.positions@, None),
    {
        self.collect_positions(user, None)
    }

    /// The user's open positions, in opening order.
    pub fn get_open_positions(&self, user: AccountId) -> (r: Vec<PositionData>)
        ensures
            r@ == positions_listed(self.ids_of(user), self.positions@, Some(PositionStatus::Open)),
    {
        self.collect_positions(user, Some(PositionStatus::Open))
    }

    /// The user's closed positions, in opening order.
    pub fn get_closed_positions(&self, user: AccountId) -> (r: Vec<PositionData>)
        ensures
            r@ == positions_listed(self.ids_of(user), self.positions@, Some(PositionStatus::Closed)),
    {
        self.collect_positions(user, Some(PositionStatus::Closed))
    }
}

}
