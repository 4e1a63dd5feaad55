//! Trading signals by id.
use vstd::prelude::*;
use crate::store::OrdMap;
use crate::AccountId;

verus! {

/// The persistent slots of trades and signals.
#[derive(Clone, Copy, Debug, PartialEq, Eq, Structural)]
pub enum DataKey {
    Trades(AccountId, u64),
    Signal(u64),
}

/// A published trading signal.
#[derive(Clone, Copy, Debug, PartialEq, Eq, Structural)]
pub struct Signal {
    pub signal_id: u64,
    pub price: i128,
    pub expiry: u64,
    pub base_asset: u32,
}

/// Signals by id.
pub struct SignalBook {
    pub signals: OrdMap<Signal>,
}

impl SignalBook {
    pub fn new() -> (b: Self)
        ensures
            b.signals@ == Map::<u128, Signal>::empty(),
    {
        SignalBook { signals: OrdMap::new() }
    }

    pub fn get_signal(&self, id: u64) -> (r: Option<Signal>)
        ensures
            r == (if self.signals@.contains_key(id as u128) { Some(self.signals@[id as u128]) } else { None::<Signal> }),
    {
        match self.signals.get(id as u128) {
            Some(s) => Some(*s),
            None => None,
        }
    }

    pub fn set_signal(&mut self, id: u64, signal: &Signal)
        ensures
            final(self).signals@ == old(self).signals@.insert(id as u128, *signal),
    {
        self.signals.insert(id as u128, *signal);
    }
}

}
