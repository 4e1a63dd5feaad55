//! Users' standing authorizations for the contract to trade on their behalf.
use vstd::prelude::*;
use crate::errors::AutoTradeError;
use crate::store::OrdMap;
use crate::AccountId;

verus! {

pub const SECONDS_PER_DAY: u64 = 86400;

/// An authorization: trades up to `max_trade_amount` until `expires_at`.
#[derive(Clone, Copy, Debug, PartialEq, Eq, Structural)]
pub struct AuthConfig {
    pub authorized: bool,
    pub max_trade_amount: i128,
    pub expires_at: u64,
    pub granted_at: u64,
}

/// The persistent slot of a user's authorization.
#[derive(Clone, Copy, Debug, PartialEq, Eq, Structural)]
pub enum AuthKey {
    Authorization(AccountId),
}

/// Whether a configuration allows a trade of `amount` at `now`.
pub open spec fn allows(cfg: AuthConfig, amount: int, now: u64) -> bool {
    cfg.authorized && now < cfg.expires_at && amount <= cfg.max_trade_amount
}

/// The authorization a grant of `max_amount` for `duration_days` days at
/// `now` records.
pub open spec fn granted(max_amount: i128, duration_days: u32, now: u64) -> AuthConfig {
    AuthConfig {
        authorized: true,
        max_trade_amount: max_amount,
        expires_at: (now + duration_days * SECONDS_PER_DAY) as u64,
        granted_at: now,
    }
}

/// All users' authorizations.
pub struct AuthBook {
    pub configs: OrdMap<AuthConfig>,
}

impl AuthBook {
    pub fn new() -> (r: Self)
        ensures
            r.configs@ == Map::<u128, AuthConfig>::empty(),
    {
        AuthBook { configs: OrdMap::new() }
    }

    /// Authorizes trades of up to `max_amount` for `duration_days` days
    /// from `now`, replacing any earlier authorization.
    pub fn grant_authorization(&mut self, user: AccountId, max_amount: i128, duration_days: u32, now: u64) -> (r: Result<(), AutoTradeError>)
        requires
            max_amount > 0 ==> now + duration_days * SECONDS_PER_DAY <= u64::MAX,
        ensures
            max_amount <= 0 ==> r == Err::<(), AutoTradeError>(AutoTradeError::InvalidAmount) && final(self).configs@ == old(self).configs@,
            max_amount > 0 ==> r is Ok && final(self).configs@ == old(self).configs@.insert(user as u128, granted(max_amount, duration_days, now)),
    {
        if max_amount <= 0 {
            return Err(AutoTradeError::InvalidAmount);
        }
        let expires_at = now + (duration_days as u64 * SECONDS_PER_DAY);
        let config = AuthConfig { authorized: true, max_trade_amount: max_amount, expires_at: expires_at, granted_at: now };
        self.configs.insert(user as u128, config);
        Ok(())
    }

    /// Withdraws the user's authorization.
    pub fn revoke_authorization(&mut self, user: AccountId) -> (r: Result<(), AutoTradeError>)
        ensures
            r is Ok,
            final(self).configs@ == old(self).configs@.remove(user as u128),
    {
        self.configs.remove(user as u128);
        Ok(())
    }

    /// Whether the user has authorized a trade of `amount` at `now`.
    pub fn is_authorized(&self, user: AccountId, amount: i128, now: u64) -> (r: bool)
        ensures
            r == (self.configs@.contains_key(user as u128) && allows(self.configs@[user as u128], amount as int, now)),
    {
        match self.configs.get(user as u128) {
            Some(cfg) => cfg.authorized && now < cfg.expires_at && amount <= cfg.max_trade_amount,
            None => false,
        }
    }

    /// The user's authorization, if any.
    pub fn get_auth_config(&self, user: AccountId) -> (r: Option<AuthConfig>)
        ensures
            r == (if self.configs@.contains_key(user as u128) { Some(self.configs@[user as u128]) } else { None }),
    {
        match self.configs.get(user as u128) {
            Some(cfg) => Some(*cfg),
            None => None,
        }
    }
}

/// A grant lets through every trade up to its amount from the moment it is
/// given until it expires, and nothing larger or later.
pub proof fn law_grant_authorizes(configs: Map<u128, AuthConfig>, user: AccountId, max_amount: i128, duration_days: u32,
    now: u64, amount: i128, at: u64)
    requires
        max_amount > 0,
        now + duration_days * SECONDS_PER_DAY <= u64::MAX,
    ensures
        ({
            let after = configs.insert(user as u128, granted(max_amount, duration_days, now));
            &&& after.contains_key(user as u128)
            &&& allows(after[user as u128], amount as int, at) <==> (amount <= max_amount && at < now + duration_days * SECONDS_PER_DAY)
        }),
{
}

/// Once revoked, a user is authorized for nothing.
pub proof fn law_revoke_denies(configs: Map<u128, AuthConfig>, user: AccountId)
    ensures
        !configs.remove(user as u128).contains_key(user as u128),
{
}

}
