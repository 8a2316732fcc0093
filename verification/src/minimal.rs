//! The small report: seven tables, filled from logs, an account server and an independent check.
use crate::pricing::TokenCounts;
use vstd::prelude::*;
use vstd::string::*;

pub mod app_server;
pub mod ccusage;
pub mod db;
pub mod jsonl;
pub mod pricing;
pub mod report;
pub mod rollup;
pub mod server;

verus! {

/// The time zone whose days are reported: the configured one, else that of Shanghai.
pub fn configured_timezone(setting: Option<String>) -> (r: String)
    ensures
        r@ == (match setting {
            Some(timezone) => timezone@,
            None => "Asia/Shanghai"@,
        }),
{
    match setting {
        Some(timezone) => timezone,
        None => "Asia/Shanghai".to_owned(),
    }
}

/// Whether any count is above zero.
pub open spec fn counts_something(tokens: TokenCounts) -> bool {
    tokens.input > 0 || tokens.cached > 0 || tokens.cache_write > 0 || tokens.output > 0
        || tokens.reasoning > 0 || tokens.total > 0
}

/// Whether any count is below an earlier one.
pub open spec fn went_back(tokens: TokenCounts, previous: TokenCounts) -> bool {
    tokens.input < previous.input || tokens.cached < previous.cached || tokens.cache_write
        < previous.cache_write || tokens.output < previous.output || tokens.reasoning
        < previous.reasoning || tokens.total < previous.total
}

impl TokenCounts {
    /// Whether any count is above zero.
    pub fn positive(&self) -> (r: bool)
        ensures
            r == counts_something(*self),
    {
        self.input > 0 || self.cached > 0 || self.cache_write > 0 || self.output > 0
            || self.reasoning > 0 || self.total > 0
    }

    /// Whether any count is below that of `previous`.
    pub fn regressed_from(&self, previous: &Self) -> (r: bool)
        ensures
            r == went_back(*self, *previous),
    {
        self.input < previous.input || self.cached < previous.cached || self.cache_write
            < previous.cache_write || self.output < previous.output || self.reasoning
            < previous.reasoning || self.total < previous.total
    }
}

} // verus!
