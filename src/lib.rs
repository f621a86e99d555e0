//! Decides which container image updates still need announcing, renders them as
//! webhook embeds, splits them into batches, and keeps the set of updates that
//! were already announced.

pub mod cache;
pub mod cup;
pub mod discord;
pub mod pipeline;
pub mod scheduler;

use vstd::prelude::*;

verus! {

/// Settings of the notifier.
#[derive(Debug, Clone)]
pub struct Config {
    /// Discord's webhook URL to which requests are sent.
    pub webhook_url: String,
    /// Base URL of the Cup instance.
    pub cup_base_url: String,
    /// Six-field cron pattern of the runs.
    pub cron: String,
}

/// The cron pattern used when none is configured: every day at midnight.
pub open spec fn default_cron_spec() -> Seq<char> {
    "0 0 0 * * *"@
}

/// The cron pattern used when none is configured.
pub fn default_cron() -> (r: String)
    ensures
        r@ == default_cron_spec(),
{
    String::from_str("0 0 0 * * *")
}

impl Config {
    /// Builds a configuration; a missing cron pattern takes the daily default.
    pub fn new(webhook_url: String, cup_base_url: String, cron: Option<String>) -> (r: Config)
        ensures
            r.webhook_url@ == webhook_url@,
            r.cup_base_url@ == cup_base_url@,
            r.cron@ == match cron {
                Some(c) => c@,
                None => default_cron_spec(),
            },
    {
        let cron = match cron {
            Some(c) => c,
            None => default_cron(),
        };
        Config { webhook_url, cup_base_url, cron }
    }
}

} // verus!
