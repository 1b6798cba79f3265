//! How the server is set up when it starts.

use crate::text::{copy_text, same_text};
use vstd::prelude::*;

verus! {

/// The database that is used unless another is named.
pub const DEFAULT_DATABASE: &'static str = "sqlite://./georuggine.db";

/// The database that lives in memory.
pub const MEMORY_DATABASE: &'static str = "sqlite::memory:";

/// The address that the server listens on unless another is named.
pub const ADDR_DEFAULT: &'static str = "127.0.0.1:7878";

/// The page that is served when there is no other.
pub const FALLBACK_PAGE: &'static str = "<h1>georuggine</h1><p>web/index.html non trovato</p>";

/// A setting: the one that was made, or else the default.
pub fn setting(made: Option<String>, default: &str) -> (s: String)
    ensures
        match made {
            Some(m) => s == m,
            None => s@ == default@,
        },
{
    match made {
        Some(m) => m,
        None => copy_text(default),
    }
}

/// The database to open, given the one that the environment names.
pub fn database_url(named: Option<String>) -> (url: String)
    ensures
        match named {
            Some(n) => url == n,
            None => url@ == DEFAULT_DATABASE@,
        },
{
    setting(named, DEFAULT_DATABASE)
}

/// How a database is opened.
#[derive(Debug, Clone, Copy, PartialEq, Eq, Structural)]
pub struct PoolPlan {
    /// Whether it keeps a write-ahead log.
    pub write_ahead_log: bool,
    pub max_connections: u32,
}

/// How a database is opened: in memory on one connection and without a log,
/// else on up to eight and with one.
pub fn pool_plan(url: &str) -> (plan: PoolPlan)
    ensures
        plan == (if url@ == MEMORY_DATABASE@ {
            PoolPlan { write_ahead_log: false, max_connections: 1 }
        } else {
            PoolPlan { write_ahead_log: true, max_connections: 8 }
        }),
{
    if same_text(url, MEMORY_DATABASE) {
        PoolPlan { write_ahead_log: false, max_connections: 1 }
    } else {
        PoolPlan { write_ahead_log: true, max_connections: 8 }
    }
}

/// The folder of the web pages: the first of the usual two that has an index
/// page, and the first of them when neither has.
pub fn web_base(here: bool, above: bool) -> (folder: &'static str)
    ensures
        folder@ == (if !here && above {
            "../web"@
        } else {
            "web"@
        }),
{
    if !here && above {
        "../web"
    } else {
        "web"
    }
}

/// What holds where nothing else is set.
pub proof fn law_default_settings()
    ensures
        DEFAULT_DATABASE@ == "sqlite://./georuggine.db"@,
        MEMORY_DATABASE@ == "sqlite::memory:"@,
        ADDR_DEFAULT@ == "127.0.0.1:7878"@,
        FALLBACK_PAGE@ == "<h1>georuggine</h1><p>web/index.html non trovato</p>"@,
{
}

}
