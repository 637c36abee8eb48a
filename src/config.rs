//! Configuration records: the application, exchange, database and server
//! settings, and the live bots to run.

use vstd::prelude::*;

verus! {

/// Where the dashboard server listens.
#[derive(Debug)]
pub struct ServerSettings {
    pub host: String,
    pub port: u16,
}

/// General application settings.
#[derive(Debug)]
pub struct AppSettings {
    pub environment: String,
    pub log_level: String,
    /// Size of the worker pool of an optimisation job.
    pub optimizer_cores: u32,
    pub live_trading_enabled: bool,
}

/// Exchange credentials and endpoints.
#[derive(Debug)]
pub struct BinanceSettings {
    pub api_key: String,
    pub secret_key: String,
    pub rest_base_url: String,
    pub ws_base_url: String,
}

/// The database connection.
#[derive(Debug)]
pub struct DatabaseSettings {
    pub url: String,
}

/// One live bot: a symbol, an interval and a strategy with its parameter block.
#[derive(Debug)]
pub struct BotConfig {
    pub enabled: bool,
    pub symbol: String,
    pub interval: String,
    pub strategy_name: String,
    pub strategy_params: String,
}

/// The live bots to run.
#[derive(Debug)]
pub struct LiveConfig {
    pub bot: Vec<BotConfig>,
}

/// A bot is enabled unless its configuration says otherwise.
pub fn default_as_true() -> (r: bool)
    ensures
        r,
{
    true
}

} // verus!
