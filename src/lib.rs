//! Market-data caches, candle-pattern signals and order execution for a
//! rule-based trading engine, over exact fixed-point money arithmetic.
pub mod quantity;
pub mod time;
pub mod trading_cfg;
pub mod candle;
pub mod trend;
pub mod state;
pub mod last_price_state;
pub mod candle_state;
pub mod order;
pub mod strategy;
pub mod hammer_strategy;
pub mod first_strategy;
pub mod decimal;
