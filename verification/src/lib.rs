//! Trading-desk logic for hauling between EVE Online market hubs: market
//! tick prices, order-book depth, route choice, cost basis, filters, and the
//! refresh-job state machine.

pub mod ticks;
pub mod text;
pub mod market;
pub mod fifo;
pub mod jobs;
pub mod filters;
pub mod auth;
pub mod esi;
pub mod history;
pub mod orders;
pub mod refresh;
pub mod imports;
pub mod callback;
