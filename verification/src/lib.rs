//! A workbook of small, independently usable components, each stated with a
//! contract and proved against it.

pub mod adder;
pub mod aggregator;
pub mod blog;
pub mod borrowing;
pub mod cons_list;
pub mod decimal;
pub mod functions;
pub mod inventory;
pub mod lifetimes;
pub mod limit_tracker;
pub mod minigrep;
pub mod ownership;
pub mod page;
pub mod pool;
pub mod server;
pub mod shapes;
pub mod shoes;
pub mod streams;
pub mod text;
