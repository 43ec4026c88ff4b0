//! Parsing of one line of free-form text into a structured expense record:
//! a calendar date, a store, and a purchased item with its quantity and unit
//! price, or a field-level diagnostic saying which part could not be read.

mod chars;
mod cli;
mod date;
mod expense;
mod item;
mod numerals;
mod store;
pub use cli::App;
pub use cli::AppError;
pub use cli::Command;
pub use date::Date;
pub use date::DateError;
pub use date::Month;
pub use expense::Expense;
pub use expense::ExpenseBuilder;
pub use expense::ExpenseParseError;
pub use item::Item;
pub use item::ItemParseError;
pub use store::Store;
