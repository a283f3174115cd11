//! What holds of the contract as a whole.
pub mod acceptance;
pub mod access;
pub mod books;
pub mod changes;
pub mod custody;
pub mod fees;
pub mod history;
pub mod pricing;
pub mod ranges;
pub mod schedule;
pub mod settlement;
pub mod shares;
