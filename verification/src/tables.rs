//! The tables of a GnuCash book: their records and the column lists and SQL
//! text that read and write them.
pub mod accounts;
pub mod books;
pub mod commodities;
pub mod lots;
pub mod slots;
pub mod splits;
pub mod transactions;
pub mod versions;
