//! A small retail credit ledger: a fixed set of people with cash balances
//! buy from a fixed catalog of products, either for cash or on credit with
//! simple interest, and later pay down the accumulated due.
//!
//! All money is held in integer minor units so that arithmetic is exact and
//! settling a due in full drives it to exactly zero. Balances and prices are
//! in cents; due amounts and payments are in hundredths of a cent, fine
//! enough to hold simple interest on a whole-cent price exactly.

pub mod engine;
pub mod entities;
pub mod numbers;
pub mod session;
pub mod settlement;
