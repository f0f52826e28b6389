//! Small verified exercises: a pair-sum search, recursive Fibonacci, simple
//! records and enums, a random shuffle, and a few collection questions.

pub mod bed;
pub mod cars;
pub mod collection_questions;
pub mod fib;
pub mod generics;
pub mod human;
pub mod profile;
pub mod shake;
pub mod text;
pub mod two_sum;
