//! Small verified components: a list that lives inline until it outgrows
//! its buffer, a ring buffer, an expression evaluator, a validated
//! identification number, a printer whose state is in its type, FizzBuzz,
//! and a quiz program with the console and the file that it talks to.

pub mod bsn;
mod chance;
pub mod decimal;
pub mod expr;
pub mod extremes;
pub mod fizzbuzz;
pub mod json;
pub mod local_storage_vec;
pub mod printer;
pub mod quizzer;
pub mod ring_buffer;
pub mod text;
pub mod username;
pub mod word_count;
