//! Evaluation of package candidates against the books of their two tokens.
pub mod top_book;

pub use top_book::{calculate_top_book_quote, TopBookQuote};
pub mod evaluator_loop;
pub use evaluator_loop::{evaluate_candidate_batch, evaluate_package_top_book, evaluate_package_without_books, BookPair};
pub use crate::types::evaluation::EvaluationClassification;
