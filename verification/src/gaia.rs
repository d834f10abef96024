pub mod evaluator;
