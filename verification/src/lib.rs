pub mod assemble;
pub mod config;
pub mod date;
pub mod datefmt;
pub mod daterange;
pub mod doccer;
pub mod matching;
pub mod model;
