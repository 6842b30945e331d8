//! Builds space-separated class-list strings from conditional fragments.
//!
//! The library holds the runtime capabilities that rendered class lists rely
//! on (`traits`), the space normalizer and the functions that emitted code
//! calls (`utils`), and the compiler of the class-list invocation grammar:
//! its tokens and scanner (`token`), its parser (`tokens`) and its code
//! generator (`generate`).
pub mod generate;
pub mod token;
pub mod tokens;
pub mod traits;
pub mod utils;
