//! Mocking of functions by key, for tests.
//!
//! A call site is marked mockable with a list such as
//! `id_1 = "external_db_call: fn(u32) -> String"`, and a test names the
//! replacement for each key with a list such as `id_1 = "db_fake"`.
//! `macro_helper` parses both lists (and `delimited` the same lists still
//! wrapped in parentheses); `test_context` is the registry through which a
//! test hands the replacement's handle to the call site.
pub mod chars;
pub mod delimited;
pub mod grammar;
pub mod macro_helper;
pub mod parse_laws;
pub mod test_context;
