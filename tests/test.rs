//! Mocked call sites wired through the attribute parsers and the registry.
//!
//! A handle here is the index of a replacement in a table of functions of one
//! type: the table plays the part of the function's address, and looking a
//! handle up is the reinterpretation that the caller owes.
use mock_me::macro_helper::{get_inject_matches, get_mock_matches};
use mock_me::test_context::{get_test_context, TextContext};

type DbCall = fn(u32) -> String;
type OtherCall = fn() -> String;
type SillyFunc = fn(f64, f64) -> f64;

const DB_CALLS: [(&str, DbCall); 2] = [("external_db_call", external_db_call), ("db_fake", db_fake)];
const OTHER_CALLS: [(&str, OtherCall); 2] = [("other_call", other_call), ("other_fake", other_fake)];
const SILLY_FUNCS: [(&str, SillyFunc); 3] = [
    ("silly_func", silly_func),
    ("replacement_1", replacement_1),
    ("replacement_2", replacement_2),
];

fn handle_of<T>(table: &[(&str, T)], name: &str) -> Option<usize> {
    table.iter().position(|(n, _)| *n == name)
}

/// Stores, for each item of an inject list, the handle of its replacement.
fn inject(ctx: &mut TextContext, attr: &str) {
    for m in get_inject_matches(attr).unwrap() {
        let handle = handle_of(&DB_CALLS, &m.function_to_mock)
            .or_else(|| handle_of(&OTHER_CALLS, &m.function_to_mock))
            .or_else(|| handle_of(&SILLY_FUNCS, &m.function_to_mock))
            .unwrap();
        ctx.set(m.identifier, handle).unwrap();
    }
}

/// The replacement that the mock list's item for `name` stands for.
fn resolve<T: Copy>(ctx: &TextContext, attr: &str, name: &str, table: &[(&str, T)]) -> T {
    let m = get_mock_matches(attr)
        .unwrap()
        .into_iter()
        .find(|m| m.function_to_mock == name)
        .unwrap();
    table[ctx.get(&m.identifier).unwrap()].1
}

const SUPER_COOL_MOCKS: &str = r#"id_1="external_db_call: fn(u32) -> String", id_2="other_call: fn() -> String""#;

fn my_super_cool_function(ctx: &TextContext) -> String {
    let input = 42u32;
    let db_result = resolve(ctx, SUPER_COOL_MOCKS, "external_db_call", &DB_CALLS)(input);
    let other_result = resolve(ctx, SUPER_COOL_MOCKS, "other_call", &OTHER_CALLS)();
    format!("I have two results! {} and {}", db_result, other_result)
}

fn external_db_call(_: u32) -> String {
    "real database".to_string()
}

fn other_call() -> String {
    "real call".to_string()
}

#[test]
fn actual_test2() {
    let mut ctx = get_test_context();
    inject(&mut ctx, r#"id_1="db_fake", id_2="other_fake""#);
    let result = my_super_cool_function(&ctx);
    assert_eq!(result, "I have two results! Faker! and This is indeed a disturbing universe.");
    ctx.clear();
}

fn db_fake(_: u32) -> String {
    "Faker!".to_string()
}

fn other_fake() -> String {
    "This is indeed a disturbing universe.".to_string()
}

const FUN_MOCKS: &str = r#"fun="silly_func: fn(f64, f64) -> f64""#;

fn function_with_fun_id(ctx: &TextContext) -> f64 {
    resolve(ctx, FUN_MOCKS, "silly_func", &SILLY_FUNCS)(30f64, 20f64)
}

fn silly_func(num_1: f64, num_2: f64) -> f64 {
    num_1 + num_2
}

#[test]
fn test_with_silly_func_1() {
    let mut ctx = get_test_context();
    inject(&mut ctx, r#"fun="replacement_1""#);
    let result = function_with_fun_id(&ctx);
    assert_eq!(result, 10f64);
    ctx.clear();
}

fn replacement_1(num_1: f64, num_2: f64) -> f64 {
    num_1 - num_2
}

#[test]
fn test_with_silly_func_2() {
    let mut ctx = get_test_context();
    inject(&mut ctx, r#"fun="replacement_2""#);
    let result = function_with_fun_id(&ctx);
    assert_eq!(result, 600f64);
    ctx.clear();
}

fn replacement_2(num_1: f64, num_2: f64) -> f64 {
    num_1 * num_2
}

#[test]
fn unmocked_function_resolves_to_itself_when_injected() {
    let mut ctx = get_test_context();
    inject(&mut ctx, r#"fun="silly_func""#);
    assert_eq!(function_with_fun_id(&ctx), 50f64);
}
