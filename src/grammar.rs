//! The attribute-argument grammar, stated over sequences of characters.
//!
//! ```text
//! list        := ws item (ws "," ws item)* [ws ","] ws   |   ws
//! inject item := ident ws "=" ws '"' text ws '"'
//! mock item   := ident ws "=" ws '"' text ws ":" ws signature '"'
//! ident, text := word character+
//! signature   := any character but '"', kept verbatim
//! ```
//!
//! A separator at the very end (`id = "a",`) is accepted and ends the list;
//! anything else after the last item is an error, as is an empty name.
//!
//! Each parse returns `Ok` with the records in order of appearance, or `Err`
//! with the position of the first character (or of the end of input) that
//! does not fit the grammar.
use vstd::prelude::*;
use crate::chars::{CharClass, in_class};

verus! {

/// The end of the longest run of characters of `class` that starts at `i`.
pub open spec fn run_end(s: Seq<char>, i: int, class: CharClass) -> int
    decreases s.len() - i,
{
    if 0 <= i < s.len() && in_class(s[i], class) {
        run_end(s, i + 1, class)
    } else {
        i
    }
}

/// The first position at or after `i` that is not whitespace.
pub open spec fn ws_end(s: Seq<char>, i: int) -> int {
    run_end(s, i, CharClass::WhiteSpace)
}

/// The end of the word that starts at `i` (`i` itself when none does).
pub open spec fn word_end(s: Seq<char>, i: int) -> int {
    run_end(s, i, CharClass::Word)
}

/// Whether position `i` of `s` holds `c`.
pub open spec fn char_at(s: Seq<char>, i: int, c: char) -> bool {
    0 <= i < s.len() && s[i] == c
}

/// What an inject item states: a mocking key and the replacement function.
pub ghost struct InjectModel {
    pub identifier: Seq<char>,
    pub function_to_mock: Seq<char>,
}

/// What a mock item states: a mocking key, the mocked function and its type.
pub ghost struct MockModel {
    pub identifier: Seq<char>,
    pub function_to_mock: Seq<char>,
    pub function_signature: Seq<char>,
}

/// The inject item that starts at `i`, with the position just past it.
pub open spec fn inject_item(s: Seq<char>, i: int) -> Result<(InjectModel, int), int> {
    let id_end = word_end(s, i);
    let eq = ws_end(s, id_end);
    let open = ws_end(s, eq + 1);
    let name_end = word_end(s, open + 1);
    let close = ws_end(s, name_end);
    if id_end == i {
        Err(i)
    } else if !char_at(s, eq, '=') {
        Err(eq)
    } else if !char_at(s, open, '"') {
        Err(open)
    } else if name_end == open + 1 {
        Err(open + 1)
    } else if !char_at(s, close, '"') {
        Err(close)
    } else {
        Ok(
            (
                InjectModel {
                    identifier: s.subrange(i, id_end),
                    function_to_mock: s.subrange(open + 1, name_end),
                },
                close + 1,
            ),
        )
    }
}

/// The mock item that starts at `i`, with the position just past it.
pub open spec fn mock_item(s: Seq<char>, i: int) -> Result<(MockModel, int), int> {
    let id_end = word_end(s, i);
    let eq = ws_end(s, id_end);
    let open = ws_end(s, eq + 1);
    let name_end = word_end(s, open + 1);
    let colon = ws_end(s, name_end);
    let sig_start = ws_end(s, colon + 1);
    let close = run_end(s, sig_start, CharClass::NotQuote);
    if id_end == i {
        Err(i)
    } else if !char_at(s, eq, '=') {
        Err(eq)
    } else if !char_at(s, open, '"') {
        Err(open)
    } else if name_end == open + 1 {
        Err(open + 1)
    } else if !char_at(s, colon, ':') {
        Err(colon)
    } else if !char_at(s, close, '"') {
        Err(close)
    } else {
        Ok(
            (
                MockModel {
                    identifier: s.subrange(i, id_end),
                    function_to_mock: s.subrange(open + 1, name_end),
                    function_signature: s.subrange(sig_start, close),
                },
                close + 1,
            ),
        )
    }
}

/// Where the list goes on after an item that ends at `j`: `None` where the
/// list is over (only whitespace, or a dangling separator, is left), `Some(Ok(n))`
/// where the next item starts at `n`, `Some(Err(k))` where position `k` holds
/// neither a separator nor the end of input.
pub open spec fn after_item(s: Seq<char>, j: int) -> Option<Result<int, int>> {
    let k = ws_end(s, j);
    let n = ws_end(s, k + 1);
    if k >= s.len() {
        None
    } else if s[k] != ',' {
        Some(Err(k))
    } else if n >= s.len() {
        None
    } else {
        Some(Ok(n))
    }
}

/// `r` with `xs` put in front of the records it holds.
pub open spec fn prepend<T>(xs: Seq<T>, r: Result<Seq<T>, int>) -> Result<Seq<T>, int> {
    match r {
        Ok(rest) => Ok(xs + rest),
        Err(p) => Err(p),
    }
}

/// The inject records of the list whose first item starts at `i`.
pub open spec fn inject_list(s: Seq<char>, i: int) -> Result<Seq<InjectModel>, int>
    decreases s.len() - i,
{
    match inject_item(s, i) {
        Err(p) => Err(p),
        Ok((m, j)) => match after_item(s, j) {
            None => Ok(seq![m]),
            Some(Err(k)) => Err(k),
            Some(Ok(n)) => {
                proof {
                    lemma_inject_item_advances(s, i);
                    lemma_after_item_advances(s, j);
                }
                prepend(seq![m], inject_list(s, n))
            },
        },
    }
}

/// The mock records of the list whose first item starts at `i`.
pub open spec fn mock_list(s: Seq<char>, i: int) -> Result<Seq<MockModel>, int>
    decreases s.len() - i,
{
    match mock_item(s, i) {
        Err(p) => Err(p),
        Ok((m, j)) => match after_item(s, j) {
            None => Ok(seq![m]),
            Some(Err(k)) => Err(k),
            Some(Ok(n)) => {
                proof {
                    lemma_mock_item_advances(s, i);
                    lemma_after_item_advances(s, j);
                }
                prepend(seq![m], mock_list(s, n))
            },
        },
    }
}

/// The records of a whole inject argument list.
pub open spec fn inject_matches(s: Seq<char>) -> Result<Seq<InjectModel>, int> {
    let i = ws_end(s, 0);
    if i >= s.len() {
        Ok(seq![])
    } else {
        inject_list(s, i)
    }
}

/// The records of a whole mock argument list.
pub open spec fn mock_matches(s: Seq<char>) -> Result<Seq<MockModel>, int> {
    let i = ws_end(s, 0);
    if i >= s.len() {
        Ok(seq![])
    } else {
        mock_list(s, i)
    }
}

pub proof fn lemma_prepend_push<T>(xs: Seq<T>, x: T, r: Result<Seq<T>, int>)
    ensures
        prepend(xs, prepend(seq![x], r)) == prepend(xs.push(x), r),
{
    if let Ok(rest) = r {
        assert(xs + (seq![x] + rest) =~= xs.push(x) + rest);
    }
}

pub proof fn lemma_run_end_bounds(s: Seq<char>, i: int, class: CharClass)
    ensures
        i <= run_end(s, i, class),
        0 <= i <= s.len() ==> run_end(s, i, class) <= s.len(),
    decreases s.len() - i,
{
    if 0 <= i < s.len() && in_class(s[i], class) {
        lemma_run_end_bounds(s, i + 1, class);
    }
}

pub proof fn lemma_inject_item_advances(s: Seq<char>, i: int)
    ensures
        inject_item(s, i) matches Ok((_, j)) ==> i < j,
{
    let id_end = word_end(s, i);
    let eq = ws_end(s, id_end);
    let open = ws_end(s, eq + 1);
    let name_end = word_end(s, open + 1);
    lemma_run_end_bounds(s, i, CharClass::Word);
    lemma_run_end_bounds(s, id_end, CharClass::WhiteSpace);
    lemma_run_end_bounds(s, eq + 1, CharClass::WhiteSpace);
    lemma_run_end_bounds(s, open + 1, CharClass::Word);
    lemma_run_end_bounds(s, name_end, CharClass::WhiteSpace);
}

pub proof fn lemma_mock_item_advances(s: Seq<char>, i: int)
    ensures
        mock_item(s, i) matches Ok((_, j)) ==> i < j,
{
    let id_end = word_end(s, i);
    let eq = ws_end(s, id_end);
    let open = ws_end(s, eq + 1);
    let name_end = word_end(s, open + 1);
    let colon = ws_end(s, name_end);
    let sig_start = ws_end(s, colon + 1);
    lemma_run_end_bounds(s, i, CharClass::Word);
    lemma_run_end_bounds(s, id_end, CharClass::WhiteSpace);
    lemma_run_end_bounds(s, eq + 1, CharClass::WhiteSpace);
    lemma_run_end_bounds(s, open + 1, CharClass::Word);
    lemma_run_end_bounds(s, name_end, CharClass::WhiteSpace);
    lemma_run_end_bounds(s, colon + 1, CharClass::WhiteSpace);
    lemma_run_end_bounds(s, sig_start, CharClass::NotQuote);
}

pub proof fn lemma_after_item_advances(s: Seq<char>, j: int)
    ensures
        after_item(s, j) matches Some(Ok(n)) ==> j < n,
{
    let k = ws_end(s, j);
    lemma_run_end_bounds(s, j, CharClass::WhiteSpace);
    lemma_run_end_bounds(s, k + 1, CharClass::WhiteSpace);
}

} // verus!
