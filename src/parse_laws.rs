//! What holds of every argument list: a list written out from records parses
//! back to those records, however much whitespace stands between its tokens;
//! a blank list has no records; text that lacks what every item needs fails.
use vstd::prelude::*;
use crate::chars::{CharClass, in_class, is_white_space, is_word_char};
use crate::grammar::{
    InjectModel,
    MockModel,
    after_item,
    char_at,
    inject_item,
    inject_list,
    inject_matches,
    mock_item,
    mock_list,
    mock_matches,
    run_end,
    word_end,
    ws_end,
};

verus! {

/// A non-empty run of word characters.
pub open spec fn is_word(w: Seq<char>) -> bool {
    w.len() > 0 && forall|t: int| 0 <= t < w.len() ==> is_word_char(#[trigger] w[t])
}

/// Whitespace only (possibly nothing).
pub open spec fn is_blank(g: Seq<char>) -> bool {
    forall|t: int| 0 <= t < g.len() ==> is_white_space(#[trigger] g[t])
}

/// A signature that an item can carry: no double quote in it, and no
/// whitespace at its start, where it would be taken for a separator.
pub open spec fn is_signature(sig: Seq<char>) -> bool {
    &&& forall|t: int| 0 <= t < sig.len() ==> #[trigger] sig[t] != '"'
    &&& sig.len() > 0 ==> !is_white_space(sig[0])
}

pub open spec fn valid_inject(m: InjectModel) -> bool {
    is_word(m.identifier) && is_word(m.function_to_mock)
}

pub open spec fn valid_mock(m: MockModel) -> bool {
    is_word(m.identifier) && is_word(m.function_to_mock) && is_signature(m.function_signature)
}

/// `id<g>=<g>"name<g>"`
pub open spec fn inject_item_text(m: InjectModel, g: Seq<char>) -> Seq<char> {
    m.identifier + g + seq!['='] + g + seq!['"'] + m.function_to_mock + g + seq!['"']
}

/// `id<g>=<g>"name<g>:<g>signature"`
pub open spec fn mock_item_text(m: MockModel, g: Seq<char>) -> Seq<char> {
    m.identifier + g + seq!['='] + g + seq!['"'] + m.function_to_mock + g + seq![':'] + g
        + m.function_signature + seq!['"']
}

/// The items of `ms`, separated by `<g>,<g>`.
pub open spec fn inject_list_text(ms: Seq<InjectModel>, g: Seq<char>) -> Seq<char>
    decreases ms.len(),
{
    if ms.len() <= 1 {
        if ms.len() == 0 {
            seq![]
        } else {
            inject_item_text(ms[0], g)
        }
    } else {
        inject_item_text(ms[0], g) + g + seq![','] + g + inject_list_text(ms.drop_first(), g)
    }
}

/// The items of `ms`, separated by `<g>,<g>`.
pub open spec fn mock_list_text(ms: Seq<MockModel>, g: Seq<char>) -> Seq<char>
    decreases ms.len(),
{
    if ms.len() <= 1 {
        if ms.len() == 0 {
            seq![]
        } else {
            mock_item_text(ms[0], g)
        }
    } else {
        mock_item_text(ms[0], g) + g + seq![','] + g + mock_list_text(ms.drop_first(), g)
    }
}

/// An inject argument list for `ms`, with `g` round every token.
pub open spec fn inject_text(ms: Seq<InjectModel>, g: Seq<char>) -> Seq<char> {
    g + inject_list_text(ms, g) + g
}

/// A mock argument list for `ms`, with `g` round every token.
pub open spec fn mock_text(ms: Seq<MockModel>, g: Seq<char>) -> Seq<char> {
    g + mock_list_text(ms, g) + g
}

/// `w` stands in `s` from position `i` on.
pub open spec fn occurs_at(s: Seq<char>, i: int, w: Seq<char>) -> bool {
    0 <= i && i + w.len() <= s.len() && s.subrange(i, i + w.len()) == w
}

proof fn lemma_split(s: Seq<char>, i: int, a: Seq<char>, b: Seq<char>)
    requires
        occurs_at(s, i, a + b),
    ensures
        occurs_at(s, i, a),
        occurs_at(s, i + a.len(), b),
{
    let whole = s.subrange(i, i + (a + b).len());
    assert forall|t: int| 0 <= t < a.len() implies #[trigger] s.subrange(i, i + a.len())[t]
        == a[t] by {
        assert(whole[t] == (a + b)[t]);
    }
    assert forall|t: int| 0 <= t < b.len() implies #[trigger] s.subrange(
        i + a.len(),
        i + a.len() + b.len(),
    )[t] == b[t] by {
        assert(whole[a.len() + t] == (a + b)[a.len() + t]);
    }
    assert(s.subrange(i, i + a.len()) =~= a);
    assert(s.subrange(i + a.len(), i + a.len() + b.len()) =~= b);
}

proof fn lemma_char_occurs(s: Seq<char>, i: int, c: char)
    requires
        occurs_at(s, i, seq![c]),
    ensures
        0 <= i < s.len(),
        s[i] == c,
{
    assert(s.subrange(i, i + 1)[0] == s[i]);
}

proof fn lemma_run_over(s: Seq<char>, i: int, w: Seq<char>, class: CharClass)
    requires
        occurs_at(s, i, w),
        forall|t: int| 0 <= t < w.len() ==> in_class(#[trigger] w[t], class),
        i + w.len() == s.len() || !in_class(s[i + w.len()], class),
    ensures
        run_end(s, i, class) == i + w.len(),
    decreases w.len(),
{
    if w.len() > 0 {
        assert(s[i] == s.subrange(i, i + w.len())[0]);
        assert(s.subrange(i + 1, i + w.len()) =~= w.drop_first());
        lemma_run_over(s, i + 1, w.drop_first(), class);
    }
}

/// Whitespace `g` at `p`, followed by a character that is not whitespace.
proof fn lemma_gap(s: Seq<char>, p: int, g: Seq<char>)
    requires
        occurs_at(s, p, g),
        is_blank(g),
        p + g.len() < s.len(),
        !is_white_space(s[p + g.len()]),
    ensures
        ws_end(s, p) == p + g.len(),
        g.len() > 0 ==> is_white_space(s[p]),
{
    lemma_run_over(s, p, g, CharClass::WhiteSpace);
    if g.len() > 0 {
        assert(s[p] == s.subrange(p, p + g.len())[0]);
    }
}

/// Whitespace from `p` to the end of `s`.
proof fn lemma_blank_tail(s: Seq<char>, p: int)
    requires
        0 <= p <= s.len(),
        forall|t: int| p <= t < s.len() ==> is_white_space(#[trigger] s[t]),
    ensures
        ws_end(s, p) == s.len(),
{
    let w = s.subrange(p, s.len() as int);
    assert forall|t: int| 0 <= t < w.len() implies in_class(#[trigger] w[t], CharClass::WhiteSpace) by {
        assert(w[t] == s[p + t]);
    }
    lemma_run_over(s, p, w, CharClass::WhiteSpace);
}

/// Word `w` at `p`, followed by a character that is no word character.
proof fn lemma_word(s: Seq<char>, p: int, w: Seq<char>)
    requires
        occurs_at(s, p, w),
        is_word(w),
        p + w.len() < s.len(),
        !is_word_char(s[p + w.len()]),
    ensures
        word_end(s, p) == p + w.len(),
        s.subrange(p, word_end(s, p)) == w,
        is_word_char(s[p]),
{
    lemma_run_over(s, p, w, CharClass::Word);
    assert(s[p] == s.subrange(p, p + w.len())[0]);
}

proof fn lemma_inject_item_at(s: Seq<char>, i: int, m: InjectModel, g: Seq<char>)
    requires
        valid_inject(m),
        is_blank(g),
        occurs_at(s, i, inject_item_text(m, g)),
    ensures
        inject_item(s, i) == Ok::<(InjectModel, int), int>(
            (m, i + inject_item_text(m, g).len()),
        ),
        is_word_char(s[i]),
{
    let id = m.identifier;
    let name = m.function_to_mock;
    let t1 = id + g;
    let t2 = t1 + seq!['='];
    let t3 = t2 + g;
    let t4 = t3 + seq!['"'];
    let t5 = t4 + name;
    let t6 = t5 + g;
    lemma_split(s, i, t6, seq!['"']);
    lemma_split(s, i, t5, g);
    lemma_split(s, i, t4, name);
    lemma_split(s, i, t3, seq!['"']);
    lemma_split(s, i, t2, g);
    lemma_split(s, i, t1, seq!['=']);
    lemma_split(s, i, id, g);
    let p1 = i + id.len();
    let p2 = p1 + g.len();
    let p4 = p2 + 1 + g.len();
    let p5 = p4 + 1;
    let p6 = p5 + name.len();
    let p7 = p6 + g.len();
    lemma_char_occurs(s, p2, '=');
    lemma_char_occurs(s, p4, '"');
    lemma_char_occurs(s, p7, '"');
    lemma_gap(s, p1, g);
    lemma_gap(s, p2 + 1, g);
    lemma_gap(s, p6, g);
    lemma_word(s, i, id);
    lemma_word(s, p5, name);
}

proof fn lemma_mock_item_at(s: Seq<char>, i: int, m: MockModel, g: Seq<char>)
    requires
        valid_mock(m),
        is_blank(g),
        occurs_at(s, i, mock_item_text(m, g)),
    ensures
        mock_item(s, i) == Ok::<(MockModel, int), int>((m, i + mock_item_text(m, g).len())),
        is_word_char(s[i]),
{
    let id = m.identifier;
    let name = m.function_to_mock;
    let sig = m.function_signature;
    let t1 = id + g;
    let t2 = t1 + seq!['='];
    let t3 = t2 + g;
    let t4 = t3 + seq!['"'];
    let t5 = t4 + name;
    let t6 = t5 + g;
    let t7 = t6 + seq![':'];
    let t8 = t7 + g;
    let t9 = t8 + sig;
    lemma_split(s, i, t9, seq!['"']);
    lemma_split(s, i, t8, sig);
    lemma_split(s, i, t7, g);
    lemma_split(s, i, t6, seq![':']);
    lemma_split(s, i, t5, g);
    lemma_split(s, i, t4, name);
    lemma_split(s, i, t3, seq!['"']);
    lemma_split(s, i, t2, g);
    lemma_split(s, i, t1, seq!['=']);
    lemma_split(s, i, id, g);
    let p1 = i + id.len();
    let p2 = p1 + g.len();
    let p4 = p2 + 1 + g.len();
    let p5 = p4 + 1;
    let p6 = p5 + name.len();
    let p7 = p6 + g.len();
    let p8 = p7 + 1 + g.len();
    let p9 = p8 + sig.len();
    lemma_char_occurs(s, p2, '=');
    lemma_char_occurs(s, p4, '"');
    lemma_char_occurs(s, p7, ':');
    lemma_char_occurs(s, p9, '"');
    if sig.len() > 0 {
        assert(s[p8] == s.subrange(p8, p9)[0]);
    }
    lemma_gap(s, p1, g);
    lemma_gap(s, p2 + 1, g);
    lemma_gap(s, p6, g);
    lemma_gap(s, p7 + 1, g);
    lemma_word(s, i, id);
    lemma_word(s, p5, name);
    assert forall|t: int| 0 <= t < sig.len() implies in_class(
        #[trigger] sig[t],
        CharClass::NotQuote,
    ) by {}
    lemma_run_over(s, p8, sig, CharClass::NotQuote);
}

proof fn lemma_inject_list_at(s: Seq<char>, i: int, ms: Seq<InjectModel>, g: Seq<char>)
    requires
        ms.len() > 0,
        forall|k: int| 0 <= k < ms.len() ==> valid_inject(#[trigger] ms[k]),
        is_blank(g),
        occurs_at(s, i, inject_list_text(ms, g)),
        forall|t: int|
            i + inject_list_text(ms, g).len() <= t < s.len() ==> is_white_space(#[trigger] s[t]),
    ensures
        inject_list(s, i) == Ok::<Seq<InjectModel>, int>(ms),
    decreases ms.len(),
{
    let item = inject_item_text(ms[0], g);
    let j = i + item.len();
    if ms.len() == 1 {
        lemma_inject_item_at(s, i, ms[0], g);
        lemma_blank_tail(s, j);
        assert(after_item(s, j) is None);
        assert(seq![ms[0]] =~= ms);
    } else {
        let rest = ms.drop_first();
        let rest_text = inject_list_text(rest, g);
        lemma_split(s, i, item + g + seq![','] + g, rest_text);
        lemma_split(s, i, item + g + seq![','], g);
        lemma_split(s, i, item + g, seq![',']);
        lemma_split(s, i, item, g);
        lemma_inject_item_at(s, i, ms[0], g);
        let k = j + g.len();
        let n = k + 1 + g.len();
        lemma_char_occurs(s, k, ',');
        assert(rest_text.len() >= inject_item_text(rest[0], g).len());
        if rest.len() > 1 {
            lemma_split(s, n, inject_item_text(rest[0], g) + g + seq![','] + g,
                inject_list_text(rest.drop_first(), g));
            lemma_split(s, n, inject_item_text(rest[0], g) + g + seq![','], g);
            lemma_split(s, n, inject_item_text(rest[0], g) + g, seq![',']);
            lemma_split(s, n, inject_item_text(rest[0], g), g);
        }
        lemma_inject_item_at(s, n, rest[0], g);
        lemma_gap(s, j, g);
        lemma_gap(s, k + 1, g);
        assert(after_item(s, j) == Some(Ok::<int, int>(n)));
        lemma_inject_list_at(s, n, rest, g);
        assert(seq![ms[0]] + rest =~= ms);
    }
}

proof fn lemma_mock_list_at(s: Seq<char>, i: int, ms: Seq<MockModel>, g: Seq<char>)
    requires
        ms.len() > 0,
        forall|k: int| 0 <= k < ms.len() ==> valid_mock(#[trigger] ms[k]),
        is_blank(g),
        occurs_at(s, i, mock_list_text(ms, g)),
        forall|t: int|
            i + mock_list_text(ms, g).len() <= t < s.len() ==> is_white_space(#[trigger] s[t]),
    ensures
        mock_list(s, i) == Ok::<Seq<MockModel>, int>(ms),
    decreases ms.len(),
{
    let item = mock_item_text(ms[0], g);
    let j = i + item.len();
    if ms.len() == 1 {
        lemma_mock_item_at(s, i, ms[0], g);
        lemma_blank_tail(s, j);
        assert(after_item(s, j) is None);
        assert(seq![ms[0]] =~= ms);
    } else {
        let rest = ms.drop_first();
        let rest_text = mock_list_text(rest, g);
        lemma_split(s, i, item + g + seq![','] + g, rest_text);
        lemma_split(s, i, item + g + seq![','], g);
        lemma_split(s, i, item + g, seq![',']);
        lemma_split(s, i, item, g);
        lemma_mock_item_at(s, i, ms[0], g);
        let k = j + g.len();
        let n = k + 1 + g.len();
        lemma_char_occurs(s, k, ',');
        assert(rest_text.len() >= mock_item_text(rest[0], g).len());
        if rest.len() > 1 {
            lemma_split(s, n, mock_item_text(rest[0], g) + g + seq![','] + g,
                mock_list_text(rest.drop_first(), g));
            lemma_split(s, n, mock_item_text(rest[0], g) + g + seq![','], g);
            lemma_split(s, n, mock_item_text(rest[0], g) + g, seq![',']);
            lemma_split(s, n, mock_item_text(rest[0], g), g);
        }
        lemma_mock_item_at(s, n, rest[0], g);
        lemma_gap(s, j, g);
        lemma_gap(s, k + 1, g);
        assert(after_item(s, j) == Some(Ok::<int, int>(n)));
        lemma_mock_list_at(s, n, rest, g);
        assert(seq![ms[0]] + rest =~= ms);
    }
}

/// A run of characters of `class` that starts at `i` holds only such
/// characters and ends within `s`.
proof fn lemma_run_in_class(s: Seq<char>, i: int, class: CharClass)
    requires
        0 <= i <= s.len(),
    ensures
        i <= run_end(s, i, class) <= s.len(),
        forall|t: int| i <= t < run_end(s, i, class) ==> in_class(#[trigger] s[t], class),
    decreases s.len() - i,
{
    if i < s.len() && in_class(s[i], class) {
        lemma_run_in_class(s, i + 1, class);
    }
}

/// Where `s` is not blank, its first item starts within it.
proof fn lemma_first_item_starts(s: Seq<char>)
    requires
        !is_blank(s),
    ensures
        0 <= ws_end(s, 0) < s.len(),
{
    lemma_run_in_class(s, 0, CharClass::WhiteSpace);
    if ws_end(s, 0) >= s.len() {
        assert forall|t: int| 0 <= t < s.len() implies is_white_space(#[trigger] s[t]) by {
            assert(in_class(s[t], CharClass::WhiteSpace));
        }
    }
}

/// An inject list written out from well-formed records parses back to those
/// records, in their order.
pub proof fn lemma_inject_round_trip(ms: Seq<InjectModel>, g: Seq<char>)
    requires
        forall|k: int| 0 <= k < ms.len() ==> valid_inject(#[trigger] ms[k]),
        is_blank(g),
    ensures
        inject_matches(inject_text(ms, g)) == Ok::<Seq<InjectModel>, int>(ms),
{
    let s = inject_text(ms, g);
    let list = inject_list_text(ms, g);
    assert(s.subrange(0, s.len() as int) =~= s);
    lemma_split(s, 0, g + list, g);
    lemma_split(s, 0, g, list);
    if ms.len() == 0 {
        assert forall|t: int| 0 <= t < s.len() implies is_white_space(#[trigger] s[t]) by {
            assert(s =~= g + g);
        }
        lemma_blank_tail(s, 0);
        assert(ms =~= seq![]);
    } else {
        if ms.len() > 1 {
            lemma_split(s, g.len() as int, inject_item_text(ms[0], g) + g + seq![','] + g,
                inject_list_text(ms.drop_first(), g));
            lemma_split(s, g.len() as int, inject_item_text(ms[0], g) + g + seq![','], g);
            lemma_split(s, g.len() as int, inject_item_text(ms[0], g) + g, seq![',']);
            lemma_split(s, g.len() as int, inject_item_text(ms[0], g), g);
        }
        lemma_inject_item_at(s, g.len() as int, ms[0], g);
        lemma_gap(s, 0, g);
        assert forall|t: int| g.len() + list.len() <= t < s.len() implies is_white_space(
            #[trigger] s[t],
        ) by {
            let q = (g.len() + list.len()) as int;
            assert(s.subrange(q, q + g.len())[t - q] == s[t]);
        }
        lemma_inject_list_at(s, g.len() as int, ms, g);
    }
}

/// A mock list written out from well-formed records parses back to those
/// records, in their order, each signature as it was written.
pub proof fn lemma_mock_round_trip(ms: Seq<MockModel>, g: Seq<char>)
    requires
        forall|k: int| 0 <= k < ms.len() ==> valid_mock(#[trigger] ms[k]),
        is_blank(g),
    ensures
        mock_matches(mock_text(ms, g)) == Ok::<Seq<MockModel>, int>(ms),
{
    let s = mock_text(ms, g);
    let list = mock_list_text(ms, g);
    assert(s.subrange(0, s.len() as int) =~= s);
    lemma_split(s, 0, g + list, g);
    lemma_split(s, 0, g, list);
    if ms.len() == 0 {
        assert forall|t: int| 0 <= t < s.len() implies is_white_space(#[trigger] s[t]) by {
            assert(s =~= g + g);
        }
        lemma_blank_tail(s, 0);
        assert(ms =~= seq![]);
    } else {
        if ms.len() > 1 {
            lemma_split(s, g.len() as int, mock_item_text(ms[0], g) + g + seq![','] + g,
                mock_list_text(ms.drop_first(), g));
            lemma_split(s, g.len() as int, mock_item_text(ms[0], g) + g + seq![','], g);
            lemma_split(s, g.len() as int, mock_item_text(ms[0], g) + g, seq![',']);
            lemma_split(s, g.len() as int, mock_item_text(ms[0], g), g);
        }
        lemma_mock_item_at(s, g.len() as int, ms[0], g);
        lemma_gap(s, 0, g);
        assert forall|t: int| g.len() + list.len() <= t < s.len() implies is_white_space(
            #[trigger] s[t],
        ) by {
            let q = (g.len() + list.len()) as int;
            assert(s.subrange(q, q + g.len())[t - q] == s[t]);
        }
        lemma_mock_list_at(s, g.len() as int, ms, g);
    }
}

/// How much whitespace stands round the tokens of a list does not change
/// what it parses to.
pub proof fn lemma_whitespace_insignificant(
    injects: Seq<InjectModel>,
    mocks: Seq<MockModel>,
    g1: Seq<char>,
    g2: Seq<char>,
)
    requires
        forall|k: int| 0 <= k < injects.len() ==> valid_inject(#[trigger] injects[k]),
        forall|k: int| 0 <= k < mocks.len() ==> valid_mock(#[trigger] mocks[k]),
        is_blank(g1),
        is_blank(g2),
    ensures
        inject_matches(inject_text(injects, g1)) == inject_matches(inject_text(injects, g2)),
        mock_matches(mock_text(mocks, g1)) == mock_matches(mock_text(mocks, g2)),
{
    lemma_inject_round_trip(injects, g1);
    lemma_inject_round_trip(injects, g2);
    lemma_mock_round_trip(mocks, g1);
    lemma_mock_round_trip(mocks, g2);
}

/// Text of whitespace alone (or nothing) holds no records.
pub proof fn lemma_blank_input(s: Seq<char>)
    requires
        is_blank(s),
    ensures
        inject_matches(s) == Ok::<Seq<InjectModel>, int>(seq![]),
        mock_matches(s) == Ok::<Seq<MockModel>, int>(seq![]),
{
    lemma_blank_tail(s, 0);
}

/// Text that is not blank and holds no `=` fails to parse.
pub proof fn lemma_missing_equals_fails(s: Seq<char>)
    requires
        !is_blank(s),
        forall|t: int| 0 <= t < s.len() ==> #[trigger] s[t] != '=',
    ensures
        inject_matches(s) is Err,
        mock_matches(s) is Err,
{
    lemma_first_item_starts(s);
}

/// Text that is not blank and holds fewer than two double quotes (so that no
/// quoted value is closed) fails to parse.
pub proof fn lemma_missing_quote_fails(s: Seq<char>)
    requires
        !is_blank(s),
        forall|a: int, b: int|
            0 <= a < b < s.len() ==> !(#[trigger] s[a] == '"' && #[trigger] s[b] == '"'),
    ensures
        inject_matches(s) is Err,
        mock_matches(s) is Err,
{
    lemma_first_item_starts(s);
    let i = ws_end(s, 0);
    let id_end = word_end(s, i);
    let eq = ws_end(s, id_end);
    let open = ws_end(s, eq + 1);
    let name_end = word_end(s, open + 1);
    let colon = ws_end(s, name_end);
    let sig_start = ws_end(s, colon + 1);
    lemma_run_in_class(s, i, CharClass::Word);
    lemma_run_in_class(s, id_end, CharClass::WhiteSpace);
    if char_at(s, eq, '=') {
        lemma_run_in_class(s, eq + 1, CharClass::WhiteSpace);
        if char_at(s, open, '"') {
            lemma_run_in_class(s, open + 1, CharClass::Word);
            lemma_run_in_class(s, name_end, CharClass::WhiteSpace);
            assert(!char_at(s, ws_end(s, name_end), '"'));
            if char_at(s, colon, ':') {
                lemma_run_in_class(s, colon + 1, CharClass::WhiteSpace);
                lemma_run_in_class(s, sig_start, CharClass::NotQuote);
                assert(!char_at(s, run_end(s, sig_start, CharClass::NotQuote), '"'));
            }
        }
    }
}

/// Text that is not blank and holds no `:` fails to parse as a mock list.
pub proof fn lemma_missing_colon_fails(s: Seq<char>)
    requires
        !is_blank(s),
        forall|t: int| 0 <= t < s.len() ==> #[trigger] s[t] != ':',
    ensures
        mock_matches(s) is Err,
{
    lemma_first_item_starts(s);
}

} // verus!
