//! A recursive-descent parser for the argument lists of the `mock` and
//! `inject` attributes.
use vstd::prelude::*;
use vstd::std_specs::iter::IteratorSpec;
use crate::chars::{CharClass, char_in_class};
use crate::grammar::{
    InjectModel,
    MockModel,
    char_at,
    inject_item,
    inject_list,
    inject_matches,
    lemma_after_item_advances,
    lemma_inject_item_advances,
    lemma_mock_item_advances,
    lemma_prepend_push,
    mock_item,
    mock_list,
    mock_matches,
    prepend,
    run_end,
    word_end,
    ws_end,
};

verus! {

/// A mocking key bound to the function that replaces the mocked one.
#[derive(Debug, PartialEq)]
pub struct InjectMatch {
    pub identifier: String,
    pub function_to_mock: String,
}

/// A mocking key bound to the mocked function and its type signature.
#[derive(Debug, PartialEq)]
pub struct MockMatch {
    pub identifier: String,
    pub function_to_mock: String,
    pub function_signature: String,
}

/// Malformed attribute text: `position` is the index, in characters, of the
/// first character that does not fit the grammar, or the length of the text
/// where it ended too early.
#[derive(Debug, Clone, Copy, PartialEq, Eq, Structural)]
pub struct ParseError {
    pub position: usize,
}

impl View for InjectMatch {
    type V = InjectModel;

    open spec fn view(&self) -> InjectModel {
        InjectModel { identifier: self.identifier@, function_to_mock: self.function_to_mock@ }
    }
}

impl View for MockMatch {
    type V = MockModel;

    open spec fn view(&self) -> MockModel {
        MockModel {
            identifier: self.identifier@,
            function_to_mock: self.function_to_mock@,
            function_signature: self.function_signature@,
        }
    }
}

pub open spec fn inject_models(v: Seq<InjectMatch>) -> Seq<InjectModel> {
    v.map_values(|m: InjectMatch| m@)
}

pub open spec fn mock_models(v: Seq<MockMatch>) -> Seq<MockModel> {
    v.map_values(|m: MockMatch| m@)
}

/// What a parse that returned `r` found, in the terms of the grammar.
pub open spec fn inject_outcome(r: Result<Vec<InjectMatch>, ParseError>) -> Result<
    Seq<InjectModel>,
    int,
> {
    match r {
        Ok(v) => Ok(inject_models(v@)),
        Err(e) => Err(e.position as int),
    }
}

/// What a parse that returned `r` found, in the terms of the grammar.
pub open spec fn mock_outcome(r: Result<Vec<MockMatch>, ParseError>) -> Result<
    Seq<MockModel>,
    int,
> {
    match r {
        Ok(v) => Ok(mock_models(v@)),
        Err(e) => Err(e.position as int),
    }
}

/// What an item parse that returned `r` and stopped at `end` found.
pub open spec fn inject_item_outcome(r: Result<InjectMatch, ParseError>, end: int) -> Result<
    (InjectModel, int),
    int,
> {
    match r {
        Ok(m) => Ok((m@, end)),
        Err(e) => Err(e.position as int),
    }
}

/// What an item parse that returned `r` and stopped at `end` found.
pub open spec fn mock_item_outcome(r: Result<MockMatch, ParseError>, end: int) -> Result<
    (MockModel, int),
    int,
> {
    match r {
        Ok(m) => Ok((m@, end)),
        Err(e) => Err(e.position as int),
    }
}

/// Parses an inject argument list such as `id_1 = "db_fake", id_2 = "other_fake"`.
pub fn get_inject_matches(attr_str: &str) -> (r: Result<Vec<InjectMatch>, ParseError>)
    ensures
        inject_outcome(r) == inject_matches(attr_str@),
        r matches Err(e) ==> e.position <= attr_str@.len(),
{
    let mut p = Parser::new(attr_str);
    p.get_inject_matches()
}

/// Parses a mock argument list such as `id_1 = "external_db_call: fn(u32) -> String"`.
pub fn get_mock_matches(attr_str: &str) -> (r: Result<Vec<MockMatch>, ParseError>)
    ensures
        mock_outcome(r) == mock_matches(attr_str@),
        r matches Err(e) ==> e.position <= attr_str@.len(),
{
    let mut p = Parser::new(attr_str);
    p.get_mock_matches()
}

/// Relies on `String::push`, which appends one character.
#[verifier::external_body]
fn push_char(s: &mut String, c: char)
    ensures
        final(s)@ == old(s)@.push(c),
{
    s.push(c)
}

/// A cursor over the characters of the text being parsed.
struct Parser {
    pos: usize,
    input: Vec<char>,
}

impl Parser {
    fn new(input: &str) -> (p: Parser)
        ensures
            p.input@ == input@,
            p.pos == 0,
    {
        let mut chars: Vec<char> = Vec::new();
        let mut it = input.chars();
        loop
            invariant
                chars@ + it.remaining() == input@,
            ensures
                chars@ == input@,
            decreases input@.len() - chars@.len(),
        {
            match it.next() {
                Some(c) => {
                    chars.push(c);
                },
                None => {
                    assert(chars@ =~= input@);
                    break;
                },
            }
        }
        Parser { pos: 0, input: chars }
    }

    fn get_inject_matches(&mut self) -> (r: Result<Vec<InjectMatch>, ParseError>)
        requires
            old(self).pos == 0,
        ensures
            inject_outcome(r) == inject_matches(old(self).input@),
            r matches Err(e) ==> e.position <= old(self).input@.len(),
    {
        let ghost s = self.input@;
        let mut result: Vec<InjectMatch> = Vec::new();
        self.consume_whitespace();
        if self.eof() {
            assert(inject_models(result@) =~= seq![]);
            return Ok(result);
        }
        loop
            invariant
                self.input@ == s,
                old(self).input@ == s,
                self.pos < s.len(),
                inject_matches(s) == prepend(inject_models(result@), inject_list(s, self.pos as int)),
            decreases s.len() - self.pos,
        {
            let ghost i = self.pos as int;
            let ghost xs = inject_models(result@);
            let item = match self.consume_inject_match() {
                Ok(m) => m,
                Err(e) => {
                    return Err(e);
                },
            };
            let ghost j = self.pos as int;
            proof {
                lemma_inject_item_advances(s, i);
                lemma_after_item_advances(s, j);
                lemma_prepend_push(xs, item@, inject_list(s, ws_end(s, ws_end(s, j) + 1)));
            }
            result.push(item);
            assert(inject_models(result@) =~= xs.push(item@));
            self.consume_whitespace();
            if self.eof() {
                assert(xs + seq![item@] =~= xs.push(item@));
                return Ok(result);
            }
            if !self.consume_has_separator() {
                return Err(ParseError { position: self.pos });
            }
            self.consume_whitespace();
            if self.eof() {
                assert(xs + seq![item@] =~= xs.push(item@));
                return Ok(result);
            }
        }
    }

    fn get_mock_matches(&mut self) -> (r: Result<Vec<MockMatch>, ParseError>)
        requires
            old(self).pos == 0,
        ensures
            mock_outcome(r) == mock_matches(old(self).input@),
            r matches Err(e) ==> e.position <= old(self).input@.len(),
    {
        let ghost s = self.input@;
        let mut result: Vec<MockMatch> = Vec::new();
        self.consume_whitespace();
        if self.eof() {
            assert(mock_models(result@) =~= seq![]);
            return Ok(result);
        }
        loop
            invariant
                self.input@ == s,
                old(self).input@ == s,
                self.pos < s.len(),
                mock_matches(s) == prepend(mock_models(result@), mock_list(s, self.pos as int)),
            decreases s.len() - self.pos,
        {
            let ghost i = self.pos as int;
            let ghost xs = mock_models(result@);
            let item = match self.consume_mock_match() {
                Ok(m) => m,
                Err(e) => {
                    return Err(e);
                },
            };
            let ghost j = self.pos as int;
            proof {
                lemma_mock_item_advances(s, i);
                lemma_after_item_advances(s, j);
                lemma_prepend_push(xs, item@, mock_list(s, ws_end(s, ws_end(s, j) + 1)));
            }
            result.push(item);
            assert(mock_models(result@) =~= xs.push(item@));
            self.consume_whitespace();
            if self.eof() {
                assert(xs + seq![item@] =~= xs.push(item@));
                return Ok(result);
            }
            if !self.consume_has_separator() {
                return Err(ParseError { position: self.pos });
            }
            self.consume_whitespace();
            if self.eof() {
                assert(xs + seq![item@] =~= xs.push(item@));
                return Ok(result);
            }
        }
    }

    /// Consumes a separating comma, if the cursor stands on one.
    fn consume_has_separator(&mut self) -> (has_next: bool)
        requires
            old(self).pos < old(self).input@.len(),
        ensures
            final(self).input == old(self).input,
            has_next == (old(self).input@[old(self).pos as int] == ','),
            final(self).pos == if has_next {
                old(self).pos + 1
            } else {
                old(self).pos as int
            },
    {
        let mut has_next = false;
        if self.next_char() == ',' {
            has_next = true;
            self.consume_char();
        }
        has_next
    }

    fn consume_inject_match(&mut self) -> (r: Result<InjectMatch, ParseError>)
        requires
            old(self).pos <= old(self).input@.len(),
        ensures
            final(self).input == old(self).input,
            final(self).pos <= final(self).input@.len(),
            inject_item(old(self).input@, old(self).pos as int) == inject_item_outcome(
                r,
                final(self).pos as int,
            ),
            r matches Err(e) ==> e.position <= old(self).input@.len(),
    {
        let start = self.pos;
        let identifier = self.parse_text();
        if self.pos == start {
            return Err(ParseError { position: start });
        }
        self.consume_whitespace();
        if let Err(e) = self.expect_char('=') {
            return Err(e);
        }
        self.consume_whitespace();
        if let Err(e) = self.expect_char('"') {
            return Err(e);
        }
        let name_start = self.pos;
        let function_to_mock = self.parse_text();
        if self.pos == name_start {
            return Err(ParseError { position: name_start });
        }
        self.consume_whitespace();
        if let Err(e) = self.expect_char('"') {
            return Err(e);
        }
        Ok(InjectMatch { identifier, function_to_mock })
    }

    fn consume_mock_match(&mut self) -> (r: Result<MockMatch, ParseError>)
        requires
            old(self).pos <= old(self).input@.len(),
        ensures
            final(self).input == old(self).input,
            final(self).pos <= final(self).input@.len(),
            mock_item(old(self).input@, old(self).pos as int) == mock_item_outcome(
                r,
                final(self).pos as int,
            ),
            r matches Err(e) ==> e.position <= old(self).input@.len(),
    {
        let start = self.pos;
        let identifier = self.parse_text();
        if self.pos == start {
            return Err(ParseError { position: start });
        }
        self.consume_whitespace();
        if let Err(e) = self.expect_char('=') {
            return Err(e);
        }
        self.consume_whitespace();
        if let Err(e) = self.expect_char('"') {
            return Err(e);
        }
        let name_start = self.pos;
        let function_to_mock = self.parse_text();
        if self.pos == name_start {
            return Err(ParseError { position: name_start });
        }
        self.consume_whitespace();
        if let Err(e) = self.expect_char(':') {
            return Err(e);
        }
        self.consume_whitespace();
        let function_signature = self.consume_while(CharClass::NotQuote);
        if let Err(e) = self.expect_char('"') {
            return Err(e);
        }
        Ok(MockMatch { identifier, function_to_mock, function_signature })
    }

    fn next_char(&self) -> (c: char)
        requires
            self.pos < self.input@.len(),
        ensures
            c == self.input@[self.pos as int],
    {
        self.input[self.pos]
    }

    fn eof(&self) -> (r: bool)
        ensures
            r == (self.pos >= self.input@.len()),
    {
        self.pos >= self.input.len()
    }

    fn consume_char(&mut self) -> (c: char)
        requires
            old(self).pos < old(self).input.len(),
        ensures
            final(self).input == old(self).input,
            final(self).pos == old(self).pos + 1,
            c == old(self).input@[old(self).pos as int],
    {
        let c = self.input[self.pos];
        self.pos = self.pos + 1;
        c
    }

    /// Consumes `c`, or fails where the cursor stands on anything else.
    fn expect_char(&mut self, c: char) -> (r: Result<(), ParseError>)
        requires
            old(self).pos <= old(self).input@.len(),
        ensures
            final(self).input == old(self).input,
            char_at(old(self).input@, old(self).pos as int, c) ==> r is Ok && final(self).pos
                == old(self).pos + 1,
            !char_at(old(self).input@, old(self).pos as int, c) ==> r == Err::<(), ParseError>(
                ParseError { position: old(self).pos },
            ) && final(self).pos == old(self).pos,
    {
        if !self.eof() && self.next_char() == c {
            self.consume_char();
            Ok(())
        } else {
            Err(ParseError { position: self.pos })
        }
    }

    /// Consumes the longest run of characters of `class` at the cursor.
    fn consume_while(&mut self, class: CharClass) -> (r: String)
        requires
            old(self).pos <= old(self).input@.len(),
        ensures
            final(self).input == old(self).input,
            final(self).pos == run_end(old(self).input@, old(self).pos as int, class),
            final(self).pos <= final(self).input@.len(),
            r@ == old(self).input@.subrange(old(self).pos as int, final(self).pos as int),
    {
        let ghost start = self.pos as int;
        let mut result = String::new();
        while !self.eof() && char_in_class(self.next_char(), class)
            invariant
                self.input == old(self).input,
                0 <= start <= self.pos <= self.input@.len(),
                run_end(self.input@, start, class) == run_end(self.input@, self.pos as int, class),
                result@ == self.input@.subrange(start, self.pos as int),
            decreases self.input@.len() - self.pos,
        {
            let c = self.consume_char();
            push_char(&mut result, c);
            assert(result@ =~= self.input@.subrange(start, self.pos as int));
        }
        result
    }

    fn consume_whitespace(&mut self)
        requires
            old(self).pos <= old(self).input@.len(),
        ensures
            final(self).input == old(self).input,
            final(self).pos == ws_end(old(self).input@, old(self).pos as int),
            final(self).pos <= final(self).input@.len(),
    {
        self.consume_while(CharClass::WhiteSpace);
    }

    fn parse_text(&mut self) -> (r: String)
        requires
            old(self).pos <= old(self).input@.len(),
        ensures
            final(self).input == old(self).input,
            final(self).pos == word_end(old(self).input@, old(self).pos as int),
            final(self).pos <= final(self).input@.len(),
            r@ == old(self).input@.subrange(old(self).pos as int, final(self).pos as int),
    {
        self.consume_while(CharClass::Word)
    }
}

} // verus!
