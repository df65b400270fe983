//! The tokenizer: pulls scalar values from its input and hands out tokens one
//! at a time.
use vstd::prelude::*;

use crate::attribute::{Attribute, AttributeModel};
use crate::text::{chars_of, is_alpha, is_space, lower};
use crate::token::{
    again, emit_tag, empty_end_tag, empty_start_tag, fuel, goto, initial, lemma_step,
    last_pulled, mark_self_closing, names_folded, no_attribute_yet, pull, push_attribute, push_attribute_char, push_tag_name,
    rank, run, step, tag_in_progress, with_latest, HtmlToken, State, TokenModel, TokenizerModel,
};

verus! {

pub open spec fn opt_view(t: Option<HtmlToken>) -> Option<TokenModel> {
    match t {
        Some(t) => Some(t@),
        None => None,
    }
}

/// What the next call of `HtmlTokenizer::next` does to the model `m`: nothing
/// is handed out for an empty input or after the end of the input was
/// reported; otherwise the rounds of the loop run until one emits a token.
pub open spec fn next_spec(m: TokenizerModel) -> (TokenizerModel, Option<TokenModel>) {
    if m.input.len() == 0 || m.finished() {
        (m, None)
    } else {
        let (m2, t) = run(m);
        (m2, Some(t))
    }
}

/// `n` calls of `HtmlTokenizer::next` from the model `m`: the model after
/// them, and what each returned, in order.
pub open spec fn pulls(m: TokenizerModel, n: nat) -> (TokenizerModel, Seq<Option<TokenModel>>)
    decreases n,
{
    if n == 0 {
        (m, Seq::empty())
    } else {
        let (m1, s) = pulls(m, (n - 1) as nat);
        let (m2, r) = next_spec(m1);
        (m2, s.push(r))
    }
}

/// Turns a complete input into tokens, one per call of `next`.
///
/// A tag that the input ends inside is dropped. An end tag keeps no
/// attributes and no self-closing mark.
pub struct HtmlTokenizer {
    state: State,
    pos: usize,
    past_end: bool,
    reconsume: bool,
    latest_token: Option<HtmlToken>,
    input: Vec<char>,
    buf: Vec<char>,
}

impl View for HtmlTokenizer {
    type V = TokenizerModel;

    closed spec fn view(&self) -> TokenizerModel {
        TokenizerModel {
            state: self.state,
            pos: self.pos + if self.past_end {
                1int
            } else {
                0int
            },
            reconsume: self.reconsume,
            latest: opt_view(self.latest_token),
            input: self.input@,
            buf: self.buf@,
        }
    }
}

impl HtmlTokenizer {
    pub closed spec fn wf(&self) -> bool {
        &&& self.pos <= self.input.len()
        &&& self.past_end ==> self.pos == self.input.len()
        &&& self@.wf()
    }

    spec fn same_cursor(&self, other: &Self) -> bool {
        &&& self.pos == other.pos
        &&& self.past_end == other.past_end
        &&& self.input@ == other.input@
    }

    pub fn new(html: String) -> (r: Self)
        ensures
            r@ == initial(html@),
            r.wf(),
    {
        let r = Self {
            state: State::Data,
            pos: 0,
            past_end: false,
            reconsume: false,
            latest_token: None,
            input: chars_of(&html),
            buf: Vec::new(),
        };
        assert(r@.buf =~= Seq::empty());
        r
    }

    /// Forces the state to `ScriptData`, for the raw text that follows a
    /// `script` start tag.
    pub fn switch_to_script_data(&mut self)
        requires
            old(self).wf(),
        ensures
            final(self).wf(),
            final(self)@ == goto(old(self)@, State::ScriptData),
    {
        self.state = State::ScriptData;
    }

    fn is_eof(&self) -> (r: bool)
        requires
            self.pos <= self.input.len(),
            self.past_end ==> self.pos == self.input.len(),
        ensures
            r == (self@.pos > self@.input.len()),
    {
        self.past_end
    }

    /// Makes an empty start tag (`start_tag_token`) or end tag the tag under
    /// construction.
    fn create_tag(&mut self, start_tag_token: bool)
        ensures
            final(self).same_cursor(old(self)),
            start_tag_token ==> final(self)@ == with_latest(old(self)@, Some(empty_start_tag())),
            !start_tag_token ==> final(self)@ == with_latest(old(self)@, Some(empty_end_tag())),
    {
        if start_tag_token {
            self.latest_token = Some(
                HtmlToken::StartTag { tag: String::new(), self_closing: false, attributes: Vec::new() },
            );
            assert(opt_view(self.latest_token) == Some(empty_start_tag())) by {
                let t = self.latest_token->0;
                if let HtmlToken::StartTag { attributes, .. } = t {
                    assert(attributes@.map_values(|a: Attribute| a@) =~= Seq::empty());
                }
            }
        } else {
            self.latest_token = Some(HtmlToken::EndTag { tag: String::new() });
        }
    }

    /// Delivers again the scalar value consumed last (`None` once the end of
    /// the input was consumed) and clears the replay flag; the cursor stays.
    fn reconsume_input(&mut self) -> (c: Option<char>)
        requires
            old(self).pos <= old(self).input.len(),
            old(self).past_end ==> old(self).pos == old(self).input.len(),
            old(self).pos >= 1 || old(self).past_end,
        ensures
            final(self).same_cursor(old(self)),
            !final(self).reconsume,
            final(self).state == old(self).state,
            final(self).latest_token == old(self).latest_token,
            final(self).buf == old(self).buf,
            final(self).input == old(self).input,
            c == last_pulled(old(self)@),
            !old(self).past_end ==> c == Some(old(self).input@[old(self).pos - 1]),
            old(self).past_end ==> c is None,
    {
        let eof = self.is_eof();
        self.reconsume = false;
        if eof {
            None
        } else {
            Some(self.input[self.pos - 1])
        }
    }

    /// Consumes the scalar value at the cursor and moves the cursor on; at
    /// the end of the input, marks the end as consumed and gives `None`.
    /// Nothing else changes.
    fn consume_next_input(&mut self) -> (c: Option<char>)
        requires
            old(self).pos <= old(self).input.len(),
            old(self).past_end ==> old(self).pos == old(self).input.len(),
        ensures
            old(self).pos < old(self).input.len() ==> {
                &&& c == Some(old(self).input@[old(self).pos as int])
                &&& final(self).pos == old(self).pos + 1
                &&& final(self).past_end == old(self).past_end
            },
            old(self).pos == old(self).input.len() ==> {
                &&& c is None
                &&& final(self).pos == old(self).pos
                &&& final(self).past_end
            },
            final(self).reconsume == old(self).reconsume,
            final(self).state == old(self).state,
            final(self).latest_token == old(self).latest_token,
            final(self).buf == old(self).buf,
            final(self).input == old(self).input,
            final(self).pos <= final(self).input.len(),
            final(self).past_end ==> final(self).pos == final(self).input.len(),
            !old(self).reconsume ==> (final(self)@, c) == pull(old(self)@),
    {
        if self.pos < self.input.len() {
            let c = self.input[self.pos];
            self.pos = self.pos + 1;
            Some(c)
        } else {
            self.past_end = true;
            None
        }
    }

    fn take_latest_token(&mut self) -> (r: HtmlToken)
        requires
            old(self).latest_token is Some,
        ensures
            final(self).same_cursor(old(self)),
            final(self)@ == with_latest(old(self)@, None),
            Some(r@) == old(self)@.latest,
    {
        match self.latest_token.take() {
            Some(t) => t,
            None => vstd::pervasive::unreached(),
        }
    }

    fn append_tag_name(&mut self, c: char)
        requires
            tag_in_progress(old(self)@.latest),
        ensures
            final(self).same_cursor(old(self)),
            final(self)@ == with_latest(old(self)@, push_tag_name(old(self)@.latest, c)),
    {
        match &mut self.latest_token {
            Some(HtmlToken::StartTag { tag, .. }) => crate::text::push_char(tag, c),
            Some(HtmlToken::EndTag { tag }) => crate::text::push_char(tag, c),
            _ => {},
        }
    }

    /// Adds an empty attribute to the start tag under construction.
    fn start_new_attribute(&mut self)
        requires
            tag_in_progress(old(self)@.latest),
        ensures
            final(self).same_cursor(old(self)),
            final(self)@ == with_latest(old(self)@, push_attribute(old(self)@.latest)),
    {
        match &mut self.latest_token {
            Some(HtmlToken::StartTag { attributes, .. }) => {
                let ghost before = attributes@;
                attributes.push(Attribute::default());
                assert(attributes@.map_values(|a: Attribute| a@) =~= before.map_values(
                    |a: Attribute| a@,
                ).push(AttributeModel { name: Seq::empty(), value: Seq::empty() }));
            },
            _ => {},
        }
    }

    /// Appends `c` to the name (`is_name`) or the value of the last attribute
    /// of the start tag under construction; an end tag keeps no attributes.
    fn append_attribute(&mut self, c: char, is_name: bool)
        requires
            tag_in_progress(old(self)@.latest),
            !no_attribute_yet(old(self)@.latest),
        ensures
            final(self).same_cursor(old(self)),
            final(self)@ == with_latest(
                old(self)@,
                push_attribute_char(old(self)@.latest, c, is_name),
            ),
    {
        match &mut self.latest_token {
            Some(HtmlToken::StartTag { attributes, .. }) => {
                let ghost before = attributes@;
                assert(before.map_values(|a: Attribute| a@).len() > 0);
                let mut a = attributes.pop().unwrap();
                a.add_char(c, is_name);
                attributes.push(a);
                assert(attributes@.map_values(|a: Attribute| a@) =~= before.map_values(
                    |a: Attribute| a@,
                ).update(before.len() - 1, a@));
            },
            _ => {},
        }
    }

    fn set_self_closing_flag(&mut self)
        requires
            tag_in_progress(old(self)@.latest),
        ensures
            final(self).same_cursor(old(self)),
            final(self)@ == with_latest(old(self)@, mark_self_closing(old(self)@.latest)),
    {
        match &mut self.latest_token {
            Some(HtmlToken::StartTag { self_closing, .. }) => {
                *self_closing = true;
            },
            _ => {},
        }
    }
    /// Moves to `s` and delivers the current input again there.
    fn reconsume_in(&mut self, s: State)
        ensures
            final(self).same_cursor(old(self)),
            final(self).latest_token == old(self).latest_token,
            final(self)@ == again(old(self)@, s),
    {
        self.reconsume = true;
        self.state = s;
    }

    /// Hands out the tag under construction and returns to `Data`.
    fn emit_tag(&mut self) -> (r: Option<HtmlToken>)
        requires
            old(self).latest_token is Some,
        ensures
            final(self).same_cursor(old(self)),
            (final(self)@, opt_view(r)) == emit_tag(old(self)@),
    {
        self.state = State::Data;
        Some(self.take_latest_token())
    }

    /// One round of the loop of `next`: replays the side buffer, or pulls one
    /// input and dispatches it on the state. `None` when no token is ready.
    fn advance(&mut self) -> (r: Option<HtmlToken>)
        requires
            old(self).wf(),
            !old(self)@.finished(),
        ensures
            final(self).wf(),
            (final(self)@, opt_view(r)) == step(old(self)@),
            r matches Some(t) ==> names_folded(t@),
    {
        proof {
            lemma_step(self@);
        }
        if self.state == State::TemporaryBuffer {
            if self.buf.len() == 0 {
                self.state = State::Data;
                return None;
            }
            let c = self.buf.remove(0);
            assert(self.buf@ =~= old(self).buf@.drop_first());
            return Some(HtmlToken::Char(c));
        }
        let c = if self.reconsume {
            self.reconsume_input()
        } else {
            self.consume_next_input()
        };
        match self.state {
            State::Data => match c {
                Some(x) => if x == '<' {
                    self.state = State::TagOpen;
                    None
                } else {
                    Some(HtmlToken::Char(x))
                },
                None => Some(HtmlToken::Eof),
            },
            State::TagOpen => match c {
                Some(x) => {
                    if x == '/' {
                        self.state = State::EndTagOpen;
                    } else if is_alpha(x) {
                        self.create_tag(true);
                        self.reconsume_in(State::TagName);
                    } else {
                        self.reconsume_in(State::Data);
                    }
                    None
                },
                None => Some(HtmlToken::Eof),
            },
            State::EndTagOpen => match c {
                Some(x) => {
                    if is_alpha(x) {
                        self.create_tag(false);
                        self.reconsume_in(State::TagName);
                    }
                    None
                },
                None => Some(HtmlToken::Eof),
            },
            State::TagName => match c {
                Some(x) => if is_space(x) {
                    self.state = State::BeforeAttributeName;
                    None
                } else if x == '/' {
                    self.state = State::SelfClosingStartTag;
                    None
                } else if x == '>' {
                    self.emit_tag()
                } else {
                    self.append_tag_name(lower(x));
                    None
                },
                None => Some(HtmlToken::Eof),
            },
            State::BeforeAttributeName => {
                match c {
                    Some(x) => if x == '/' || x == '>' {
                        self.reconsume_in(State::AfterAttributeName);
                    } else {
                        self.start_new_attribute();
                        self.reconsume_in(State::AttributeName);
                    },
                    None => self.reconsume_in(State::AfterAttributeName),
                }
                None
            },
            State::AttributeName => {
                match c {
                    Some(x) => if is_space(x) || x == '/' || x == '>' {
                        self.reconsume_in(State::AfterAttributeName);
                    } else if x == '=' {
                        self.state = State::BeforeAttributeValue;
                    } else {
                        self.append_attribute(lower(x), true);
                    },
                    None => self.reconsume_in(State::AfterAttributeName),
                }
                None
            },
            State::AfterAttributeName => match c {
                Some(x) => if is_space(x) {
                    None
                } else if x == '/' {
                    self.state = State::SelfClosingStartTag;
                    None
                } else if x == '=' {
                    self.state = State::BeforeAttributeValue;
                    None
                } else if x == '>' {
                    self.emit_tag()
                } else {
                    self.start_new_attribute();
                    self.reconsume_in(State::AttributeName);
                    None
                },
                None => Some(HtmlToken::Eof),
            },
            State::BeforeAttributeValue => match c {
                Some(x) => if is_space(x) {
                    None
                } else if x == '"' {
                    self.state = State::AttributeValueDoubleQuoted;
                    None
                } else if x == '\'' {
                    self.state = State::AttributeValueSingleQuoted;
                    None
                } else if x == '>' {
                    self.emit_tag()
                } else {
                    self.reconsume_in(State::AttributeValueUnquoted);
                    None
                },
                None => {
                    self.reconsume_in(State::AttributeValueUnquoted);
                    None
                },
            },
            State::AttributeValueDoubleQuoted => match c {
                Some(x) => {
                    if x == '"' {
                        self.state = State::AfterAttributeValueQuoted;
                    } else {
                        self.append_attribute(x, false);
                    }
                    None
                },
                None => Some(HtmlToken::Eof),
            },
            State::AttributeValueSingleQuoted => match c {
                Some(x) => {
                    if x == '\'' {
                        self.state = State::AfterAttributeValueQuoted;
                    } else {
                        self.append_attribute(x, false);
                    }
                    None
                },
                None => Some(HtmlToken::Eof),
            },
            State::AttributeValueUnquoted => match c {
                Some(x) => if is_space(x) {
                    self.state = State::BeforeAttributeName;
                    None
                } else if x == '>' {
                    self.emit_tag()
                } else {
                    // Characters such as `"`, `'`, `<`, `=` and `` ` `` are kept.
                    self.append_attribute(x, false);
                    None
                },
                None => Some(HtmlToken::Eof),
            },
            State::AfterAttributeValueQuoted => match c {
                Some(x) => if is_space(x) {
                    self.state = State::BeforeAttributeName;
                    None
                } else if x == '/' {
                    self.state = State::SelfClosingStartTag;
                    None
                } else if x == '>' {
                    self.emit_tag()
                } else {
                    // Read as if white space came first.
                    self.reconsume_in(State::BeforeAttributeName);
                    None
                },
                None => Some(HtmlToken::Eof),
            },
            State::SelfClosingStartTag => match c {
                Some(x) => if x == '>' {
                    self.set_self_closing_flag();
                    self.emit_tag()
                } else {
                    // A stray `/` counts as white space.
                    self.reconsume_in(State::BeforeAttributeName);
                    None
                },
                // The unfinished tag is dropped.
                None => Some(HtmlToken::Eof),
            },
            State::ScriptData => match c {
                Some(x) => if x == '<' {
                    self.state = State::ScriptDataLessThanSign;
                    None
                } else {
                    Some(HtmlToken::Char(x))
                },
                None => Some(HtmlToken::Eof),
            },
            State::ScriptDataLessThanSign => match c {
                Some(x) if x == '/' => {
                    self.buf = Vec::new();
                    self.state = State::ScriptDataEndTagOpen;
                    None
                },
                _ => {
                    self.reconsume_in(State::ScriptData);
                    Some(HtmlToken::Char('<'))
                },
            },
            // A letter after `</` starts an end tag; anything else gives the
            // `<` back as text.
            State::ScriptDataEndTagOpen => match c {
                Some(x) if is_alpha(x) => {
                    self.create_tag(false);
                    self.reconsume_in(State::ScriptDataEndTagName);
                    None
                },
                _ => {
                    self.reconsume_in(State::ScriptData);
                    Some(HtmlToken::Char('<'))
                },
            },
            State::ScriptDataEndTagName => match c {
                Some(x) => if x == '>' {
                    self.emit_tag()
                } else if is_alpha(x) {
                    self.append_tag_name(lower(x));
                    self.buf.push(x);
                    None
                } else {
                    // Not an end tag after all: what was read becomes text.
                    self.buf.push(x);
                    self.buf.insert(0, '/');
                    self.buf.insert(0, '<');
                    assert(self.buf@ =~= seq!['<', '/'] + old(self).buf@.push(x));
                    self.state = State::TemporaryBuffer;
                    None
                },
                None => {
                    self.buf.insert(0, '/');
                    self.buf.insert(0, '<');
                    assert(self.buf@ =~= seq!['<', '/'] + old(self).buf@);
                    self.reconsume_in(State::TemporaryBuffer);
                    None
                },
            },
            State::TemporaryBuffer => None,
        }
    }

    /// The next token. An empty input gives `None` at once, with no
    /// end-of-input token; any other input ends with one `Eof` token, and
    /// every later call gives `None`.
    pub fn next(&mut self) -> (r: Option<HtmlToken>)
        requires
            old(self).wf(),
        ensures
            final(self).wf(),
            (final(self)@, opt_view(r)) == next_spec(old(self)@),
            r matches Some(t) ==> names_folded(t@),
    {
        if self.input.len() == 0 || (self.past_end && !self.reconsume) {
            return None;
        }
        let ghost start = self@;
        loop
            invariant
                self.wf(),
                !self@.finished(),
                self@.input.len() > 0,
                start.wf() && !start.finished() && start.input.len() > 0,
                run(self@) == run(start),
                start == old(self)@,
            decreases fuel(self@), rank(self@),
        {
            proof {
                lemma_step(self@);
            }
            let ghost before = self@;
            match self.advance() {
                Some(t) => {
                    assert(run(before) == (self@, t@));
                    assert(next_spec(start) == (self@, Some(t@)));
                    return Some(t);
                },
                None => {
                    assert(run(before) == run(self@));
                },
            }
        }
    }
}

} // verus!
