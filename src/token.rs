//! Tokens, the tokenizer's states, and the transition rules of the tokenizer
//! stated over mathematical models.
use vstd::prelude::*;

use crate::attribute::{Attribute, AttributeModel};
use crate::text::{ascii_lower, is_ascii_alpha, is_ascii_upper, is_white_space};

verus! {

/// A unit of markup handed out by the tokenizer. Tag and attribute names
/// hold no ASCII upper-case letter; attribute values are kept as written.
#[derive(PartialEq, Debug)]
pub enum HtmlToken {
    StartTag { tag: String, self_closing: bool, attributes: Vec<Attribute> },
    EndTag { tag: String },
    Char(char),
    Eof,
}

/// What a token holds, with strings as sequences of scalar values.
pub enum TokenModel {
    StartTag { tag: Seq<char>, self_closing: bool, attributes: Seq<AttributeModel> },
    EndTag { tag: Seq<char> },
    Char(char),
    Eof,
}

impl View for HtmlToken {
    type V = TokenModel;

    open spec fn view(&self) -> TokenModel {
        match self {
            HtmlToken::StartTag { tag, self_closing, attributes } => TokenModel::StartTag {
                tag: tag@,
                self_closing: *self_closing,
                attributes: attributes@.map_values(|a: Attribute| a@),
            },
            HtmlToken::EndTag { tag } => TokenModel::EndTag { tag: tag@ },
            HtmlToken::Char(c) => TokenModel::Char(*c),
            HtmlToken::Eof => TokenModel::Eof,
        }
    }
}

/// The states of the tokenizer. `ScriptData` and the states after it read
/// the raw text of a `script` element; the tokenizer enters them only when
/// told to.
#[derive(Clone, Copy, PartialEq, Eq, Structural, Debug)]
pub enum State {
    Data,
    TagOpen,
    EndTagOpen,
    TagName,
    BeforeAttributeName,
    AttributeName,
    AfterAttributeName,
    BeforeAttributeValue,
    AttributeValueDoubleQuoted,
    AttributeValueSingleQuoted,
    AttributeValueUnquoted,
    AfterAttributeValueQuoted,
    SelfClosingStartTag,
    ScriptData,
    ScriptDataLessThanSign,
    ScriptDataEndTagOpen,
    ScriptDataEndTagName,
    TemporaryBuffer,
}

/// The whole state of a tokenizer.
///
/// `pos` is the number of positions consumed; it reaches `input.len() + 1`
/// once the end of the input has been consumed. When `reconsume` holds, the
/// next pull delivers again what the last pull delivered.
pub struct TokenizerModel {
    pub state: State,
    pub pos: int,
    pub reconsume: bool,
    pub latest: Option<TokenModel>,
    pub input: Seq<char>,
    pub buf: Seq<char>,
}

/// No ASCII upper-case letter in `s`.
pub open spec fn lower_only(s: Seq<char>) -> bool {
    forall|i: int| 0 <= i < s.len() ==> !is_ascii_upper(#[trigger] s[i])
}

/// Tag name and attribute names of `t` hold no ASCII upper-case letter.
pub open spec fn names_folded(t: TokenModel) -> bool {
    match t {
        TokenModel::StartTag { tag, attributes, .. } => lower_only(tag) && forall|j: int|
            0 <= j < attributes.len() ==> lower_only(#[trigger] attributes[j].name),
        TokenModel::EndTag { tag } => lower_only(tag),
        _ => true,
    }
}

/// The states in which a tag is under construction.
pub open spec fn builds_tag(s: State) -> bool {
    match s {
        State::TagName | State::BeforeAttributeName | State::AttributeName
        | State::AfterAttributeName | State::BeforeAttributeValue
        | State::AttributeValueDoubleQuoted | State::AttributeValueSingleQuoted
        | State::AttributeValueUnquoted | State::AfterAttributeValueQuoted
        | State::SelfClosingStartTag | State::ScriptDataEndTagName => true,
        _ => false,
    }
}

/// The states that add to the last attribute of a start tag.
pub open spec fn fills_attribute(s: State) -> bool {
    match s {
        State::AttributeName | State::BeforeAttributeValue | State::AttributeValueDoubleQuoted
        | State::AttributeValueSingleQuoted | State::AttributeValueUnquoted => true,
        _ => false,
    }
}

/// A start or end tag is under construction.
pub open spec fn tag_in_progress(t: Option<TokenModel>) -> bool {
    t matches Some(t) && (t is StartTag || t is EndTag)
}

/// A start tag under construction that has no attribute yet.
pub open spec fn no_attribute_yet(t: Option<TokenModel>) -> bool {
    t matches Some(TokenModel::StartTag { attributes, .. }) && attributes.len() == 0
}

impl TokenizerModel {
    /// The cursor stays within one past the input, a replay comes only after
    /// a pull, the states that build a tag have one, its names are folded,
    /// and attribute text always has an attribute to go to.
    pub open spec fn wf(self) -> bool {
        &&& 0 <= self.pos <= self.input.len() + 1
        &&& self.reconsume ==> self.pos >= 1
        &&& (self.state == State::TemporaryBuffer && self.pos > self.input.len())
            ==> self.reconsume
        &&& builds_tag(self.state) ==> self.latest is Some
        &&& (self.latest matches Some(t) ==> names_folded(t) && (t is StartTag || t is EndTag))
        &&& fills_attribute(self.state) ==> !no_attribute_yet(self.latest)
        &&& (self.state == State::AfterAttributeName && no_attribute_yet(self.latest)
            && !self.finished()) ==> {
            &&& self.reconsume
            &&& (last_pulled(self) == Some('/') || last_pulled(self) == Some('>')
                || last_pulled(self) is None)
        }
    }

    /// The end of the input has been delivered and nothing is left to replay.
    pub open spec fn finished(self) -> bool {
        self.pos > self.input.len() && !self.reconsume
    }
}

/// A tokenizer that has consumed nothing of `input`.
pub open spec fn initial(input: Seq<char>) -> TokenizerModel {
    TokenizerModel {
        state: State::Data,
        pos: 0,
        reconsume: false,
        latest: None,
        input,
        buf: Seq::empty(),
    }
}

/// What a pull delivers again when `reconsume` holds: the last scalar value
/// consumed, or `None` for the end of the input.
pub open spec fn last_pulled(m: TokenizerModel) -> Option<char> {
    if 1 <= m.pos <= m.input.len() {
        Some(m.input[m.pos - 1])
    } else {
        None
    }
}

/// One pull of input: `None` stands for the end of the input.
pub open spec fn pull(m: TokenizerModel) -> (TokenizerModel, Option<char>) {
    if m.reconsume {
        (TokenizerModel { reconsume: false, ..m }, last_pulled(m))
    } else if m.pos < m.input.len() {
        (TokenizerModel { pos: m.pos + 1, ..m }, Some(m.input[m.pos]))
    } else {
        (TokenizerModel { pos: m.input.len() + 1int, ..m }, None)
    }
}

pub open spec fn empty_start_tag() -> TokenModel {
    TokenModel::StartTag { tag: Seq::empty(), self_closing: false, attributes: Seq::empty() }
}

pub open spec fn empty_end_tag() -> TokenModel {
    TokenModel::EndTag { tag: Seq::empty() }
}

/// `c` appended to the tag name.
pub open spec fn push_tag_name(t: Option<TokenModel>, c: char) -> Option<TokenModel> {
    match t {
        Some(TokenModel::StartTag { tag, self_closing, attributes }) => Some(
            TokenModel::StartTag { tag: tag.push(c), self_closing, attributes },
        ),
        Some(TokenModel::EndTag { tag }) => Some(TokenModel::EndTag { tag: tag.push(c) }),
        _ => t,
    }
}

/// A new empty attribute after the others of a start tag; an end tag keeps none.
pub open spec fn push_attribute(t: Option<TokenModel>) -> Option<TokenModel> {
    match t {
        Some(TokenModel::StartTag { tag, self_closing, attributes }) => Some(
            TokenModel::StartTag {
                tag,
                self_closing,
                attributes: attributes.push(AttributeModel { name: Seq::empty(), value: Seq::empty() }),
            },
        ),
        _ => t,
    }
}

/// `c` appended to the name (`is_name`) or the value of the last attribute of
/// a start tag. The tokenizer appends only where that attribute exists; an
/// end tag is left unchanged.
pub open spec fn push_attribute_char(t: Option<TokenModel>, c: char, is_name: bool) -> Option<
    TokenModel,
> {
    match t {
        Some(TokenModel::StartTag { tag, self_closing, attributes }) => if attributes.len() > 0 {
            let a = attributes.last();
            let a2 = if is_name {
                AttributeModel { name: a.name.push(c), value: a.value }
            } else {
                AttributeModel { name: a.name, value: a.value.push(c) }
            };
            Some(
                TokenModel::StartTag {
                    tag,
                    self_closing,
                    attributes: attributes.update(attributes.len() - 1, a2),
                },
            )
        } else {
            t
        },
        _ => t,
    }
}

/// A start tag marked as self-closing; an end tag unchanged.
pub open spec fn mark_self_closing(t: Option<TokenModel>) -> Option<TokenModel> {
    match t {
        Some(TokenModel::StartTag { tag, attributes, .. }) => Some(
            TokenModel::StartTag { tag, self_closing: true, attributes },
        ),
        _ => t,
    }
}

pub open spec fn goto(m: TokenizerModel, s: State) -> TokenizerModel {
    TokenizerModel { state: s, ..m }
}

/// Moves to `s` and delivers the same input again there.
pub open spec fn again(m: TokenizerModel, s: State) -> TokenizerModel {
    TokenizerModel { state: s, reconsume: true, ..m }
}

pub open spec fn with_latest(m: TokenizerModel, t: Option<TokenModel>) -> TokenizerModel {
    TokenizerModel { latest: t, ..m }
}

/// Hands out the tag under construction and returns to `Data`.
pub open spec fn emit_tag(m: TokenizerModel) -> (TokenizerModel, Option<TokenModel>) {
    (TokenizerModel { state: State::Data, latest: None, ..m }, m.latest)
}

pub open spec fn go(m: TokenizerModel) -> (TokenizerModel, Option<TokenModel>) {
    (m, None)
}

pub open spec fn out(m: TokenizerModel, t: TokenModel) -> (TokenizerModel, Option<TokenModel>) {
    (m, Some(t))
}

/// The transition taken in `m.state` on the input `c`: the next tokenizer and,
/// where the transition ends a token, that token.
pub open spec fn on_input(m: TokenizerModel, c: Option<char>) -> (TokenizerModel, Option<TokenModel>) {
    match m.state {
        State::Data => match c {
            Some(x) => if x == '<' {
                go(goto(m, State::TagOpen))
            } else {
                out(m, TokenModel::Char(x))
            },
            None => out(m, TokenModel::Eof),
        },
        State::TagOpen => match c {
            Some(x) => if x == '/' {
                go(goto(m, State::EndTagOpen))
            } else if is_ascii_alpha(x) {
                go(again(with_latest(m, Some(empty_start_tag())), State::TagName))
            } else {
                go(again(m, State::Data))
            },
            None => out(m, TokenModel::Eof),
        },
        State::EndTagOpen => match c {
            Some(x) => if is_ascii_alpha(x) {
                go(again(with_latest(m, Some(empty_end_tag())), State::TagName))
            } else {
                go(m)
            },
            None => out(m, TokenModel::Eof),
        },
        State::TagName => match c {
            Some(x) => if is_white_space(x) {
                go(goto(m, State::BeforeAttributeName))
            } else if x == '/' {
                go(goto(m, State::SelfClosingStartTag))
            } else if x == '>' {
                emit_tag(m)
            } else {
                go(with_latest(m, push_tag_name(m.latest, ascii_lower(x))))
            },
            None => out(m, TokenModel::Eof),
        },
        State::BeforeAttributeName => match c {
            Some(x) => if x == '/' || x == '>' {
                go(again(m, State::AfterAttributeName))
            } else {
                go(again(with_latest(m, push_attribute(m.latest)), State::AttributeName))
            },
            None => go(again(m, State::AfterAttributeName)),
        },
        State::AttributeName => match c {
            Some(x) => if is_white_space(x) || x == '/' || x == '>' {
                go(again(m, State::AfterAttributeName))
            } else if x == '=' {
                go(goto(m, State::BeforeAttributeValue))
            } else {
                go(with_latest(m, push_attribute_char(m.latest, ascii_lower(x), true)))
            },
            None => go(again(m, State::AfterAttributeName)),
        },
        State::AfterAttributeName => match c {
            Some(x) => if is_white_space(x) {
                go(m)
            } else if x == '/' {
                go(goto(m, State::SelfClosingStartTag))
            } else if x == '=' {
                go(goto(m, State::BeforeAttributeValue))
            } else if x == '>' {
                emit_tag(m)
            } else {
                go(again(with_latest(m, push_attribute(m.latest)), State::AttributeName))
            },
            None => out(m, TokenModel::Eof),
        },
        State::BeforeAttributeValue => match c {
            Some(x) => if is_white_space(x) {
                go(m)
            } else if x == '"' {
                go(goto(m, State::AttributeValueDoubleQuoted))
            } else if x == '\'' {
                go(goto(m, State::AttributeValueSingleQuoted))
            } else if x == '>' {
                emit_tag(m)
            } else {
                go(again(m, State::AttributeValueUnquoted))
            },
            None => go(again(m, State::AttributeValueUnquoted)),
        },
        State::AttributeValueDoubleQuoted => match c {
            Some(x) => if x == '"' {
                go(goto(m, State::AfterAttributeValueQuoted))
            } else {
                go(with_latest(m, push_attribute_char(m.latest, x, false)))
            },
            None => out(m, TokenModel::Eof),
        },
        State::AttributeValueSingleQuoted => match c {
            Some(x) => if x == '\'' {
                go(goto(m, State::AfterAttributeValueQuoted))
            } else {
                go(with_latest(m, push_attribute_char(m.latest, x, false)))
            },
            None => out(m, TokenModel::Eof),
        },
        State::AttributeValueUnquoted => match c {
            Some(x) => if is_white_space(x) {
                go(goto(m, State::BeforeAttributeName))
            } else if x == '>' {
                emit_tag(m)
            } else {
                go(with_latest(m, push_attribute_char(m.latest, x, false)))
            },
            None => out(m, TokenModel::Eof),
        },
        State::AfterAttributeValueQuoted => match c {
            Some(x) => if is_white_space(x) {
                go(goto(m, State::BeforeAttributeName))
            } else if x == '/' {
                go(goto(m, State::SelfClosingStartTag))
            } else if x == '>' {
                emit_tag(m)
            } else {
                go(again(m, State::BeforeAttributeName))
            },
            None => out(m, TokenModel::Eof),
        },
        State::SelfClosingStartTag => match c {
            Some(x) => if x == '>' {
                emit_tag(with_latest(m, mark_self_closing(m.latest)))
            } else {
                go(again(m, State::BeforeAttributeName))
            },
            None => out(m, TokenModel::Eof),
        },
        State::ScriptData => match c {
            Some(x) => if x == '<' {
                go(goto(m, State::ScriptDataLessThanSign))
            } else {
                out(m, TokenModel::Char(x))
            },
            None => out(m, TokenModel::Eof),
        },
        State::ScriptDataLessThanSign => match c {
            Some(x) => if x == '/' {
                go(TokenizerModel { state: State::ScriptDataEndTagOpen, buf: Seq::empty(), ..m })
            } else {
                out(again(m, State::ScriptData), TokenModel::Char('<'))
            },
            None => out(again(m, State::ScriptData), TokenModel::Char('<')),
        },
        State::ScriptDataEndTagOpen => match c {
            Some(x) => if is_ascii_alpha(x) {
                go(again(with_latest(m, Some(empty_end_tag())), State::ScriptDataEndTagName))
            } else {
                out(again(m, State::ScriptData), TokenModel::Char('<'))
            },
            None => out(again(m, State::ScriptData), TokenModel::Char('<')),
        },
        State::ScriptDataEndTagName => match c {
            Some(x) => if x == '>' {
                emit_tag(m)
            } else if is_ascii_alpha(x) {
                go(
                    TokenizerModel {
                        latest: push_tag_name(m.latest, ascii_lower(x)),
                        buf: m.buf.push(x),
                        ..m
                    },
                )
            } else {
                go(
                    TokenizerModel {
                        state: State::TemporaryBuffer,
                        buf: seq!['<', '/'] + m.buf.push(x),
                        ..m
                    },
                )
            },
            None => go(
                TokenizerModel {
                    state: State::TemporaryBuffer,
                    reconsume: true,
                    buf: seq!['<', '/'] + m.buf,
                    ..m
                },
            ),
        },
        // Replaying the side buffer takes no input: `step` handles it.
        State::TemporaryBuffer => go(m),
    }
}

/// One round of the tokenizer's loop: the side buffer is replayed first,
/// otherwise one pull of input is dispatched on the state.
pub open spec fn step(m: TokenizerModel) -> (TokenizerModel, Option<TokenModel>) {
    if m.state == State::TemporaryBuffer {
        if m.buf.len() == 0 {
            go(goto(m, State::Data))
        } else {
            out(TokenizerModel { buf: m.buf.drop_first(), ..m }, TokenModel::Char(m.buf[0]))
        }
    } else {
        let (m1, c) = pull(m);
        on_input(m1, c)
    }
}

/// Pulls that are still to come, counted twice, plus one for a pending replay.
pub open spec fn fuel(m: TokenizerModel) -> nat {
    (2 * (m.input.len() + 1 - m.pos) + if m.reconsume {
        1int
    } else {
        0int
    }) as nat
}

/// How many rounds can follow in a row that neither advance the input nor
/// emit a token.
pub open spec fn rank(m: TokenizerModel) -> nat {
    match m.state {
        State::TagOpen | State::EndTagOpen | State::AfterAttributeName
        | State::BeforeAttributeValue | State::TemporaryBuffer => 1,
        State::AttributeName => match last_pulled(m) {
            Some(x) => if is_white_space(x) || x == '/' || x == '>' {
                2
            } else {
                0
            },
            None => 2,
        },
        State::ScriptDataEndTagName => 2,
        State::BeforeAttributeName | State::ScriptDataEndTagOpen => 3,
        State::AfterAttributeValueQuoted | State::SelfClosingStartTag => 4,
        _ => 0,
    }
}

pub open spec fn progress(m: TokenizerModel, m2: TokenizerModel) -> bool {
    fuel(m2) < fuel(m) || (fuel(m2) == fuel(m) && rank(m2) < rank(m))
}

/// A round keeps the tokenizer well formed; one that emits nothing leaves
/// work for later and makes progress.
pub proof fn lemma_step(m: TokenizerModel)
    requires
        m.wf(),
        !m.finished(),
    ensures
        step(m).0.wf(),
        step(m).1 is None ==> !step(m).0.finished() && progress(m, step(m).0),
        step(m).1 matches Some(t) ==> names_folded(t),
        step(m).0.input == m.input,
{
}

/// Rounds until one emits a token: the tokenizer after it, and the token.
pub open spec fn run(m: TokenizerModel) -> (TokenizerModel, TokenModel)
    decreases fuel(m), rank(m),
    when m.wf() && !m.finished()
{
    proof {
        lemma_step(m);
    }
    let (m2, t) = step(m);
    match t {
        Some(t) => (m2, t),
        None => run(m2),
    }
}

} // verus!
