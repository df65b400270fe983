//! Properties of the tokenizer as a whole, over several calls of `next`.
use vstd::prelude::*;

use crate::token::{
    builds_tag, initial, lemma_step, last_pulled, on_input, pull, run, step, State, TokenModel, TokenizerModel,
};
use crate::text::is_ascii_alpha;
use crate::tokenizer::{next_spec, pulls};

verus! {

/// The model in `Data` after `k` scalar values of plain text.
pub open spec fn in_text(input: Seq<char>, k: int) -> TokenizerModel {
    TokenizerModel { pos: k, ..initial(input) }
}

/// One character token for each scalar value of `s`, in order.
pub open spec fn char_tokens(s: Seq<char>) -> Seq<Option<TokenModel>>
    decreases s.len(),
{
    if s.len() == 0 {
        Seq::empty()
    } else {
        char_tokens(s.drop_last()).push(Some(TokenModel::Char(s.last())))
    }
}

proof fn lemma_text_prefix(input: Seq<char>, k: nat)
    requires
        input.len() > 0,
        k <= input.len(),
        forall|i: int| 0 <= i < input.len() ==> input[i] != '<',
    ensures
        pulls(initial(input), k) == (in_text(input, k as int), char_tokens(input.take(k as int))),
    decreases k,
{
    if k > 0 {
        lemma_text_prefix(input, (k - 1) as nat);
        let m = in_text(input, k - 1);
        assert(step(m) == (in_text(input, k as int), Some(TokenModel::Char(input[k - 1]))));
        assert(run(m) == (in_text(input, k as int), TokenModel::Char(input[k - 1])));
        assert(input.take(k as int).drop_last() =~= input.take(k - 1));
    } else {
        assert(input.take(0).len() == 0);
    }
}

/// Input that holds no `<` comes out as one character token per scalar
/// value, in order, and then the end-of-input token.
pub proof fn lemma_text_is_copied(input: Seq<char>)
    requires
        input.len() > 0,
        forall|i: int| 0 <= i < input.len() ==> input[i] != '<',
    ensures
        pulls(initial(input), input.len() + 1).1 == char_tokens(input).push(
            Some(TokenModel::Eof),
        ),
{
    lemma_text_prefix(input, input.len());
    let m = in_text(input, input.len() as int);
    let end = in_text(input, input.len() + 1int);
    assert(step(m) == (end, Some(TokenModel::Eof)));
    assert(run(m) == (end, TokenModel::Eof));
    assert(input.take(input.len() as int) =~= input);
}

/// With input that holds no `<`, the call that follows `k` calls hands out
/// the `k`-th scalar value as a character token, or the end-of-input token
/// once every scalar value has been handed out.
pub proof fn lemma_text_call(input: Seq<char>, k: nat)
    requires
        input.len() > 0,
        k <= input.len(),
        forall|i: int| 0 <= i < input.len() ==> input[i] != '<',
    ensures
        next_spec(pulls(initial(input), k).0).1 == if k < input.len() {
            Some(TokenModel::Char(input[k as int]))
        } else {
            Some(TokenModel::Eof)
        },
{
    lemma_text_prefix(input, k);
    let m = in_text(input, k as int);
    if k < input.len() {
        assert(step(m) == (in_text(input, k + 1int), Some(TokenModel::Char(input[k as int]))));
    } else {
        assert(step(m) == (in_text(input, k + 1int), Some(TokenModel::Eof)));
    }
}

/// A replay delivers what the pull before it delivered: the scalar value
/// consumed last, or the end of the input.
pub proof fn lemma_replay_gives_last_pulled(m: TokenizerModel)
    requires
        m.wf(),
        !m.reconsume,
        m.pos <= m.input.len(),
    ensures
        pull(TokenizerModel { reconsume: true, ..pull(m).0 }).1 == pull(m).1,
{
}

/// Two tokenizers over the same input hand out the same tokens: nothing but
/// the input decides them.
pub proof fn lemma_same_input_same_tokens(a: Seq<char>, b: Seq<char>, n: nat)
    requires
        a == b,
    ensures
        pulls(initial(a), n).1 == pulls(initial(b), n).1,
{
}

proof fn lemma_eof_needs_end(m: TokenizerModel, x: char)
    requires
        m.wf(),
    ensures
        on_input(m, Some(x)).1 != Some(TokenModel::Eof),
{
}

proof fn lemma_eof_finishes(m: TokenizerModel)
    requires
        m.wf(),
        !m.finished(),
        run(m).1 == TokenModel::Eof,
    ensures
        run(m).0.finished(),
    decreases crate::token::fuel(m), crate::token::rank(m),
{
    lemma_step(m);
    if step(m).1 is None {
        lemma_eof_finishes(step(m).0);
    } else {
        assert(step(m).1 == Some(TokenModel::Eof));
        let (m1, c) = pull(m);
        assert(m.state != State::TemporaryBuffer);
        if let Some(x) = c {
            lemma_eof_needs_end(m1, x);
        }
        assert(m1.finished());
    }
}

/// Once the end-of-input token has been handed out, every later call hands
/// out nothing and changes nothing.
pub proof fn lemma_nothing_after_eof(m: TokenizerModel)
    requires
        m.wf(),
        next_spec(m).1 == Some(TokenModel::Eof),
    ensures
        next_spec(next_spec(m).0) == (next_spec(m).0, None::<TokenModel>),
{
    lemma_eof_finishes(m);
}

/// The states inside a start or end tag, between its name and its `>`.
pub open spec fn in_tag(s: State) -> bool {
    builds_tag(s) && s != State::ScriptDataEndTagName
}

/// No `>` is left to be delivered to `m`.
pub open spec fn no_close_ahead(m: TokenizerModel) -> bool {
    &&& forall|i: int| m.pos <= i < m.input.len() ==> m.input[i] != '>'
    &&& m.reconsume ==> last_pulled(m) != Some('>')
}

/// A tag that no `>` closes before the input ends is never handed out: the
/// next token is the end-of-input token.
pub proof fn lemma_unclosed_tag_ends_input(m: TokenizerModel)
    requires
        m.wf(),
        !m.finished(),
        in_tag(m.state),
        no_close_ahead(m),
    ensures
        run(m).1 == TokenModel::Eof,
    decreases crate::token::fuel(m), crate::token::rank(m),
{
    lemma_step(m);
    let (m2, t) = step(m);
    if t is None {
        assert(in_tag(m2.state));
        assert(no_close_ahead(m2));
        lemma_unclosed_tag_ends_input(m2);
    }
}

/// An input that opens a tag with `<` and a letter and never closes it gives
/// the end-of-input token first, and no tag.
pub proof fn lemma_unclosed_first_tag(input: Seq<char>)
    requires
        input.len() >= 2,
        input[0] == '<',
        is_ascii_alpha(input[1]),
        forall|i: int| 0 <= i < input.len() ==> input[i] != '>',
    ensures
        next_spec(initial(input)).1 == Some(TokenModel::Eof),
{
    let m0 = initial(input);
    let m1 = TokenizerModel { state: State::TagOpen, pos: 1, ..m0 };
    assert(step(m0) == (m1, None::<TokenModel>));
    lemma_step(m0);
    lemma_step(m1);
    let m2 = step(m1).0;
    assert(m2.state == State::TagName);
    assert(run(m0) == run(m1));
    assert(run(m1) == run(m2));
    lemma_unclosed_tag_ends_input(m2);
}

} // verus!
