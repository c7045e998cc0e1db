//! The desugaring pass: one scan per token sequence, applied inside every group.
use vstd::prelude::*;
use crate::rules::{deep, desugar_model, scan};
use crate::scan::State;
use crate::token::{Token, view_tokens, lemma_view_tokens_pointwise};

verus! {

/// Desugars the contents of `t` if it is a group; any other token is returned
/// as it is.
pub fn deepen(t: Token) -> (r: Token)
    ensures
        r@ == deep(t@),
    decreases t,
{
    match t {
        Token::Group { delim, stream, span } => {
            let inner = define_tilde(stream);
            Token::Group { delim, stream: inner, span }
        },
        other => other,
    }
}

/// Rewrites every postfix call in `tokens`, and in every group within it,
/// into ordinary call syntax.
pub fn define_tilde(tokens: Vec<Token>) -> (r: Vec<Token>)
    ensures
        view_tokens(r@) == desugar_model(view_tokens(tokens@)),
    decreases tokens@,
{
    let ghost input = tokens@;
    let n: usize = tokens.len();
    let mut todo = tokens;
    let mut rest: Vec<Token> = Vec::new();
    while todo.len() > 0
        invariant
            input.len() == n,
            tokens@ == input,
            todo@ == input.subrange(0, todo@.len() as int),
            rest@.len() + todo@.len() == n,
            forall|j: int| 0 <= j < rest@.len() ==> rest@[j] == input[n - 1 - j],
        decreases todo@.len(),
    {
        let t = todo.pop().unwrap();
        rest.push(t);
    }
    let mut state = State::new();
    let mut i: usize = 0;
    proof {
        assert(view_tokens(input.subrange(0, 0)) =~= Seq::empty());
    }
    while rest.len() > 0
        invariant
            input.len() == n,
            tokens@ == input,
            i + rest@.len() == n,
            forall|j: int| 0 <= j < rest@.len() ==> rest@[j] == input[n - 1 - j],
            state@ == scan(view_tokens(input.subrange(0, i as int))),
        decreases rest@.len(),
    {
        let t = rest.pop().unwrap();
        proof {
            assert(decreases_to!(tokens@ => input[i as int]));
        }
        let d = deepen(t);
        proof {
            let pre = input.subrange(0, i as int);
            let next = input.subrange(0, i + 1);
            lemma_view_tokens_pointwise(pre);
            lemma_view_tokens_pointwise(next);
            assert(view_tokens(next).subrange(0, i as int) =~= view_tokens(pre));
        }
        state.next(d);
        i = i + 1;
    }
    proof {
        assert(input.subrange(0, n as int) =~= input);
    }
    state.finish()
}

/// Desugars a token sequence: `recv.~name(args)` becomes
/// `name(recv, args)` and `recv.~name!(args)` becomes
/// `match recv { p => name!(p, args) }`; nothing else changes.
pub fn tilde(input: Vec<Token>) -> (r: Vec<Token>)
    ensures
        view_tokens(r@) == desugar_model(view_tokens(input@)),
{
    define_tilde(input)
}

} // verus!
