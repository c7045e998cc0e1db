//! The scanner state and its transitions.
use vstd::prelude::*;
use crate::rules::{self, PhaseModel, ScanModel};
use crate::token::{
    Delimiter, Token, TokenModel, view_tokens, lemma_view_tokens_add, lemma_view_tokens_len,
    lemma_view_tokens_pointwise, lemma_view_tokens_push,
};

verus! {

/// Where the scanner stands in a possible postfix chain, with the chain
/// tokens read so far.
pub enum Phase {
    Receiver,
    Tilde { dot: Token },
    Name { dot: Token, tilde: Token },
    InvokeForm { dot: Token, tilde: Token, name: Token },
    MacroGroup { dot: Token, tilde: Token, name: Token, bang: Token },
}

impl Phase {
    pub open spec fn view(&self) -> PhaseModel {
        match self {
            Phase::Receiver => PhaseModel::Receiver,
            Phase::Tilde { dot } => PhaseModel::Tilde { dot: dot@ },
            Phase::Name { dot, tilde } => PhaseModel::Name { dot: dot@, tilde: tilde@ },
            Phase::InvokeForm { dot, tilde, name } => PhaseModel::InvokeForm {
                dot: dot@,
                tilde: tilde@,
                name: name@,
            },
            Phase::MacroGroup { dot, tilde, name, bang } => PhaseModel::MacroGroup {
                dot: dot@,
                tilde: tilde@,
                name: name@,
                bang: bang@,
            },
        }
    }
}

/// One left-to-right scan of a token sequence.
pub struct State {
    pub phase: Phase,
    pub receiver: Vec<Token>,
    pub output: Vec<Token>,
}

/// Whether `t` is the punctuation character `c`.
pub fn is_punct(t: &Token, c: char) -> (r: bool)
    ensures
        r == rules::is_punct(t@, c),
{
    match t {
        Token::Punct { ch, .. } => *ch == c,
        _ => false,
    }
}

/// The punctuation token `ch`.
pub fn punct(ch: char, joint: bool, span: u64) -> (r: Token)
    ensures
        r@ == (TokenModel::Punct { ch, joint, span }),
{
    Token::Punct { ch, joint, span }
}

/// Appends `, args` to `first` when `args` is not empty.
pub fn append_args(first: &mut Vec<Token>, args: Vec<Token>, span: u64)
    ensures
        view_tokens(final(first)@) == rules::with_args(view_tokens(old(first)@), view_tokens(args@), span),
{
    proof {
        lemma_view_tokens_len(args@);
    }
    if args.len() > 0 {
        let ghost before = first@;
        let ghost tail = args@;
        let mut args = args;
        let c = punct(',', false, span);
        let ghost cg = c;
        first.push(c);
        first.append(&mut args);
        proof {
            lemma_view_tokens_push(before, cg);
            lemma_view_tokens_add(before.push(cg), tail);
        }
    }
}

/// Replaces the receiver `r` of `state` with the call `name(r, args)`, for
/// the group `(args)`.
pub fn define_func(state: &mut State, name: Token, group: Token)
    requires
        group@ is Group,
    ensures
        final(state)@ == (ScanModel {
            receiver: rules::call_form(old(state)@.receiver, name@, group@),
            ..old(state)@
        }),
{
    let receiver = state.take_receiver();
    state.receiver = call_form(receiver, name, group);
}

fn call_form(receiver: Vec<Token>, name: Token, group: Token) -> (r: Vec<Token>)
    requires
        group@ is Group,
    ensures
        view_tokens(r@) == rules::call_form(view_tokens(receiver@), name@, group@),
{
    match group {
        Token::Group { delim, stream, span } => {
            let mut inner = receiver;
            append_args(&mut inner, stream, span);
            let mut r: Vec<Token> = Vec::new();
            r.push(name);
            r.push(Token::Group { delim, stream: inner, span });
            proof {
                lemma_view_tokens_push(Seq::empty(), r@[0]);
                lemma_view_tokens_push(seq![r@[0]], r@[1]);
                assert(r@ =~= seq![r@[0]].push(r@[1]));
                assert(view_tokens(Seq::<Token>::empty()) =~= Seq::empty());
            }
            r
        },
        _ => receiver,
    }
}

/// The identifier bound to a postfix macro's receiver.
pub fn placeholder(span: u64) -> (r: Token)
    ensures
        r@ == rules::placeholder(span),
{
    Token::Ident { text: "__tilde_postfix_macro_self__".to_owned(), span }
}

/// Replaces the receiver `r` of `state` with
/// `match r { p => name!(p, args) }`, for the group `(args)`, whose delimiter
/// the macro call keeps. The receiver is thereby evaluated once.
pub fn define_macro(state: &mut State, name: Token, bang: Token, group: Token)
    requires
        group@ is Group,
    ensures
        final(state)@ == (ScanModel {
            receiver: rules::macro_form(old(state)@.receiver, name@, bang@, group@),
            ..old(state)@
        }),
{
    let receiver = state.take_receiver();
    state.receiver = macro_form(receiver, name, bang, group);
}

fn macro_form(receiver: Vec<Token>, name: Token, bang: Token, group: Token) -> (r: Vec<Token>)
    requires
        group@ is Group,
    ensures
        view_tokens(r@) == rules::macro_form(view_tokens(receiver@), name@, bang@, group@),
{
    match group {
        Token::Group { delim, stream, span } => {
            let mut args: Vec<Token> = Vec::new();
            args.push(placeholder(span));
            proof {
                lemma_view_tokens_push(Seq::empty(), args@[0]);
                assert(view_tokens(Seq::<Token>::empty()) =~= Seq::empty());
                assert(args@ =~= Seq::<Token>::empty().push(args@[0]));
            }
            append_args(&mut args, stream, span);
            let mut arm: Vec<Token> = Vec::new();
            arm.push(placeholder(span));
            arm.push(punct('=', true, span));
            arm.push(punct('>', false, span));
            arm.push(name);
            arm.push(bang);
            arm.push(Token::Group { delim, stream: args, span });
            proof {
                lemma_view_tokens_pointwise(arm@);
                assert(view_tokens(arm@) =~= rules::macro_arm(name@, bang@, group@));
            }
            let mut recv = receiver;
            let ghost recv_seq = recv@;
            let mut r: Vec<Token> = Vec::new();
            r.push(Token::Ident { text: "match".to_owned(), span });
            r.append(&mut recv);
            r.push(Token::Group { delim: Delimiter::Brace, stream: arm, span });
            proof {
                lemma_view_tokens_pointwise(r@);
                lemma_view_tokens_pointwise(recv_seq);
                assert(view_tokens(r@) =~= rules::macro_form(
                    view_tokens(recv_seq),
                    name@,
                    bang@,
                    group@,
                ));
            }
            r
        },
        _ => receiver,
    }
}

impl State {
    pub open spec fn view(&self) -> ScanModel {
        ScanModel {
            phase: self.phase@,
            receiver: view_tokens(self.receiver@),
            output: view_tokens(self.output@),
        }
    }

    pub fn new() -> (r: Self)
        ensures
            r@ == rules::initial_scan(),
    {
        let r = State { phase: Phase::Receiver, receiver: Vec::new(), output: Vec::new() };
        proof {
            assert(view_tokens(Seq::<Token>::empty()) =~= Seq::empty());
        }
        r
    }

    /// Moves the receiver into the final output and starts looking for a
    /// receiver again.
    pub fn reset_obj(&mut self)
        ensures
            final(self)@.phase == PhaseModel::Receiver,
            final(self)@.receiver == Seq::<TokenModel>::empty(),
            final(self)@.output == old(self)@.output + old(self)@.receiver,
    {
        proof {
            lemma_view_tokens_add(self.output@, self.receiver@);
        }
        self.phase = Phase::Receiver;
        self.output.append(&mut self.receiver);
        proof {
            assert(view_tokens(Seq::<Token>::empty()) =~= Seq::empty());
        }
    }

    /// Appends `t` to the final output.
    pub fn acc_extend(&mut self, t: Token)
        ensures
            final(self).phase == old(self).phase,
            final(self)@.receiver == old(self)@.receiver,
            final(self)@.output == old(self)@.output.push(t@),
    {
        proof {
            lemma_view_tokens_push(self.output@, t);
        }
        self.output.push(t);
    }

    /// Appends `t` to the receiver.
    pub fn obj_extend(&mut self, t: Token)
        ensures
            final(self).phase == old(self).phase,
            final(self)@.receiver == old(self)@.receiver.push(t@),
            final(self)@.output == old(self)@.output,
    {
        proof {
            lemma_view_tokens_push(self.receiver@, t);
        }
        self.receiver.push(t);
    }

    /// Takes the receiver, leaving it empty.
    fn take_receiver(&mut self) -> (r: Vec<Token>)
        ensures
            r@ == old(self).receiver@,
            final(self).phase == old(self).phase,
            final(self).receiver@ == Seq::<Token>::empty(),
            final(self).output == old(self).output,
    {
        let mut r: Vec<Token> = Vec::new();
        std::mem::swap(&mut r, &mut self.receiver);
        r
    }

    /// Feeds one token, whose group contents (if any) are already desugared.
    pub fn next(&mut self, t: Token)
        ensures
            final(self)@ == rules::step_model(old(self)@, t@),
    {
        let ghost st = self@;
        let mut phase = Phase::Receiver;
        std::mem::swap(&mut phase, &mut self.phase);
        match phase {
            Phase::Receiver => {
                if is_punct(&t, '.') {
                    self.phase = Phase::Tilde { dot: t };
                } else if is_punct(&t, ':') || !matches!(t, Token::Punct { .. }) {
                    self.obj_extend(t);
                } else {
                    self.reset_obj();
                    self.acc_extend(t);
                    assert(self@.output =~= rules::abort(st, t@).output);
                }
            },
            Phase::Tilde { dot } => {
                if is_punct(&t, '~') {
                    self.phase = Phase::Name { dot, tilde: t };
                } else if matches!(t, Token::Ident { .. }) {
                    self.obj_extend(dot);
                    self.obj_extend(t);
                } else {
                    self.reset_obj();
                    self.acc_extend(dot);
                    self.acc_extend(t);
                    assert(self@.output =~= rules::abort(st, t@).output);
                }
            },
            Phase::Name { dot, tilde } => {
                if matches!(t, Token::Ident { .. }) {
                    self.phase = Phase::InvokeForm { dot, tilde, name: t };
                } else {
                    self.reset_obj();
                    self.acc_extend(dot);
                    self.acc_extend(tilde);
                    self.acc_extend(t);
                    assert(self@.output =~= rules::abort(st, t@).output);
                }
            },
            Phase::InvokeForm { dot, tilde, name } => {
                if is_punct(&t, '!') {
                    self.phase = Phase::MacroGroup { dot, tilde, name, bang: t };
                } else if matches!(t, Token::Group { delim: Delimiter::Parenthesis, .. }) {
                    define_func(self, name, t);
                } else {
                    self.reset_obj();
                    self.acc_extend(dot);
                    self.acc_extend(tilde);
                    self.acc_extend(name);
                    self.acc_extend(t);
                    assert(self@.output =~= rules::abort(st, t@).output);
                }
            },
            Phase::MacroGroup { dot, tilde, name, bang } => {
                if matches!(t, Token::Group { .. }) {
                    define_macro(self, name, bang, t);
                } else {
                    self.reset_obj();
                    self.acc_extend(dot);
                    self.acc_extend(tilde);
                    self.acc_extend(name);
                    self.acc_extend(bang);
                    self.acc_extend(t);
                    assert(self@.output =~= rules::abort(st, t@).output);
                }
            },
        }
    }

    /// Ends the scan: the output, then the receiver, then any chain tokens
    /// still pending.
    pub fn finish(self) -> (r: Vec<Token>)
        ensures
            view_tokens(r@) == rules::finish(self@),
    {
        let ghost st = self@;
        let mut s = self;
        let mut phase = Phase::Receiver;
        std::mem::swap(&mut phase, &mut s.phase);
        s.reset_obj();
        match phase {
            Phase::Receiver => {},
            Phase::Tilde { dot } => {
                s.acc_extend(dot);
            },
            Phase::Name { dot, tilde } => {
                s.acc_extend(dot);
                s.acc_extend(tilde);
            },
            Phase::InvokeForm { dot, tilde, name } => {
                s.acc_extend(dot);
                s.acc_extend(tilde);
                s.acc_extend(name);
            },
            Phase::MacroGroup { dot, tilde, name, bang } => {
                s.acc_extend(dot);
                s.acc_extend(tilde);
                s.acc_extend(name);
                s.acc_extend(bang);
            },
        }
        assert(s@.output =~= rules::finish(st));
        s.output
    }
}

} // verus!
