//! The rewriting automaton, stated over token models.
use vstd::prelude::*;
use crate::token::{Delimiter, TokenModel};

verus! {

/// Name bound to the receiver of a postfix macro call.
pub open spec fn placeholder_text() -> Seq<char> {
    "__tilde_postfix_macro_self__"@
}

pub open spec fn match_text() -> Seq<char> {
    "match"@
}

/// Where the scanner stands in a possible `. ~ name ( ! ) group` chain. Each
/// phase keeps the chain tokens read so far, so that an interrupted chain can
/// be given back verbatim.
pub enum PhaseModel {
    Receiver,
    Tilde { dot: TokenModel },
    Name { dot: TokenModel, tilde: TokenModel },
    InvokeForm { dot: TokenModel, tilde: TokenModel, name: TokenModel },
    MacroGroup { dot: TokenModel, tilde: TokenModel, name: TokenModel, bang: TokenModel },
}

/// The state of one scan: the phase, the receiver being gathered, and the
/// tokens that are final.
pub struct ScanModel {
    pub phase: PhaseModel,
    pub receiver: Seq<TokenModel>,
    pub output: Seq<TokenModel>,
}

pub open spec fn is_punct(t: TokenModel, c: char) -> bool {
    t matches TokenModel::Punct { ch, .. } && ch == c
}

pub open spec fn is_paren_group(t: TokenModel) -> bool {
    t matches TokenModel::Group { delim, .. } && delim == Delimiter::Parenthesis
}

pub open spec fn initial_scan() -> ScanModel {
    ScanModel { phase: PhaseModel::Receiver, receiver: Seq::empty(), output: Seq::empty() }
}

/// The chain tokens that a phase holds, in the order they were read.
pub open spec fn pending(p: PhaseModel) -> Seq<TokenModel> {
    match p {
        PhaseModel::Receiver => Seq::empty(),
        PhaseModel::Tilde { dot } => seq![dot],
        PhaseModel::Name { dot, tilde } => seq![dot, tilde],
        PhaseModel::InvokeForm { dot, tilde, name } => seq![dot, tilde, name],
        PhaseModel::MacroGroup { dot, tilde, name, bang } => seq![dot, tilde, name, bang],
    }
}

/// Gives up the current chain: the receiver, the pending chain tokens and `t`
/// become final, and the scan starts over.
pub open spec fn abort(st: ScanModel, t: TokenModel) -> ScanModel {
    ScanModel {
        phase: PhaseModel::Receiver,
        receiver: Seq::empty(),
        output: st.output + st.receiver + pending(st.phase).push(t),
    }
}

pub open spec fn comma(span: u64) -> TokenModel {
    TokenModel::Punct { ch: ',', joint: false, span }
}

/// `first`, followed by `, args` when `args` is not empty.
pub open spec fn with_args(first: Seq<TokenModel>, args: Seq<TokenModel>, span: u64) -> Seq<
    TokenModel,
> {
    if args.len() == 0 {
        first
    } else {
        first.push(comma(span)) + args
    }
}

/// `name(receiver, args)` for the group `(args)`.
pub open spec fn call_form(receiver: Seq<TokenModel>, name: TokenModel, group: TokenModel) -> Seq<
    TokenModel,
> {
    match group {
        TokenModel::Group { delim, stream, span } => seq![
            name,
            TokenModel::Group { delim, stream: with_args(receiver, stream, span), span },
        ],
        _ => receiver,
    }
}

pub open spec fn placeholder(span: u64) -> TokenModel {
    TokenModel::Ident { text: placeholder_text(), span }
}

/// `p => name!(p, args)`, for the group `(args)` with any delimiter.
pub open spec fn macro_arm(name: TokenModel, bang: TokenModel, group: TokenModel) -> Seq<
    TokenModel,
> {
    match group {
        TokenModel::Group { delim, stream, span } => seq![
            placeholder(span),
            TokenModel::Punct { ch: '=', joint: true, span },
            TokenModel::Punct { ch: '>', joint: false, span },
            name,
            bang,
            TokenModel::Group { delim, stream: with_args(seq![placeholder(span)], stream, span), span },
        ],
        _ => Seq::empty(),
    }
}

/// `match receiver { p => name!(p, args) }`.
pub open spec fn macro_form(
    receiver: Seq<TokenModel>,
    name: TokenModel,
    bang: TokenModel,
    group: TokenModel,
) -> Seq<TokenModel> {
    let span = group->Group_span;
    seq![TokenModel::Ident { text: match_text(), span }] + receiver + seq![
        TokenModel::Group { delim: Delimiter::Brace, stream: macro_arm(name, bang, group), span },
    ]
}

/// One step of the automaton on a token whose groups are already desugared.
///
/// A token that cannot continue the current chain (including a group where
/// a name is expected) ends it: the receiver and the chain tokens read so far
/// become final as they were read, followed by the token. Identifiers,
/// literals, groups and `:` extend the receiver; `.` may open a chain; any
/// other punctuation is final at once.
pub open spec fn step_model(st: ScanModel, t: TokenModel) -> ScanModel {
    match st.phase {
        PhaseModel::Receiver => if is_punct(t, '.') {
            ScanModel { phase: PhaseModel::Tilde { dot: t }, ..st }
        } else if is_punct(t, ':') || !(t is Punct) {
            ScanModel { receiver: st.receiver.push(t), ..st }
        } else {
            abort(st, t)
        },
        PhaseModel::Tilde { dot } => if is_punct(t, '~') {
            ScanModel { phase: PhaseModel::Name { dot, tilde: t }, ..st }
        } else if t is Ident {
            ScanModel { phase: PhaseModel::Receiver, receiver: st.receiver.push(dot).push(t), ..st }
        } else {
            abort(st, t)
        },
        PhaseModel::Name { dot, tilde } => if t is Ident {
            ScanModel { phase: PhaseModel::InvokeForm { dot, tilde, name: t }, ..st }
        } else {
            abort(st, t)
        },
        PhaseModel::InvokeForm { dot, tilde, name } => if is_punct(t, '!') {
            ScanModel { phase: PhaseModel::MacroGroup { dot, tilde, name, bang: t }, ..st }
        } else if is_paren_group(t) {
            ScanModel {
                phase: PhaseModel::Receiver,
                receiver: call_form(st.receiver, name, t),
                ..st
            }
        } else {
            abort(st, t)
        },
        PhaseModel::MacroGroup { dot, tilde, name, bang } => if t is Group {
            ScanModel {
                phase: PhaseModel::Receiver,
                receiver: macro_form(st.receiver, name, bang, t),
                ..st
            }
        } else {
            abort(st, t)
        },
    }
}

/// The tokens of a finished scan: what is final, then the receiver, then any
/// chain left incomplete at the end of input.
pub open spec fn finish(st: ScanModel) -> Seq<TokenModel> {
    st.output + st.receiver + pending(st.phase)
}

/// The state after scanning all of `s`.
pub open spec fn scan(s: Seq<TokenModel>) -> ScanModel
    decreases s, 0nat,
{
    if s.len() == 0 {
        initial_scan()
    } else {
        step_model(scan(s.subrange(0, s.len() - 1)), deep(s[s.len() - 1]))
    }
}

/// A token with the contents of its group, if it is one, desugared.
pub open spec fn deep(t: TokenModel) -> TokenModel
    decreases t, 2nat,
{
    match t {
        TokenModel::Group { delim, stream, span } => TokenModel::Group {
            delim,
            stream: desugar_model(stream),
            span,
        },
        _ => t,
    }
}

/// The desugaring of a token sequence.
pub open spec fn desugar_model(s: Seq<TokenModel>) -> Seq<TokenModel>
    decreases s, 1nat,
{
    finish(scan(s))
}

} // verus!
