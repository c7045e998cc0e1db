//! Properties of the desugaring, stated over token models.
use vstd::prelude::*;
use crate::rules::{
    deep, desugar_model, finish, is_paren_group, is_punct, pending, macro_arm, macro_form, call_form, placeholder, scan,
    step_model, PhaseModel, ScanModel,
};
use crate::token::{Delimiter, TokenModel};

verus! {

/// Whether `s[i]` and `s[i + 1]` are `.` and `~`.
pub open spec fn marker_at(s: Seq<TokenModel>, i: int) -> bool {
    0 <= i && i + 1 < s.len() && is_punct(s[i], '.') && is_punct(s[i + 1], '~')
}

/// Whether `.~` occurs nowhere in `s`, neither at top level nor in a group.
pub open spec fn marker_free(s: Seq<TokenModel>) -> bool
    decreases s, 1nat,
{
    (forall|i: int| !marker_at(s, i)) && groups_marker_free(s)
}

/// Whether the contents of each group in `s` are marker free.
pub open spec fn groups_marker_free(s: Seq<TokenModel>) -> bool
    decreases s, 0nat,
{
    if s.len() == 0 {
        true
    } else {
        groups_marker_free(s.subrange(0, s.len() - 1)) && token_marker_free(s[s.len() - 1])
    }
}

pub open spec fn token_marker_free(t: TokenModel) -> bool
    decreases t, 2nat,
{
    match t {
        TokenModel::Group { stream, .. } => marker_free(stream),
        _ => true,
    }
}

/// Scanning one more token is one more step.
pub proof fn lemma_scan_push(s: Seq<TokenModel>, t: TokenModel)
    ensures
        scan(s.push(t)) == step_model(scan(s), deep(t)),
{
    assert(s.push(t).subrange(0, s.len() as int) =~= s);
}

/// Scanning a sequence without `.~` gives back every token read, and stops
/// either between receivers or just after a `.`.
proof fn lemma_scan_without_marker(s: Seq<TokenModel>)
    requires
        forall|i: int| !marker_at(s, i),
        groups_marker_free(s),
    ensures
        finish(scan(s)) == s,
        scan(s).phase is Receiver || (s.len() > 0 && scan(s).phase == (PhaseModel::Tilde {
            dot: s[s.len() - 1],
        })),
    decreases s, 0nat,
{
    if s.len() > 0 {
        let p = s.subrange(0, s.len() - 1);
        let t = s[s.len() - 1];
        assert forall|i: int| !marker_at(p, i) by {
            if marker_at(p, i) {
                assert(marker_at(s, i));
            }
        }
        lemma_scan_without_marker(p);
        assert(token_marker_free(t));
        if let TokenModel::Group { stream, .. } = t {
            assert(marker_free(stream));
            lemma_desugar_identity(stream);
        }
        assert(deep(t) == t);
        assert(s =~= p.push(t));
        lemma_scan_push(p, t);
        let st = scan(p);
        if st.phase is Tilde {
            assert(!marker_at(s, s.len() - 2));
        }
        assert(finish(scan(s)) =~= s);
    } else {
        assert(finish(scan(s)) =~= s);
    }
}

/// A token sequence in which `.~` occurs nowhere, not even inside a group,
/// comes out of the desugaring unchanged.
pub proof fn lemma_desugar_identity(s: Seq<TokenModel>)
    requires
        marker_free(s),
    ensures
        desugar_model(s) == s,
    decreases s, 1nat,
{
    lemma_scan_without_marker(s);
}

/// The tokens of one postfix link `. ~ name ! group`.
pub open spec fn is_macro_link(l: Seq<TokenModel>) -> bool {
    &&& l.len() == 5
    &&& is_punct(l[0], '.')
    &&& is_punct(l[1], '~')
    &&& l[2] is Ident
    &&& is_punct(l[3], '!')
    &&& l[4] is Group
}

/// The tokens of one postfix link `. ~ name ( args )`.
pub open spec fn is_call_link(l: Seq<TokenModel>) -> bool {
    &&& l.len() == 4
    &&& is_punct(l[0], '.')
    &&& is_punct(l[1], '~')
    &&& l[2] is Ident
    &&& is_paren_group(l[3])
}

proof fn lemma_deep_atom(t: TokenModel)
    requires
        !(t is Group),
    ensures
        deep(t) == t,
{
}

/// A macro link read right after a receiver replaces that receiver with
/// the macro form built on it, and leaves the final tokens alone.
pub proof fn lemma_macro_link(p: Seq<TokenModel>, l: Seq<TokenModel>)
    requires
        scan(p).phase is Receiver,
        is_macro_link(l),
    ensures
        scan(p + l) == (ScanModel {
            phase: PhaseModel::Receiver,
            receiver: macro_form(scan(p).receiver, l[2], l[3], deep(l[4])),
            output: scan(p).output,
        }),
{
    lemma_deep_atom(l[0]);
    lemma_deep_atom(l[1]);
    lemma_deep_atom(l[2]);
    lemma_deep_atom(l[3]);
    lemma_scan_push(p, l[0]);
    lemma_scan_push(p.push(l[0]), l[1]);
    lemma_scan_push(p.push(l[0]).push(l[1]), l[2]);
    lemma_scan_push(p.push(l[0]).push(l[1]).push(l[2]), l[3]);
    lemma_scan_push(p.push(l[0]).push(l[1]).push(l[2]).push(l[3]), l[4]);
    assert(p + l =~= p.push(l[0]).push(l[1]).push(l[2]).push(l[3]).push(l[4]));
}

/// A call link read right after a receiver replaces that receiver with the
/// call built on it, and leaves the final tokens alone.
pub proof fn lemma_call_link(p: Seq<TokenModel>, l: Seq<TokenModel>)
    requires
        scan(p).phase is Receiver,
        is_call_link(l),
    ensures
        scan(p + l) == (ScanModel {
            phase: PhaseModel::Receiver,
            receiver: call_form(scan(p).receiver, l[2], deep(l[3])),
            output: scan(p).output,
        }),
{
    lemma_deep_atom(l[0]);
    lemma_deep_atom(l[1]);
    lemma_deep_atom(l[2]);
    lemma_scan_push(p, l[0]);
    lemma_scan_push(p.push(l[0]), l[1]);
    lemma_scan_push(p.push(l[0]).push(l[1]), l[2]);
    lemma_scan_push(p.push(l[0]).push(l[1]).push(l[2]), l[3]);
    assert(p + l =~= p.push(l[0]).push(l[1]).push(l[2]).push(l[3]));
}

/// Chained macro links are applied left to right in the one scan: the
/// result of the first becomes the receiver of the second.
pub proof fn lemma_macro_chain(p: Seq<TokenModel>, l1: Seq<TokenModel>, l2: Seq<TokenModel>)
    requires
        scan(p).phase is Receiver,
        is_macro_link(l1),
        is_macro_link(l2),
    ensures
        scan(p + l1 + l2) == (ScanModel {
            phase: PhaseModel::Receiver,
            receiver: macro_form(
                macro_form(scan(p).receiver, l1[2], l1[3], deep(l1[4])),
                l2[2],
                l2[3],
                deep(l2[4]),
            ),
            output: scan(p).output,
        }),
{
    lemma_macro_link(p, l1);
    lemma_macro_link(p + l1, l2);
}

/// The macro form holds the receiver's tokens once, right after `match`;
/// what follows them, the arm `p => name!(p, args)`, does not depend on
/// the receiver.
pub proof fn lemma_macro_receiver_once(
    r: Seq<TokenModel>,
    name: TokenModel,
    bang: TokenModel,
    group: TokenModel,
)
    requires
        group is Group,
    ensures
        macro_form(r, name, bang, group).len() == r.len() + 2,
        macro_form(r, name, bang, group)[0] == (TokenModel::Ident {
            text: crate::rules::match_text(),
            span: group->Group_span,
        }),
        macro_form(r, name, bang, group).subrange(1, r.len() + 1 as int) == r,
        macro_form(r, name, bang, group)[r.len() + 1 as int] == (TokenModel::Group {
            delim: Delimiter::Brace,
            stream: macro_arm(name, bang, group),
            span: group->Group_span,
        }),
{
    assert(macro_form(r, name, bang, group).subrange(1, r.len() + 1 as int) =~= r);
}

/// An empty argument list adds no separator: `recv.~f()` gives `f(recv)`
/// and `recv.~f!()` gives the arm `p => f!(p)`.
pub proof fn lemma_empty_arguments(
    r: Seq<TokenModel>,
    name: TokenModel,
    bang: TokenModel,
    delim: Delimiter,
    span: u64,
)
    ensures
        call_form(r, name, TokenModel::Group { delim, stream: Seq::empty(), span }) == seq![
            name,
            TokenModel::Group { delim, stream: r, span },
        ],
        macro_arm(name, bang, TokenModel::Group { delim, stream: Seq::empty(), span }) == seq![
            placeholder(span),
            TokenModel::Punct { ch: '=', joint: true, span },
            TokenModel::Punct { ch: '>', joint: false, span },
            name,
            bang,
            TokenModel::Group { delim, stream: seq![placeholder(span)], span },
        ],
{
}

/// Whether `t` is no `~`, and holds none if it is a group.
pub open spec fn token_tilde_free(t: TokenModel) -> bool
    decreases t, 1nat,
{
    !is_punct(t, '~') && match t {
        TokenModel::Group { stream, .. } => tilde_free(stream),
        _ => true,
    }
}

/// Whether no `~` occurs in `s`, at top level or in any group.
pub open spec fn tilde_free(s: Seq<TokenModel>) -> bool
    decreases s, 0nat,
{
    forall|i: int| 0 <= i < s.len() ==> token_tilde_free(#[trigger] s[i])
}

/// Whether the `~` at `s[i]` opens a complete postfix link: a `.` before it
/// (itself not after another `.`), then a name, then `( .. )` or `! group`.
pub open spec fn tilde_in_link(s: Seq<TokenModel>, i: int) -> bool {
    &&& 1 <= i
    &&& is_punct(s[i - 1], '.')
    &&& (i < 2 || !is_punct(s[i - 2], '.'))
    &&& i + 1 < s.len()
    &&& s[i + 1] is Ident
    &&& ((i + 2 < s.len() && is_paren_group(s[i + 2])) || (i + 3 < s.len() && is_punct(
        s[i + 2],
        '!',
    ) && s[i + 3] is Group))
}

/// Whether every `~` in `t`'s contents opens a complete postfix link.
pub open spec fn token_links_complete(t: TokenModel) -> bool
    decreases t, 1nat,
{
    match t {
        TokenModel::Group { stream, .. } => links_complete(stream),
        _ => true,
    }
}

/// Whether every `~` in `s`, at top level or in any group, opens a complete
/// postfix link.
pub open spec fn links_complete(s: Seq<TokenModel>) -> bool
    decreases s, 0nat,
{
    forall|i: int|
        0 <= i < s.len() ==> (is_punct(#[trigger] s[i], '~') ==> tilde_in_link(s, i))
            && token_links_complete(s[i])
}

proof fn lemma_tilde_free_add(a: Seq<TokenModel>, b: Seq<TokenModel>)
    requires
        tilde_free(a),
        tilde_free(b),
    ensures
        tilde_free(a + b),
{
    assert forall|i: int| 0 <= i < (a + b).len() implies #[trigger] token_tilde_free((a + b)[i]) by {
        if i < a.len() {
            assert(token_tilde_free(a[i]));
        } else {
            assert(token_tilde_free(b[i - a.len()]));
        }
    }
}

proof fn lemma_tilde_free_push(a: Seq<TokenModel>, t: TokenModel)
    requires
        tilde_free(a),
        token_tilde_free(t),
    ensures
        tilde_free(a.push(t)),
{
    assert forall|i: int| 0 <= i < a.push(t).len() implies #[trigger] token_tilde_free(
        a.push(t)[i],
    ) by {
        if i < a.len() {
            assert(token_tilde_free(a[i]));
        }
    }
}

proof fn lemma_with_args_free(first: Seq<TokenModel>, args: Seq<TokenModel>, span: u64)
    requires
        tilde_free(first),
        tilde_free(args),
    ensures
        tilde_free(crate::rules::with_args(first, args, span)),
{
    if args.len() > 0 {
        lemma_tilde_free_push(first, crate::rules::comma(span));
        lemma_tilde_free_add(first.push(crate::rules::comma(span)), args);
    }
}

proof fn lemma_call_form_free(r: Seq<TokenModel>, name: TokenModel, group: TokenModel)
    requires
        tilde_free(r),
        name is Ident,
        group is Group,
        tilde_free(group->Group_stream),
    ensures
        tilde_free(call_form(r, name, group)),
{
    lemma_with_args_free(r, group->Group_stream, group->Group_span);
    let out = call_form(r, name, group);
    assert(token_tilde_free(out[0]));
    assert(token_tilde_free(out[1]));
}

proof fn lemma_macro_form_free(
    r: Seq<TokenModel>,
    name: TokenModel,
    bang: TokenModel,
    group: TokenModel,
)
    requires
        tilde_free(r),
        name is Ident,
        is_punct(bang, '!'),
        group is Group,
        tilde_free(group->Group_stream),
    ensures
        tilde_free(macro_form(r, name, bang, group)),
{
    let span = group->Group_span;
    let one = seq![placeholder(span)];
    assert(token_tilde_free(one[0]));
    lemma_with_args_free(one, group->Group_stream, span);
    let arm = macro_arm(name, bang, group);
    assert(token_tilde_free(arm[0]));
    assert(token_tilde_free(arm[1]));
    assert(token_tilde_free(arm[2]));
    assert(token_tilde_free(arm[3]));
    assert(token_tilde_free(arm[4]));
    assert(token_tilde_free(arm[5]));
    let head = seq![TokenModel::Ident { text: crate::rules::match_text(), span }];
    let tail = seq![TokenModel::Group { delim: Delimiter::Brace, stream: arm, span }];
    assert(token_tilde_free(head[0]));
    assert(token_tilde_free(tail[0]));
    lemma_tilde_free_add(head, r);
    lemma_tilde_free_add(head + r, tail);
}

/// What holds after scanning the first `k` tokens of a sequence whose `~`
/// all open complete links.
pub open spec fn links_scan_inv(s: Seq<TokenModel>, k: int, st: ScanModel) -> bool {
    &&& tilde_free(st.output)
    &&& tilde_free(st.receiver)
    &&& (st.phase is Tilde ==> k >= 1 && is_punct(s[k - 1], '.') && is_punct(
        st.phase->Tilde_dot,
        '.',
    ))
    &&& (st.phase is Name ==> k >= 1 && is_punct(s[k - 1], '~'))
    &&& (st.phase is InvokeForm ==> k >= 2 && is_punct(s[k - 2], '~')
        && st.phase->InvokeForm_name is Ident)
    &&& (st.phase is MacroGroup ==> k >= 3 && is_punct(s[k - 3], '~') && is_punct(s[k - 1], '!')
        && st.phase->MacroGroup_name is Ident && is_punct(st.phase->MacroGroup_bang, '!'))
    &&& (k >= 1 && is_punct(s[k - 1], '.') && (k < 2 || !is_punct(s[k - 2], '.'))
        ==> st.phase is Tilde)
}

proof fn lemma_links_scan(s: Seq<TokenModel>, k: int)
    requires
        links_complete(s),
        0 <= k <= s.len(),
    ensures
        links_scan_inv(s, k, scan(s.subrange(0, k))),
    decreases s, 0nat, k,
{
    if k == 0 {
        assert(s.subrange(0, 0) =~= Seq::<TokenModel>::empty());
    } else {
        let p = s.subrange(0, k - 1);
        let t = s[k - 1];
        lemma_links_scan(s, k - 1);
        assert(s.subrange(0, k) =~= p.push(t));
        lemma_scan_push(p, t);
        let st = scan(p);
        assert(token_links_complete(s[k - 1]));
        if k >= 2 {
            assert(token_links_complete(s[k - 2]));
        }
        if k >= 3 {
            assert(token_links_complete(s[k - 3]));
        }
        if k >= 4 {
            assert(token_links_complete(s[k - 4]));
        }
        if let TokenModel::Group { stream, .. } = t {
            assert(links_complete(stream));
            lemma_no_tilde_left(stream);
        }
        let d = deep(t);
        assert(!is_punct(t, '~') ==> token_tilde_free(d));
        match st.phase {
            PhaseModel::Receiver => {
                if !is_punct(t, '.') && (is_punct(t, ':') || !(t is Punct)) {
                    lemma_tilde_free_push(st.receiver, d);
                } else if !is_punct(t, '.') {
                    lemma_tilde_free_add(st.output, st.receiver);
                    assert(pending(st.phase).push(d) =~= seq![d]);
                    assert(token_tilde_free(seq![d][0]));
                    lemma_tilde_free_add(st.output + st.receiver, seq![d]);
                }
            },
            PhaseModel::Tilde { dot } => {
                assert(token_tilde_free(dot));
                if t is Ident {
                    lemma_tilde_free_push(st.receiver, dot);
                    lemma_tilde_free_push(st.receiver.push(dot), d);
                } else if !is_punct(t, '~') {
                    let tail = seq![dot, d];
                    assert(pending(st.phase).push(d) =~= tail);
                    assert(token_tilde_free(tail[0]));
                    assert(token_tilde_free(tail[1]));
                    lemma_tilde_free_add(st.output, st.receiver);
                    lemma_tilde_free_add(st.output + st.receiver, tail);
                }
            },
            PhaseModel::Name { .. } => {},
            PhaseModel::InvokeForm { name, .. } => {
                if is_paren_group(t) {
                    lemma_call_form_free(st.receiver, name, d);
                }
            },
            PhaseModel::MacroGroup { name, bang, .. } => {
                lemma_macro_form_free(st.receiver, name, bang, d);
            },
        }
    }
}

/// When every `~` in the input, at any depth, opens a complete postfix
/// link, the output holds no `~` at all, in any group: every link was
/// rewritten, those inside arguments included.
pub proof fn lemma_no_tilde_left(s: Seq<TokenModel>)
    requires
        links_complete(s),
    ensures
        tilde_free(desugar_model(s)),
    decreases s, 1nat, 0nat,
{
    let n = s.len() as int;
    lemma_links_scan(s, n);
    assert(s.subrange(0, n) =~= s);
    let st = scan(s);
    if n >= 1 {
        assert(token_links_complete(s[n - 1]));
    }
    if n >= 2 {
        assert(token_links_complete(s[n - 2]));
    }
    if n >= 3 {
        assert(token_links_complete(s[n - 3]));
    }
    lemma_tilde_free_add(st.output, st.receiver);
    if let PhaseModel::Tilde { dot } = st.phase {
        assert(pending(st.phase) =~= seq![dot]);
        assert(token_tilde_free(seq![dot][0]));
        lemma_tilde_free_add(st.output + st.receiver, seq![dot]);
    } else {
        assert(st.phase is Receiver);
        assert(st.output + st.receiver + pending(st.phase) =~= st.output + st.receiver);
    }
}

} // verus!
