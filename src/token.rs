use vstd::prelude::*;

verus! {

/// The bracket pair around a group.
#[derive(PartialEq, Eq, Structural, Clone, Copy, Debug)]
pub enum Delimiter {
    Parenthesis,
    Bracket,
    Brace,
}

/// One token tree. `span` is an opaque tag for the source position that the
/// caller attached; the desugarer copies it onto the tokens it derives.
#[derive(Debug)]
pub enum Token {
    Ident { text: String, span: u64 },
    Punct { ch: char, joint: bool, span: u64 },
    Literal { text: String, span: u64 },
    Group { delim: Delimiter, stream: Vec<Token>, span: u64 },
}

/// The mathematical value of a [`Token`].
pub enum TokenModel {
    Ident { text: Seq<char>, span: u64 },
    Punct { ch: char, joint: bool, span: u64 },
    Literal { text: Seq<char>, span: u64 },
    Group { delim: Delimiter, stream: Seq<TokenModel>, span: u64 },
}

impl Token {
    pub open spec fn view(&self) -> TokenModel
        decreases self,
    {
        match self {
            Token::Ident { text, span } => TokenModel::Ident { text: text@, span: *span },
            Token::Punct { ch, joint, span } => TokenModel::Punct {
                ch: *ch,
                joint: *joint,
                span: *span,
            },
            Token::Literal { text, span } => TokenModel::Literal { text: text@, span: *span },
            Token::Group { delim, stream, span } => TokenModel::Group {
                delim: *delim,
                stream: view_tokens(stream@),
                span: *span,
            },
        }
    }
}

/// The models of a sequence of tokens, element by element.
pub open spec fn view_tokens(s: Seq<Token>) -> Seq<TokenModel>
    decreases s,
{
    if s.len() == 0 {
        Seq::empty()
    } else {
        view_tokens(s.subrange(0, s.len() - 1)).push(s[s.len() - 1].view())
    }
}

pub proof fn lemma_view_tokens_len(s: Seq<Token>)
    ensures
        view_tokens(s).len() == s.len(),
    decreases s.len(),
{
    if s.len() > 0 {
        lemma_view_tokens_len(s.subrange(0, s.len() - 1));
    }
}

pub proof fn lemma_view_tokens_index(s: Seq<Token>, i: int)
    requires
        0 <= i < s.len(),
    ensures
        view_tokens(s)[i] == s[i]@,
    decreases s.len(),
{
    lemma_view_tokens_len(s.subrange(0, s.len() - 1));
    if i < s.len() - 1 {
        lemma_view_tokens_index(s.subrange(0, s.len() - 1), i);
    }
}

/// `view_tokens` agrees with mapping the view over each element.
pub proof fn lemma_view_tokens_pointwise(s: Seq<Token>)
    ensures
        view_tokens(s).len() == s.len(),
        forall|i: int| 0 <= i < s.len() ==> #[trigger] view_tokens(s)[i] == s[i]@,
{
    lemma_view_tokens_len(s);
    assert forall|i: int| 0 <= i < s.len() implies #[trigger] view_tokens(s)[i] == s[i]@ by {
        lemma_view_tokens_index(s, i);
    }
}

pub proof fn lemma_view_tokens_push(s: Seq<Token>, t: Token)
    ensures
        view_tokens(s.push(t)) == view_tokens(s).push(t@),
{
    assert(s.push(t).subrange(0, s.len() as int) =~= s);
}

pub proof fn lemma_view_tokens_add(a: Seq<Token>, b: Seq<Token>)
    ensures
        view_tokens(a + b) == view_tokens(a) + view_tokens(b),
{
    lemma_view_tokens_pointwise(a);
    lemma_view_tokens_pointwise(b);
    lemma_view_tokens_pointwise(a + b);
    assert(view_tokens(a + b) =~= view_tokens(a) + view_tokens(b));
}

} // verus!
