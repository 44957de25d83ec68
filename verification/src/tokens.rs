//! The tokens of an attribute's arguments, as far as the argument parser
//! reads them.

use crate::text::{same_text, texts};
use proc_macro2::{TokenStream, TokenTree};
use vstd::prelude::*;

verus! {

/// What stands at one place of the input.
#[derive(Debug, PartialEq)]
pub enum RawToken {
    /// An identifier or a keyword, by its text.
    Ident(String),
    /// One character of punctuation.
    Punct(char),
    /// A group: the name of its kind of delimiter, which is `Parenthesis` for
    /// round brackets, and the text of what it holds.
    Group { delimiter: String, content: String },
    /// A literal, by its text.
    Literal(String),
}

/// One token as the lexer hands it out, with the text of the input from
/// this token to the end.
#[derive(Debug, PartialEq)]
pub struct RawLexeme {
    pub token: RawToken,
    pub tail: String,
}

/// What the argument parser reads of a token.
#[derive(Debug, PartialEq)]
pub enum Token {
    /// An identifier by its text; `accepted` is false where it is a keyword.
    Ident { name: String, accepted: bool },
    /// One character of punctuation.
    Punct { ch: char },
    /// A group in round brackets: the items of the list it holds, each by
    /// its text, or what is wrong with the list.
    Paren { items: Result<Vec<String>, String> },
    /// Any other token.
    Other,
}

/// One token of the input, with the text of the input from this token to
/// the end.
#[derive(Debug, PartialEq)]
pub struct Lexeme {
    pub token: Token,
    pub tail: String,
}

/// The texts of a list of items, or the text of what is wrong with it.
pub open spec fn list_view(items: Result<Vec<String>, String>) -> Result<
    Seq<Seq<char>>,
    Seq<char>,
> {
    match items {
        Ok(list) => Ok(texts(list@)),
        Err(problem) => Err(problem@),
    }
}

/// A raw token without the strings that hold its texts.
pub enum RawTokenView {
    Ident(Seq<char>),
    Punct(char),
    Group { delimiter: Seq<char>, content: Seq<char> },
    Literal(Seq<char>),
}

/// A raw lexeme without the strings that hold its texts.
pub struct RawLexemeView {
    pub token: RawTokenView,
    pub tail: Seq<char>,
}

impl View for RawToken {
    type V = RawTokenView;

    open spec fn view(&self) -> RawTokenView {
        match self {
            RawToken::Ident(s) => RawTokenView::Ident(s@),
            RawToken::Punct(c) => RawTokenView::Punct(*c),
            RawToken::Group { delimiter, content } => RawTokenView::Group {
                delimiter: delimiter@,
                content: content@,
            },
            RawToken::Literal(s) => RawTokenView::Literal(s@),
        }
    }
}

impl View for RawLexeme {
    type V = RawLexemeView;

    open spec fn view(&self) -> RawLexemeView {
        RawLexemeView { token: self.token@, tail: self.tail@ }
    }
}

/// The views of a list of raw lexemes.
pub open spec fn raw_views(list: Seq<RawLexeme>) -> Seq<RawLexemeView> {
    Seq::new(list.len(), |i: int| list[i]@)
}

/// The views of a list of raw lexemes, where there is a list.
pub open spec fn raw_list_view(list: Option<Vec<RawLexeme>>) -> Option<Seq<RawLexemeView>> {
    match list {
        Some(list) => Some(raw_views(list@)),
        None => None,
    }
}

/// A token without the strings that hold its texts.
pub enum TokenView {
    Ident { name: Seq<char>, accepted: bool },
    Punct { ch: char },
    Paren { items: Result<Seq<Seq<char>>, Seq<char>> },
    Other,
}

/// A lexeme without the strings that hold its texts.
pub struct LexemeView {
    pub token: TokenView,
    pub tail: Seq<char>,
}

impl View for Token {
    type V = TokenView;

    open spec fn view(&self) -> TokenView {
        match self {
            Token::Ident { name, accepted } => TokenView::Ident {
                name: name@,
                accepted: *accepted,
            },
            Token::Punct { ch } => TokenView::Punct { ch: *ch },
            Token::Paren { items } => TokenView::Paren { items: list_view(*items) },
            Token::Other => TokenView::Other,
        }
    }
}

impl View for Lexeme {
    type V = LexemeView;

    open spec fn view(&self) -> LexemeView {
        LexemeView { token: self.token@, tail: self.tail@ }
    }
}

/// The views of a list of lexemes.
pub open spec fn views(list: Seq<Lexeme>) -> Seq<LexemeView> {
    Seq::new(list.len(), |i: int| list[i]@)
}

/// The tokens that the lexer of `proc_macro2` finds in a text, each with the
/// text of the input from it to the end; `None` where the text does not lex.
///
/// `proc_macro2` is built without its bridge to the compiler, so that its own
/// lexer and printer do the work in every process.
pub uninterp spec fn lexed(text: Seq<char>) -> Option<Seq<RawLexemeView>>;

/// Whether `syn` takes an identifier with this text for an identifier, which
/// it does unless the text is a keyword or a lone underscore.
pub uninterp spec fn ident_accepted(name: Seq<char>) -> bool;

/// What `syn` reads in the text of a group as a list of attribute
/// arguments with commas between: the items, each by its text, or the error
/// in the form that `{:?}` gives it.
pub uninterp spec fn meta_list(content: Seq<char>) -> Result<Seq<Seq<char>>, Seq<char>>;

/// `proc_macro2::TokenStream::from_str`, then the token trees of the stream
/// in order. Each is told apart by its variant and handed out by its text: an
/// identifier and a literal by `to_string`, a punctuation mark by `as_char`,
/// a group by the `{:?}` of its `delimiter`, which is the name of the
/// variant, and the `to_string` of its `stream`. The tail of each is the
/// `to_string` of the stream that holds it and the trees after it.
#[verifier::external_body]
pub(crate) fn lex(text: &str) -> (tokens: Option<Vec<RawLexeme>>)
    ensures
        lexed(text@) == raw_list_view(tokens),
{
    let stream: TokenStream = text.parse().ok()?;
    let trees: Vec<TokenTree> = stream.into_iter().collect();
    Some((0..trees.len()).map(|i| RawLexeme {
        token: match &trees[i] {
            TokenTree::Ident(ident) => RawToken::Ident(ident.to_string()),
            TokenTree::Punct(punct) => RawToken::Punct(punct.as_char()),
            TokenTree::Literal(literal) => RawToken::Literal(literal.to_string()),
            TokenTree::Group(group) => RawToken::Group {
                delimiter: format!("{:?}", group.delimiter()),
                content: group.stream().to_string(),
            },
        },
        tail: trees[i..].iter().cloned().collect::<TokenStream>().to_string(),
    }).collect())
}

/// `syn::parse_str::<syn::Ident>` succeeds on the text of an identifier
/// exactly where `syn` accepts it as one.
#[verifier::external_body]
pub(crate) fn accepts_ident(name: &str) -> (accepted: bool)
    ensures
        accepted == ident_accepted(name@),
{
    syn::parse_str::<syn::Ident>(name).is_ok()
}

/// `Punctuated::<Meta, Token![,]>::parse_terminated` of `syn`, run on the
/// text of a group: on success each item by the `to_string` of its tokens, on
/// failure the error as `{:?}` formats it.
#[verifier::external_body]
pub(crate) fn parse_meta_list(content: &str) -> (items: Result<Vec<String>, String>)
    ensures
        list_view(items) == meta_list(content@),
{
    let parser = syn::punctuated::Punctuated::<syn::Meta, syn::token::Comma>::parse_terminated;
    match syn::parse::Parser::parse_str(parser, content) {
        Ok(list) => Ok(
            list.into_iter().map(|meta| quote::ToTokens::to_token_stream(&meta).to_string()).collect(),
        ),
        Err(error) => Err(format!("{:?}", error)),
    }
}

/// What the argument parser reads of a raw token: whether an identifier is
/// accepted, and the list that a group in round brackets holds.
pub open spec fn read_token(raw: RawTokenView) -> TokenView {
    match raw {
        RawTokenView::Ident(name) => TokenView::Ident { name, accepted: ident_accepted(name) },
        RawTokenView::Punct(ch) => TokenView::Punct { ch },
        RawTokenView::Group { delimiter, content } => if delimiter == "Parenthesis"@ {
            TokenView::Paren { items: meta_list(content) }
        } else {
            TokenView::Other
        },
        RawTokenView::Literal(_) => TokenView::Other,
    }
}

/// The lexemes that the argument parser reads, one for each raw lexeme.
pub open spec fn read_all(raw: Seq<RawLexemeView>) -> Seq<LexemeView> {
    Seq::new(raw.len(), |i: int| LexemeView { token: read_token(raw[i].token), tail: raw[i].tail })
}

/// Reads one raw lexeme.
pub fn read_lexeme(raw: &RawLexeme) -> (lexeme: Lexeme)
    ensures
        lexeme@ == (LexemeView { token: read_token(raw.token@), tail: raw.tail@ }),
{
    let token = match &raw.token {
        RawToken::Ident(name) => {
            let accepted = accepts_ident(name.as_str());
            Token::Ident { name: name.clone(), accepted }
        },
        RawToken::Punct(ch) => Token::Punct { ch: *ch },
        RawToken::Group { delimiter, content } => {
            if same_text(delimiter.as_str(), "Parenthesis") {
                Token::Paren { items: parse_meta_list(content.as_str()) }
            } else {
                Token::Other
            }
        },
        RawToken::Literal(_) => Token::Other,
    };
    Lexeme { token, tail: raw.tail.clone() }
}

/// Reads every raw lexeme of a list, in order.
pub fn read_lexemes(raw: &Vec<RawLexeme>) -> (lexemes: Vec<Lexeme>)
    ensures
        views(lexemes@) == read_all(raw_views(raw@)),
{
    let mut lexemes: Vec<Lexeme> = Vec::new();
    let mut i: usize = 0;
    while i < raw.len()
        invariant
            i <= raw.len(),
            lexemes.len() == i,
            forall|j: int|
                0 <= j < i ==> (#[trigger] lexemes[j])@ == (LexemeView {
                    token: read_token(raw[j].token@),
                    tail: raw[j].tail@,
                }),
        decreases raw.len() - i,
    {
        lexemes.push(read_lexeme(&raw[i]));
        i += 1;
    }
    assert(views(lexemes@) == read_all(raw_views(raw@)));
    lexemes
}

/// The tokens of `text` as the argument parser reads them; `None` where the
/// text does not lex.
pub fn tokenize(text: &str) -> (lexemes: Option<Vec<Lexeme>>)
    ensures
        lexemes is Some <==> lexed(text@) is Some,
        lexemes matches Some(list) ==> views(list@) == read_all(lexed(text@)->0),
{
    match lex(text) {
        Some(raw) => Some(read_lexemes(&raw)),
        None => None,
    }
}

} // verus!
