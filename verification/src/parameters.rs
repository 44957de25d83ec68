//! The arguments of the instrumentation attribute: which result of a function
//! is logged, whether its parameters are, and which of them are left out.
//!
//! The arguments are a list of items with commas between. An item is a lone
//! identifier (`err`, `ok`, `ret`, `skip_all`), a list in round brackets after
//! a name (`skip(a, b)`), or a pair `name=value`.

use crate::text::{pair_texts, same_text, texts, Describe};
use crate::tokens::{lexed, read_all, tokenize, views, Lexeme, LexemeView, Token, TokenView};
use vstd::prelude::*;

verus! {

/// Options for logging the returned value of a function.
#[derive(Debug, PartialEq, Clone, Copy)]
pub enum ReturnLogOptions {
    /// Ignores the return value: it is not logged, even if the function logs
    /// at its end.
    Skip,
    /// Provided the function returns a `Result`, logs only if it is `Err`.
    LogErrOnly,
    /// Provided the function returns a `Result`, logs only if it is `Ok`.
    LogOkOnly,
    /// Logs either variant of the `Result` that the function returns.
    LogResult,
    /// Logs the return value of a function that does not return a `Result`.
    LogNonFallible,
}

/// The arguments of the instrumentation attribute.
#[derive(Debug, PartialEq)]
pub struct MacroArgs {
    pub log_return: ReturnLogOptions,
    pub log_parameters: bool,
    pub parameters_to_skip: Vec<String>,
    pub custom_params: Vec<(String, String)>,
}

/// The arguments without the strings that hold their texts.
pub struct MacroArgsView {
    pub log_return: ReturnLogOptions,
    pub log_parameters: bool,
    pub parameters_to_skip: Seq<Seq<char>>,
    pub custom_params: Seq<(Seq<char>, Seq<char>)>,
}

impl View for MacroArgs {
    type V = MacroArgsView;

    open spec fn view(&self) -> MacroArgsView {
        MacroArgsView {
            log_return: self.log_return,
            log_parameters: self.log_parameters,
            parameters_to_skip: texts(self.parameters_to_skip@),
            custom_params: pair_texts(self.custom_params@),
        }
    }
}

/// The arguments of an attribute without arguments: no result is logged,
/// every parameter is.
pub open spec fn default_args() -> MacroArgsView {
    MacroArgsView {
        log_return: ReturnLogOptions::Skip,
        log_parameters: true,
        parameters_to_skip: Seq::empty(),
        custom_params: Seq::empty(),
    }
}

impl Default for MacroArgs {
    fn default() -> (args: MacroArgs)
        ensures
            args@ == default_args(),
    {
        let args = MacroArgs {
            log_return: ReturnLogOptions::Skip,
            log_parameters: true,
            parameters_to_skip: Vec::new(),
            custom_params: Vec::new(),
        };
        assert(args@.parameters_to_skip == Seq::<Seq<char>>::empty());
        assert(args@.custom_params == Seq::<(Seq<char>, Seq<char>)>::empty());
        args
    }
}

/// What stands where the value of a `name=value` pair should stand.
#[derive(Debug, PartialEq)]
pub enum ValueProblem {
    /// Nothing: the input ends after the `=`.
    EndOfInput,
    /// A keyword.
    Keyword { name: String },
    /// A token that is no identifier.
    NotIdentifier,
}

/// Why a text is not a list of arguments.
#[derive(Debug, PartialEq)]
pub enum ParseError {
    /// The text is no sequence of tokens.
    Lex,
    /// More than one of `err`, `ok` and `ret`.
    IdentifierCombination,
    /// More than one of `skip` and `skip_all`, or one of them twice.
    SkipCombination,
    /// A lone identifier that is none of the four known ones.
    UnknownIdentifier { name: String },
    /// A list in round brackets after a name other than `skip`.
    UnknownFunc { name: String },
    /// The list of `skip` is no list of attribute arguments.
    SkipList { reason: String },
    /// No value after the `=` of the pair that starts with `name`.
    Value { name: String, problem: ValueProblem },
    /// After an identifier stands `rest`, which starts with neither a comma,
    /// a round bracket nor `=`.
    Parameter { rest: String },
    /// An item of the list starts with a token that is no identifier; `rest`
    /// is the input from there.
    IdentifierExpected { rest: String },
}

/// A value problem without the strings that hold its texts.
pub enum ValueProblemView {
    EndOfInput,
    Keyword { name: Seq<char> },
    NotIdentifier,
}

/// A parse error without the strings that hold its texts.
pub enum ParseErrorView {
    Lex,
    IdentifierCombination,
    SkipCombination,
    UnknownIdentifier { name: Seq<char> },
    UnknownFunc { name: Seq<char> },
    SkipList { reason: Seq<char> },
    Value { name: Seq<char>, problem: ValueProblemView },
    Parameter { rest: Seq<char> },
    IdentifierExpected { rest: Seq<char> },
}

impl View for ValueProblem {
    type V = ValueProblemView;

    open spec fn view(&self) -> ValueProblemView {
        match self {
            ValueProblem::EndOfInput => ValueProblemView::EndOfInput,
            ValueProblem::Keyword { name } => ValueProblemView::Keyword { name: name@ },
            ValueProblem::NotIdentifier => ValueProblemView::NotIdentifier,
        }
    }
}

impl View for ParseError {
    type V = ParseErrorView;

    open spec fn view(&self) -> ParseErrorView {
        match self {
            ParseError::Lex => ParseErrorView::Lex,
            ParseError::IdentifierCombination => ParseErrorView::IdentifierCombination,
            ParseError::SkipCombination => ParseErrorView::SkipCombination,
            ParseError::UnknownIdentifier { name } => ParseErrorView::UnknownIdentifier {
                name: name@,
            },
            ParseError::UnknownFunc { name } => ParseErrorView::UnknownFunc { name: name@ },
            ParseError::SkipList { reason } => ParseErrorView::SkipList { reason: reason@ },
            ParseError::Value { name, problem } => ParseErrorView::Value {
                name: name@,
                problem: problem@,
            },
            ParseError::Parameter { rest } => ParseErrorView::Parameter { rest: rest@ },
            ParseError::IdentifierExpected { rest } => ParseErrorView::IdentifierExpected {
                rest: rest@,
            },
        }
    }
}

/// The text of `s` as `{:?}` writes a string: in double quotes, with what
/// cannot stand there as it is written as an escape.
pub uninterp spec fn debug_text(s: Seq<char>) -> Seq<char>;

/// `format!` with `{:?}` on a string slice, which is `Debug` of `str`.
#[verifier::external_body]
fn debug_of(text: &str) -> (quoted: String)
    ensures
        quoted@ == debug_text(text@),
{
    format!("{:?}", text)
}

/// What the parser of identifiers says of a value problem.
pub open spec fn problem_text(problem: ValueProblemView) -> Seq<char> {
    match problem {
        ValueProblemView::EndOfInput => "Error(\"unexpected end of input, expected identifier\")"@,
        ValueProblemView::Keyword { name } => "Error(\"expected identifier, found keyword `"@
            + name + "`\")"@,
        ValueProblemView::NotIdentifier => "Error(\"expected identifier\")"@,
    }
}

/// The message of a parse error.
pub open spec fn message_text(error: ParseErrorView) -> Seq<char> {
    match error {
        ParseErrorView::Lex => "cannot parse string into token stream"@,
        ParseErrorView::IdentifierCombination => "Invalid identifier combination: only one of `err`, `ok` and `ret` may be specified"@,
        ParseErrorView::SkipCombination => "Invalid `skip` / `skip_all` combination: only one them may specified -- and just once"@,
        ParseErrorView::UnknownIdentifier { name } => "Unknown identifier parameter '"@ + name
            + "' -- known ones are: 'err', 'ok', 'ret', 'skip_all'"@,
        ParseErrorView::UnknownFunc { name } => "Unknown func parameter '"@ + name
            + "' -- known one is: 'skip'"@,
        ParseErrorView::SkipList { reason } => "While parsing `skip`: "@ + reason,
        ParseErrorView::Value {
            name,
            problem,
        } => "Can't parse `val` for custom `name`=`val` parameter for name '"@ + name + "': "@
            + problem_text(problem),
        ParseErrorView::Parameter { rest } => "Can't parse parameter "@ + debug_text(rest)
            + " -- parameters should either be in the forms name=value, name(values_list) or name (standalone identifiers)"@,
        ParseErrorView::IdentifierExpected {
            rest,
        } => "Can't the reminder of the parameters. An Identifier was expected next: "@ + rest,
    }
}

impl ValueProblem {
    /// What the parser of identifiers says of this problem.
    pub fn message(&self) -> (text: String)
        ensures
            text@ == problem_text(self@),
    {
        match self {
            ValueProblem::EndOfInput => "Error(\"unexpected end of input, expected identifier\")".to_owned(),
            ValueProblem::Keyword { name } => {
                let mut text = "Error(\"expected identifier, found keyword `".to_owned();
                text.append(name.as_str());
                text.append("`\")");
                text
            },
            ValueProblem::NotIdentifier => "Error(\"expected identifier\")".to_owned(),
        }
    }
}

impl ParseError {
    /// The message of this error.
    pub fn message(&self) -> (text: String)
        ensures
            text@ == message_text(self@),
    {
        match self {
            ParseError::Lex => "cannot parse string into token stream".to_owned(),
            ParseError::IdentifierCombination => "Invalid identifier combination: only one of `err`, `ok` and `ret` may be specified".to_owned(),
            ParseError::SkipCombination => "Invalid `skip` / `skip_all` combination: only one them may specified -- and just once".to_owned(),
            ParseError::UnknownIdentifier { name } => {
                let mut text = "Unknown identifier parameter '".to_owned();
                text.append(name.as_str());
                text.append("' -- known ones are: 'err', 'ok', 'ret', 'skip_all'");
                text
            },
            ParseError::UnknownFunc { name } => {
                let mut text = "Unknown func parameter '".to_owned();
                text.append(name.as_str());
                text.append("' -- known one is: 'skip'");
                text
            },
            ParseError::SkipList { reason } => {
                let mut text = "While parsing `skip`: ".to_owned();
                text.append(reason.as_str());
                text
            },
            ParseError::Value { name, problem } => {
                let mut text = "Can't parse `val` for custom `name`=`val` parameter for name '".to_owned();
                text.append(name.as_str());
                text.append("': ");
                text.append(problem.message().as_str());
                text
            },
            ParseError::Parameter { rest } => {
                let mut text = "Can't parse parameter ".to_owned();
                text.append(debug_of(rest.as_str()).as_str());
                text.append(
                    " -- parameters should either be in the forms name=value, name(values_list) or name (standalone identifiers)",
                );
                text
            },
            ParseError::IdentifierExpected { rest } => {
                let mut text = "Can't the reminder of the parameters. An Identifier was expected next: ".to_owned();
                text.append(rest.as_str());
                text
            },
        }
    }
}

impl Describe for ParseError {
    fn describe(&self) -> (text: String)
        ensures
            text@ == message_text(self@),
    {
        self.message()
    }
}

/// The outcome of a parse without the strings that hold its texts.
pub open spec fn outcome_view(outcome: Result<MacroArgs, ParseError>) -> Result<
    MacroArgsView,
    ParseErrorView,
> {
    match outcome {
        Ok(args) => Ok(args@),
        Err(error) => Err(error@),
    }
}

/// What the parser knows after some items: the arguments so far, and whether
/// an item has already chosen the result to log, or the parameters to skip.
pub struct ParseState {
    pub args: MacroArgsView,
    pub log_return_set: bool,
    pub skip_set: bool,
}

/// The state before the first item.
pub open spec fn initial_state() -> ParseState {
    ParseState { args: default_args(), log_return_set: false, skip_set: false }
}

/// The state after an item that chooses `option` as the result to log: an
/// error if an earlier item chose already.
pub open spec fn choose_return(state: ParseState, option: ReturnLogOptions) -> Result<
    ParseState,
    ParseErrorView,
> {
    if state.log_return_set {
        Err(ParseErrorView::IdentifierCombination)
    } else {
        Ok(
            ParseState {
                args: MacroArgsView {
                    log_return: option,
                    log_parameters: state.args.log_parameters,
                    parameters_to_skip: state.args.parameters_to_skip,
                    custom_params: state.args.custom_params,
                },
                log_return_set: true,
                skip_set: state.skip_set,
            },
        )
    }
}

/// The state after the lone identifier `name`.
pub open spec fn standalone(name: Seq<char>, state: ParseState) -> Result<
    ParseState,
    ParseErrorView,
> {
    if name == "err"@ {
        choose_return(state, ReturnLogOptions::LogErrOnly)
    } else if name == "ok"@ {
        choose_return(state, ReturnLogOptions::LogResult)
    } else if name == "ret"@ {
        choose_return(state, ReturnLogOptions::LogNonFallible)
    } else if name == "skip_all"@ {
        if state.skip_set {
            Err(ParseErrorView::SkipCombination)
        } else {
            Ok(
                ParseState {
                    args: MacroArgsView {
                        log_return: state.args.log_return,
                        log_parameters: false,
                        parameters_to_skip: state.args.parameters_to_skip,
                        custom_params: state.args.custom_params,
                    },
                    log_return_set: state.log_return_set,
                    skip_set: true,
                },
            )
        }
    } else {
        Err(ParseErrorView::UnknownIdentifier { name })
    }
}

/// The state after the name `name` with the list `items` in round brackets.
pub open spec fn func(
    name: Seq<char>,
    items: Result<Seq<Seq<char>>, Seq<char>>,
    state: ParseState,
) -> Result<ParseState, ParseErrorView> {
    if name == "skip"@ {
        if state.skip_set {
            Err(ParseErrorView::SkipCombination)
        } else {
            match items {
                Err(reason) => Err(ParseErrorView::SkipList { reason }),
                Ok(list) => Ok(
                    ParseState {
                        args: MacroArgsView {
                            log_return: state.args.log_return,
                            log_parameters: true,
                            parameters_to_skip: list,
                            custom_params: state.args.custom_params,
                        },
                        log_return_set: state.log_return_set,
                        skip_set: true,
                    },
                ),
            }
        }
    } else {
        Err(ParseErrorView::UnknownFunc { name })
    }
}

/// The state after the pair of `name` and the value that stands at `at`.
pub open spec fn pair(tokens: Seq<LexemeView>, at: int, name: Seq<char>, state: ParseState)
    -> Result<ParseState, ParseErrorView> {
    if at >= tokens.len() {
        Err(ParseErrorView::Value { name, problem: ValueProblemView::EndOfInput })
    } else {
        match tokens[at].token {
            TokenView::Ident { name: value, accepted } => if accepted {
                Ok(
                    ParseState {
                        args: MacroArgsView {
                            log_return: state.args.log_return,
                            log_parameters: state.args.log_parameters,
                            parameters_to_skip: state.args.parameters_to_skip,
                            custom_params: state.args.custom_params.push((name, value)),
                        },
                        log_return_set: state.log_return_set,
                        skip_set: state.skip_set,
                    },
                )
            } else {
                Err(
                    ParseErrorView::Value {
                        name,
                        problem: ValueProblemView::Keyword { name: value },
                    },
                )
            },
            _ => Err(ParseErrorView::Value { name, problem: ValueProblemView::NotIdentifier }),
        }
    }
}

/// A comma stands at `at`.
pub open spec fn comma_at(tokens: Seq<LexemeView>, at: int) -> bool {
    0 <= at < tokens.len() && tokens[at].token == (TokenView::Punct { ch: ',' })
}

/// The place after the comma at `at`, if one stands there, else `at`.
pub open spec fn past_comma(tokens: Seq<LexemeView>, at: int) -> int {
    if comma_at(tokens, at) {
        at + 1
    } else {
        at
    }
}

/// The item that starts at `at`: the state after it and the place where it
/// ends, or why it is no item.
///
/// An item starts with an accepted identifier. Where the input ends after it
/// or a comma follows, it is a lone identifier, and the comma belongs to it.
/// Where a group in round brackets follows, the item is a list; where `=`
/// follows, it is a pair.
pub open spec fn item(tokens: Seq<LexemeView>, at: int, state: ParseState) -> Result<
    (ParseState, int),
    ParseErrorView,
> {
    match tokens[at].token {
        TokenView::Ident { name, accepted: true } => {
            if at + 1 >= tokens.len() || comma_at(tokens, at + 1) {
                match standalone(name, state) {
                    Ok(next) => Ok((next, past_comma(tokens, at + 1))),
                    Err(error) => Err(error),
                }
            } else {
                match tokens[at + 1].token {
                    TokenView::Paren { items } => match func(name, items, state) {
                        Ok(next) => Ok((next, at + 2)),
                        Err(error) => Err(error),
                    },
                    TokenView::Punct { ch: '=' } => match pair(tokens, at + 2, name, state) {
                        Ok(next) => Ok((next, at + 3)),
                        Err(error) => Err(error),
                    },
                    _ => Err(ParseErrorView::Parameter { rest: tokens[at + 1].tail }),
                }
            }
        },
        _ => Err(ParseErrorView::IdentifierExpected { rest: tokens[at].tail }),
    }
}

/// The arguments that the tokens from `at` on add to `state`: item after
/// item, with one comma after each item skipped where one stands there. The
/// first item that fails decides the error.
pub open spec fn parse_from(tokens: Seq<LexemeView>, at: int, state: ParseState) -> Result<
    MacroArgsView,
    ParseErrorView,
>
    decreases tokens.len() - at,
{
    if at < 0 || at >= tokens.len() {
        Ok(state.args)
    } else {
        match item(tokens, at, state) {
            Err(error) => Err(error),
            Ok((next, end)) => parse_from(tokens, past_comma(tokens, end), next),
        }
    }
}

/// The arguments that a list of tokens spells, or why it spells none.
pub open spec fn parsed(tokens: Seq<LexemeView>) -> Result<MacroArgsView, ParseErrorView> {
    parse_from(tokens, 0, initial_state())
}

/// The arguments that a text spells, or why it spells none.
pub open spec fn parsed_text(text: Seq<char>) -> Result<MacroArgsView, ParseErrorView> {
    match lexed(text) {
        Some(raw) => parsed(read_all(raw)),
        None => Err(ParseErrorView::Lex),
    }
}

/// A copy of a list of strings.
fn copy_of(list: &Vec<String>) -> (copy: Vec<String>)
    ensures
        texts(copy@) == texts(list@),
{
    let mut copy: Vec<String> = Vec::new();
    let mut i: usize = 0;
    while i < list.len()
        invariant
            i <= list.len(),
            copy.len() == i,
            forall|j: int| 0 <= j < i ==> (#[trigger] copy[j])@ == list[j]@,
        decreases list.len() - i,
    {
        copy.push(list[i].clone());
        i += 1;
    }
    assert(texts(copy@) == texts(list@));
    copy
}

/// A comma stands at `at`.
fn is_comma_at(tokens: &Vec<Lexeme>, at: usize) -> (comma: bool)
    ensures
        comma == comma_at(views(tokens@), at as int),
{
    if at < tokens.len() {
        match &tokens[at].token {
            Token::Punct { ch } => *ch == ',',
            _ => false,
        }
    } else {
        false
    }
}

/// What the parser holds while it reads: the arguments so far, and whether
/// an item has already chosen the result to log, or the parameters to skip.
struct Parser {
    args: MacroArgs,
    log_return_set: bool,
    skip_set: bool,
}

impl View for Parser {
    type V = ParseState;

    closed spec fn view(&self) -> ParseState {
        ParseState {
            args: self.args@,
            log_return_set: self.log_return_set,
            skip_set: self.skip_set,
        }
    }
}

/// The state that a step of the parser leads to, or the error that ends it.
spec fn step_view(step: Result<Parser, ParseError>) -> Result<ParseState, ParseErrorView> {
    match step {
        Ok(parser) => Ok(parser@),
        Err(error) => Err(error@),
    }
}

/// The state and the place that an item leads to, or the error that ends
/// the parse.
spec fn item_view(step: Result<(Parser, usize), ParseError>) -> Result<
    (ParseState, int),
    ParseErrorView,
> {
    match step {
        Ok((parser, end)) => Ok((parser@, end as int)),
        Err(error) => Err(error@),
    }
}

impl Parser {
    /// The parser before the first item.
    fn new() -> (parser: Parser)
        ensures
            parser@ == initial_state(),
    {
        Parser { args: MacroArgs::default(), log_return_set: false, skip_set: false }
    }

    /// Reads an item that chooses `option` as the result to log.
    fn choose_return(self, option: ReturnLogOptions) -> (step: Result<Parser, ParseError>)
        ensures
            step_view(step) == choose_return(self@, option),
    {
        if self.log_return_set {
            Err(ParseError::IdentifierCombination)
        } else {
            let mut parser = self;
            parser.args.log_return = option;
            parser.log_return_set = true;
            Ok(parser)
        }
    }

    /// Reads the lone identifier `name`.
    fn standalone(self, name: &String) -> (step: Result<Parser, ParseError>)
        ensures
            step_view(step) == standalone(name@, self@),
    {
        if same_text(name.as_str(), "err") {
            self.choose_return(ReturnLogOptions::LogErrOnly)
        } else if same_text(name.as_str(), "ok") {
            self.choose_return(ReturnLogOptions::LogResult)
        } else if same_text(name.as_str(), "ret") {
            self.choose_return(ReturnLogOptions::LogNonFallible)
        } else if same_text(name.as_str(), "skip_all") {
            if self.skip_set {
                Err(ParseError::SkipCombination)
            } else {
                let mut parser = self;
                parser.args.log_parameters = false;
                parser.skip_set = true;
                Ok(parser)
            }
        } else {
            Err(ParseError::UnknownIdentifier { name: name.clone() })
        }
    }

    /// Reads the name `name` with the list `items` in round brackets.
    fn func(self, name: &String, items: &Result<Vec<String>, String>) -> (step: Result<
        Parser,
        ParseError,
    >)
        ensures
            step_view(step) == func(name@, crate::tokens::list_view(*items), self@),
    {
        if same_text(name.as_str(), "skip") {
            if self.skip_set {
                Err(ParseError::SkipCombination)
            } else {
                match items {
                    Err(reason) => Err(ParseError::SkipList { reason: reason.clone() }),
                    Ok(list) => {
                        let mut parser = self;
                        parser.args.parameters_to_skip = copy_of(list);
                        parser.args.log_parameters = true;
                        parser.skip_set = true;
                        Ok(parser)
                    },
                }
            }
        } else {
            Err(ParseError::UnknownFunc { name: name.clone() })
        }
    }

    /// Reads the pair of `name` and the value that stands at `at`.
    fn pair(self, tokens: &Vec<Lexeme>, at: usize, name: &String) -> (step: Result<
        Parser,
        ParseError,
    >)
        ensures
            step_view(step) == pair(views(tokens@), at as int, name@, self@),
    {
        if at >= tokens.len() {
            return Err(ParseError::Value { name: name.clone(), problem: ValueProblem::EndOfInput });
        }
        assert(views(tokens@)[at as int] == tokens[at as int]@);
        match &tokens[at].token {
            Token::Ident { name: value, accepted } => {
                if *accepted {
                    let mut parser = self;
                    let ghost pairs = parser.args.custom_params@;
                    parser.args.custom_params.push((name.clone(), value.clone()));
                    assert(pair_texts(parser.args.custom_params@) == pair_texts(pairs).push(
                        (name@, value@),
                    ));
                    Ok(parser)
                } else {
                    Err(
                        ParseError::Value {
                            name: name.clone(),
                            problem: ValueProblem::Keyword { name: value.clone() },
                        },
                    )
                }
            },
            _ => Err(
                ParseError::Value { name: name.clone(), problem: ValueProblem::NotIdentifier },
            ),
        }
    }

    /// Reads the item that starts at `at`.
    fn item(self, tokens: &Vec<Lexeme>, at: usize) -> (step: Result<(Parser, usize), ParseError>)
        requires
            at < tokens.len(),
        ensures
            item_view(step) == item(views(tokens@), at as int, self@),
            step matches Ok((_, end)) ==> at < end <= tokens.len(),
    {
        assert(views(tokens@)[at as int] == tokens[at as int]@);
        match &tokens[at].token {
            Token::Ident { name, accepted: true } => {
                if at + 1 >= tokens.len() || is_comma_at(tokens, at + 1) {
                    let end: usize = if is_comma_at(tokens, at + 1) {
                        at + 2
                    } else {
                        at + 1
                    };
                    match self.standalone(name) {
                        Ok(parser) => Ok((parser, end)),
                        Err(error) => Err(error),
                    }
                } else {
                    assert(views(tokens@)[at + 1] == tokens[at + 1]@);
                    match &tokens[at + 1].token {
                        Token::Paren { items } => match self.func(name, items) {
                            Ok(parser) => Ok((parser, at + 2)),
                            Err(error) => Err(error),
                        },
                        Token::Punct { ch: '=' } => match self.pair(tokens, at + 2, name) {
                            Ok(parser) => Ok((parser, at + 3)),
                            Err(error) => Err(error),
                        },
                        _ => Err(ParseError::Parameter { rest: tokens[at + 1].tail.clone() }),
                    }
                }
            },
            _ => Err(ParseError::IdentifierExpected { rest: tokens[at].tail.clone() }),
        }
    }
}

impl MacroArgs {
    /// The arguments that a list of tokens spells, or why it spells none.
    pub fn parse_tokens(tokens: &Vec<Lexeme>) -> (outcome: Result<MacroArgs, ParseError>)
        ensures
            outcome_view(outcome) == parsed(views(tokens@)),
    {
        let mut parser = Parser::new();
        let mut at: usize = 0;
        while at < tokens.len()
            invariant
                at <= tokens.len(),
                parsed(views(tokens@)) == parse_from(views(tokens@), at as int, parser@),
            decreases tokens.len() - at,
        {
            match parser.item(tokens, at) {
                Ok((next, end)) => {
                    parser = next;
                    // consume any unconsumed ','
                    at = if is_comma_at(tokens, end) {
                        end + 1
                    } else {
                        end
                    };
                },
                Err(error) => {
                    return Err(error);
                },
            }
        }
        Ok(parser.args)
    }

    /// The arguments that a text spells, or why it spells none.
    pub fn parse(input: &str) -> (outcome: Result<MacroArgs, ParseError>)
        ensures
            outcome_view(outcome) == parsed_text(input@),
    {
        match tokenize(input) {
            Some(tokens) => Self::parse_tokens(&tokens),
            None => Err(ParseError::Lex),
        }
    }
}

} // verus!
