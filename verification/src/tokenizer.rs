//! The second pass: it gives each span its meaning. A dumpling becomes a
//! literal or an operator, a bare word a command, and the structural spans
//! pass through.
use crate::errors::{
    compile_errors_view, CompileError, CompileErrorKind, CompileErrorKindModel, CompileErrorModel,
};
use crate::span_tokenizer::{SpanKind, SpanModel, SpanToken, spans_view};
use crate::text::{
    chars_of, float_literal, is_float_literal, parse_i64, parse_unsigned, parsed_i64,
    parsed_unsigned, string_of,
};
use vstd::prelude::*;

verus! {

/// What a token is, with what it carries.
#[derive(Debug, PartialEq)]
pub enum TokenKind {
    Add,
    CharFromCodePoint,
    Divide,
    Equal,
    /// A floating-point literal, kept as it was written.
    Float(String),
    FunctionCall(String),
    Greater,
    Int(i64),
    Jump,
    Less,
    Length,
    Multiply,
    NotEqual,
    Null,
    RawText(String),
    Stringify,
    Subtract,
    ToFloat,
    ToInt,
    While,
    Eat,
    Fetch(usize),
    Remove,
    Skewer(u8),
    Stick,
    Newline,
    Eof,
    Comment,
}

/// The mathematical content of a [`TokenKind`].
pub enum TokenKindModel {
    Add,
    CharFromCodePoint,
    Divide,
    Equal,
    Float(Seq<char>),
    FunctionCall(Seq<char>),
    Greater,
    Int(i64),
    Jump,
    Less,
    Length,
    Multiply,
    NotEqual,
    Null,
    RawText(Seq<char>),
    Stringify,
    Subtract,
    ToFloat,
    ToInt,
    While,
    Eat,
    Fetch(nat),
    Remove,
    Skewer(nat),
    Stick,
    Newline,
    Eof,
    Comment,
}

impl View for TokenKind {
    type V = TokenKindModel;

    open spec fn view(&self) -> TokenKindModel {
        match self {
            TokenKind::Add => TokenKindModel::Add,
            TokenKind::CharFromCodePoint => TokenKindModel::CharFromCodePoint,
            TokenKind::Divide => TokenKindModel::Divide,
            TokenKind::Equal => TokenKindModel::Equal,
            TokenKind::Float(text) => TokenKindModel::Float(text@),
            TokenKind::FunctionCall(name) => TokenKindModel::FunctionCall(name@),
            TokenKind::Greater => TokenKindModel::Greater,
            TokenKind::Int(val) => TokenKindModel::Int(*val),
            TokenKind::Jump => TokenKindModel::Jump,
            TokenKind::Less => TokenKindModel::Less,
            TokenKind::Length => TokenKindModel::Length,
            TokenKind::Multiply => TokenKindModel::Multiply,
            TokenKind::NotEqual => TokenKindModel::NotEqual,
            TokenKind::Null => TokenKindModel::Null,
            TokenKind::RawText(text) => TokenKindModel::RawText(text@),
            TokenKind::Stringify => TokenKindModel::Stringify,
            TokenKind::Subtract => TokenKindModel::Subtract,
            TokenKind::ToFloat => TokenKindModel::ToFloat,
            TokenKind::ToInt => TokenKindModel::ToInt,
            TokenKind::While => TokenKindModel::While,
            TokenKind::Eat => TokenKindModel::Eat,
            TokenKind::Fetch(depth) => TokenKindModel::Fetch(*depth as nat),
            TokenKind::Remove => TokenKindModel::Remove,
            TokenKind::Skewer(count) => TokenKindModel::Skewer(*count as nat),
            TokenKind::Stick => TokenKindModel::Stick,
            TokenKind::Newline => TokenKindModel::Newline,
            TokenKind::Eof => TokenKindModel::Eof,
            TokenKind::Comment => TokenKindModel::Comment,
        }
    }
}

/// A token and the place in the source where it starts; (0, 0) for the
/// token that closes the stream.
#[derive(Debug, PartialEq)]
pub struct Token {
    pub kind: TokenKind,
    pub line: usize,
    pub column: usize,
}

/// The mathematical content of a [`Token`].
pub struct TokenModel {
    pub kind: TokenKindModel,
    pub line: nat,
    pub column: nat,
}

impl View for Token {
    type V = TokenModel;

    open spec fn view(&self) -> TokenModel {
        TokenModel { kind: self.kind@, line: self.line as nat, column: self.column as nat }
    }
}

impl Token {
    pub fn new(kind: TokenKind, line: usize, column: usize) -> (r: Self)
        ensures
            r.kind == kind,
            r.line == line,
            r.column == column,
    {
        Self { kind, line, column }
    }
}

/// The views of a list of tokens, in order.
pub open spec fn tokens_view(tokens: Seq<Token>) -> Seq<TokenModel> {
    Seq::new(tokens.len(), |i: int| tokens[i]@)
}

/// The operator or keyword that `text` names, if it names one.
pub open spec fn operator(text: Seq<char>) -> Option<TokenKindModel> {
    if text == "+"@ {
        Some(TokenKindModel::Add)
    } else if text == "/"@ {
        Some(TokenKindModel::Divide)
    } else if text == "="@ {
        Some(TokenKindModel::Equal)
    } else if text == ">"@ {
        Some(TokenKindModel::Greater)
    } else if text == "<"@ {
        Some(TokenKindModel::Less)
    } else if text == "!="@ {
        Some(TokenKindModel::NotEqual)
    } else if text == "*"@ {
        Some(TokenKindModel::Multiply)
    } else if text == "`"@ {
        Some(TokenKindModel::ToInt)
    } else if text == ";"@ {
        Some(TokenKindModel::ToFloat)
    } else if text == "'"@ {
        Some(TokenKindModel::Stringify)
    } else if text == "'c"@ {
        Some(TokenKindModel::CharFromCodePoint)
    } else if text == "-"@ {
        Some(TokenKindModel::Subtract)
    } else if text == "j"@ {
        Some(TokenKindModel::Jump)
    } else if text == "len"@ {
        Some(TokenKindModel::Length)
    } else if text == "while"@ {
        Some(TokenKindModel::While)
    } else {
        None
    }
}

/// What the dumpling with this text means: nil for an empty one, a function
/// call after a colon, an operator or keyword by its name, else an integer,
/// else a floating-point number, else raw text.
pub open spec fn dumpling_kind(text: Seq<char>) -> TokenKindModel {
    if text.len() == 0 {
        TokenKindModel::Null
    } else if text[0] == ':' {
        TokenKindModel::FunctionCall(text.skip(1))
    } else if operator(text) is Some {
        operator(text)->0
    } else if parsed_i64(text) is Some {
        TokenKindModel::Int(parsed_i64(text)->0)
    } else if float_literal(text) {
        TokenKindModel::Float(text)
    } else {
        TokenKindModel::RawText(text)
    }
}

/// The number that `span` gives as the argument of a command, where it is a
/// bare word that writes an unsigned integer of at most `limit`.
pub open spec fn argument(span: SpanModel, limit: nat) -> Option<nat> {
    if span.kind == SpanKind::NonDumpling {
        parsed_unsigned(span.text, limit)
    } else {
        None
    }
}

/// What is said where `fetch` lacks its argument.
pub open spec fn fetch_message() -> Seq<char> {
    "expected a non-negative integer after `fetch`"@
}

/// What is said where `skewer` lacks its argument.
pub open spec fn skewer_message() -> Seq<char> {
    "expected an integer from 0 to 255 after `skewer`"@
}

/// The token, or the error, that the spans from index `at` give, and the
/// index of the span after it.
pub struct Lexed {
    pub result: Result<TokenModel, CompileErrorModel>,
    pub after: nat,
}

/// The token of kind `kind` at the place of `span`.
pub open spec fn token_at(kind: TokenKindModel, span: SpanModel) -> Result<
    TokenModel,
    CompileErrorModel,
> {
    Ok(TokenModel { kind, line: span.line, column: span.column })
}

/// The error of kind `kind` at the place of `span`.
pub open spec fn lex_error(kind: CompileErrorKindModel, span: SpanModel) -> Result<
    TokenModel,
    CompileErrorModel,
> {
    Err(CompileErrorModel { kind, line: span.line, column: span.column })
}

/// The token that closes every stream of tokens.
pub open spec fn closing_token() -> TokenModel {
    TokenModel { kind: TokenKindModel::Eof, line: 0, column: 0 }
}

/// What the command word `span` means, where `follower` is the span after
/// it, if there is one. `eat` and `remove` stand alone. `fetch` and `skewer`
/// take the bare word after them as their argument: a depth that fits the
/// machine's word, a count that fits a byte. Such a word is used up even
/// where it is no such number. Any other word is an invalid token.
pub open spec fn command(span: SpanModel, follower: Option<SpanModel>, at: nat) -> Lexed {
    let takes_two = follower matches Some(next) && next.kind == SpanKind::NonDumpling;
    let after_two = if takes_two {
        at + 2
    } else {
        at + 1
    };
    if span.text == "eat"@ {
        Lexed { result: token_at(TokenKindModel::Eat, span), after: at + 1 }
    } else if span.text == "remove"@ {
        Lexed { result: token_at(TokenKindModel::Remove, span), after: at + 1 }
    } else if span.text == "fetch"@ {
        Lexed {
            result: match follower {
                Some(next) if argument(next, usize::MAX as nat) is Some => token_at(
                    TokenKindModel::Fetch(argument(next, usize::MAX as nat)->0),
                    span,
                ),
                _ => lex_error(CompileErrorKindModel::CustomError(fetch_message()), span),
            },
            after: after_two,
        }
    } else if span.text == "skewer"@ {
        Lexed {
            result: match follower {
                Some(next) if argument(next, u8::MAX as nat) is Some => token_at(
                    TokenKindModel::Skewer(argument(next, u8::MAX as nat)->0),
                    span,
                ),
                _ => lex_error(CompileErrorKindModel::CustomError(skewer_message()), span),
            },
            after: after_two,
        }
    } else {
        Lexed {
            result: lex_error(CompileErrorKindModel::InvalidToken(span.text), span),
            after: at + 1,
        }
    }
}

/// The token, or the error, that the spans give from index `at` on. Past
/// the last span it is the closing token.
pub open spec fn next_token(spans: Seq<SpanModel>, at: nat) -> Lexed {
    if at >= spans.len() {
        Lexed { result: Ok(closing_token()), after: at }
    } else {
        let span = spans[at as int];
        match span.kind {
            SpanKind::Dumpling => Lexed {
                result: token_at(dumpling_kind(span.text), span),
                after: at + 1,
            },
            SpanKind::NonDumpling => command(
                span,
                if at + 1 < spans.len() {
                    Some(spans[at as int + 1])
                } else {
                    None
                },
                at,
            ),
            SpanKind::Stick => Lexed { result: token_at(TokenKindModel::Stick, span), after: at + 1 },
            SpanKind::Newline => Lexed {
                result: token_at(TokenKindModel::Newline, span),
                after: at + 1,
            },
            SpanKind::Eof => Lexed { result: token_at(TokenKindModel::Eof, span), after: at + 1 },
        }
    }
}

/// The tokens and the errors that a list of spans gives.
pub struct Lexing {
    pub tokens: Seq<TokenModel>,
    pub errors: Seq<CompileErrorModel>,
}

/// The tokens and the errors that the spans give from index `at` on.
pub open spec fn lex_from(spans: Seq<SpanModel>, at: nat) -> Lexing
    decreases spans.len() - at,
{
    if at >= spans.len() {
        Lexing { tokens: Seq::empty(), errors: Seq::empty() }
    } else {
        let found = next_token(spans, at);
        let rest = lex_from(spans, found.after);
        match found.result {
            Ok(token) => Lexing { tokens: seq![token] + rest.tokens, ..rest },
            Err(error) => Lexing { errors: seq![error] + rest.errors, ..rest },
        }
    }
}

/// Whether `r`, with the tokenizer left at span `after`, is what
/// `expected` says.
pub open spec fn lexed(r: Result<Token, CompileError>, after: nat, expected: Lexed) -> bool {
    after == expected.after && match expected.result {
        Ok(token) => r matches Ok(x) && x@ == token,
        Err(error) => r matches Err(x) && x@ == error,
    }
}

fn is_word(text: &String, word: &str) -> (r: bool)
    ensures
        r == (text@ == word@),
{
    *text == String::from_str(word)
}

fn operator_kind(text: &String) -> (r: Option<TokenKind>)
    ensures
        match operator(text@) {
            Some(kind) => r matches Some(x) && x@ == kind,
            None => r is None,
        },
{
    if is_word(text, "+") {
        Some(TokenKind::Add)
    } else if is_word(text, "/") {
        Some(TokenKind::Divide)
    } else if is_word(text, "=") {
        Some(TokenKind::Equal)
    } else if is_word(text, ">") {
        Some(TokenKind::Greater)
    } else if is_word(text, "<") {
        Some(TokenKind::Less)
    } else if is_word(text, "!=") {
        Some(TokenKind::NotEqual)
    } else if is_word(text, "*") {
        Some(TokenKind::Multiply)
    } else if is_word(text, "`") {
        Some(TokenKind::ToInt)
    } else if is_word(text, ";") {
        Some(TokenKind::ToFloat)
    } else if is_word(text, "'") {
        Some(TokenKind::Stringify)
    } else if is_word(text, "'c") {
        Some(TokenKind::CharFromCodePoint)
    } else if is_word(text, "-") {
        Some(TokenKind::Subtract)
    } else if is_word(text, "j") {
        Some(TokenKind::Jump)
    } else if is_word(text, "len") {
        Some(TokenKind::Length)
    } else if is_word(text, "while") {
        Some(TokenKind::While)
    } else {
        None
    }
}

fn classify_dumpling(text: &String) -> (r: TokenKind)
    ensures
        r@ == dumpling_kind(text@),
{
    let chars = chars_of(text.as_str());
    if chars.len() == 0 {
        return TokenKind::Null;
    }
    if chars[0] == ':' {
        return TokenKind::FunctionCall(string_of(&chars, 1, chars.len()));
    }
    match operator_kind(text) {
        Some(kind) => {
            return kind;
        },
        None => {},
    }
    match parse_i64(&chars) {
        Some(val) => {
            return TokenKind::Int(val);
        },
        None => {},
    }
    if is_float_literal(&chars) {
        TokenKind::Float(text.clone())
    } else {
        TokenKind::RawText(text.clone())
    }
}

/// The number that `span` gives as the argument of a command.
fn argument_of(span: &SpanToken, limit: u64) -> (r: Option<u64>)
    ensures
        r is Some <==> argument(span@, limit as nat) is Some,
        r is Some ==> r->0 == argument(span@, limit as nat)->0,
{
    match span.kind {
        SpanKind::NonDumpling => {
            let chars = chars_of(span.text.as_str());
            parse_unsigned(&chars, limit)
        },
        _ => None,
    }
}

/// The second pass over a source: its spans and the index of the span that
/// comes next.
pub struct Tokenizer {
    spans: Vec<SpanToken>,
    current: usize,
}

impl Tokenizer {
    /// The spans that are read.
    pub closed spec fn spans(&self) -> Seq<SpanModel> {
        spans_view(self.spans@)
    }

    /// The index of the span that comes next.
    pub closed spec fn position(&self) -> nat {
        self.current as nat
    }

    /// A tokenizer before the first of `spans`.
    pub fn new(spans: Vec<SpanToken>) -> (r: Self)
        ensures
            r.spans() == spans_view(spans@),
            r.position() == 0,
    {
        Self { spans, current: 0 }
    }

    /// Whether a span is left to read.
    pub fn has_more(&self) -> (r: bool)
        ensures
            r == (self.position() < self.spans().len()),
    {
        self.current < self.spans.len()
    }

    /// The token that the next span gives, or the error found in its place.
    /// A command with an argument uses up two spans. Past the last span the
    /// closing token comes out.
    pub fn consume_span(&mut self) -> (r: Result<Token, CompileError>)
        ensures
            final(self).spans() == old(self).spans(),
            lexed(r, final(self).position(), next_token(old(self).spans(), old(self).position())),
    {
        if self.current >= self.spans.len() {
            return Ok(Token::new(TokenKind::Eof, 0, 0));
        }
        let at = self.current;
        let span = &self.spans[at];
        let line = span.line;
        let column = span.column;
        self.current = at + 1;
        match span.kind {
            SpanKind::Dumpling => Ok(Token::new(classify_dumpling(&span.text), line, column)),
            SpanKind::Stick => Ok(Token::new(TokenKind::Stick, line, column)),
            SpanKind::Newline => Ok(Token::new(TokenKind::Newline, line, column)),
            SpanKind::Eof => Ok(Token::new(TokenKind::Eof, line, column)),
            SpanKind::NonDumpling => {
                if is_word(&span.text, "eat") {
                    return Ok(Token::new(TokenKind::Eat, line, column));
                }
                if is_word(&span.text, "remove") {
                    return Ok(Token::new(TokenKind::Remove, line, column));
                }
                let fetches = is_word(&span.text, "fetch");
                if !fetches && !is_word(&span.text, "skewer") {
                    return Err(
                        CompileError::new(
                            CompileErrorKind::InvalidToken(span.text.clone()),
                            line,
                            column,
                        ),
                    );
                }
                let limit: u64 = if fetches {
                    usize::MAX as u64
                } else {
                    u8::MAX as u64
                };
                let number = if at + 1 < self.spans.len() {
                    let follower = &self.spans[at + 1];
                    let takes_two = match follower.kind {
                        SpanKind::NonDumpling => true,
                        _ => false,
                    };
                    if takes_two {
                        self.current = at + 2;
                    }
                    argument_of(follower, limit)
                } else {
                    None
                };
                match number {
                    Some(n) => if fetches {
                        Ok(Token::new(TokenKind::Fetch(n as usize), line, column))
                    } else {
                        Ok(Token::new(TokenKind::Skewer(n as u8), line, column))
                    },
                    None => {
                        let message = if fetches {
                            String::from_str("expected a non-negative integer after `fetch`")
                        } else {
                            String::from_str("expected an integer from 0 to 255 after `skewer`")
                        };
                        Err(
                            CompileError::new(
                                CompileErrorKind::CustomError(message),
                                line,
                                column,
                            ),
                        )
                    },
                }
            },
        }
    }
}

/// Whether `r` is the outcome of tokenizing with what `all` holds: its
/// errors where there are any, else its tokens with the closing token after
/// them.
pub open spec fn lex_outcome(r: Result<Vec<Token>, Vec<CompileError>>, all: Lexing) -> bool {
    match r {
        Ok(tokens) => all.errors.len() == 0 && tokens_view(tokens@) == all.tokens.push(
            closing_token(),
        ),
        Err(errors) => all.errors.len() > 0 && compile_errors_view(errors@) == all.errors,
    }
}

/// Gives each span its meaning. Every error of the whole stream is
/// collected; where there is one, the errors are returned and no token.
pub fn tokenize(spans: Vec<SpanToken>) -> (r: Result<Vec<Token>, Vec<CompileError>>)
    ensures
        lex_outcome(r, lex_from(spans_view(spans@), 0)),
{
    let ghost source = spans_view(spans@);
    let ghost all = lex_from(source, 0);
    let mut tokenizer = Tokenizer::new(spans);
    let mut tokens: Vec<Token> = Vec::new();
    let mut errors: Vec<CompileError> = Vec::new();
    while tokenizer.has_more()
        invariant
            tokenizer.spans() == source,
            tokenizer.position() <= source.len(),
            all == lex_from(source, 0),
            all.tokens == tokens_view(tokens@) + lex_from(source, tokenizer.position()).tokens,
            all.errors == compile_errors_view(errors@) + lex_from(
                source,
                tokenizer.position(),
            ).errors,
        decreases source.len() - tokenizer.position(),
    {
        let ghost rest = lex_from(source, tokenizer.position());
        match tokenizer.consume_span() {
            Ok(token) => {
                proof {
                    let later = lex_from(source, tokenizer.position());
                    assert(rest.tokens == seq![token@] + later.tokens);
                    assert(tokens_view(tokens@.push(token)) + later.tokens =~= tokens_view(tokens@)
                        + rest.tokens);
                }
                tokens.push(token);
            },
            Err(error) => {
                proof {
                    let later = lex_from(source, tokenizer.position());
                    assert(rest.errors == seq![error@] + later.errors);
                    assert(compile_errors_view(errors@.push(error)) + later.errors
                        =~= compile_errors_view(errors@) + rest.errors);
                }
                errors.push(error);
            },
        }
    }
    if errors.len() > 0 {
        proof {
            assert(all.errors =~= compile_errors_view(errors@));
        }
        return Err(errors);
    }
    let ghost found = tokens_view(tokens@);
    tokens.push(Token::new(TokenKind::Eof, 0, 0));
    proof {
        assert(all.errors =~= compile_errors_view(errors@));
        assert(tokens_view(tokens@) =~= all.tokens.push(closing_token()));
    }
    Ok(tokens)
}

} // verus!
