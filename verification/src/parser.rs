//! The parser. It first validates, over the whole stream of tokens, that
//! dumplings and sticks go together, and only then turns the tokens into a
//! program, line by line.
use crate::errors::{
    compile_errors_view, CompileError, CompileErrorKind, CompileErrorKindModel, CompileErrorModel,
};
use crate::instructions::{line_view, Instruction, InstructionModel, Program};
use crate::tokenizer::{tokens_view, Token, TokenKind, TokenKindModel, TokenModel};
use vstd::prelude::*;

verus! {

/// Whether a token of this kind is a dumpling: a literal, an operator, or
/// one of `fetch`, `skewer`, `while` and jump. The other kinds are the
/// commands `eat` and `remove` and the structural tokens.
pub open spec fn is_dumpling(kind: TokenKindModel) -> bool {
    !(kind is Eat || kind is Remove || kind is Stick || kind is Newline || kind is Eof
        || kind is Comment)
}

/// A place in the source.
pub struct Place {
    pub line: nat,
    pub column: nat,
}

/// The error of kind `kind` at `place`.
pub open spec fn error_at(kind: CompileErrorKindModel, place: Place) -> CompileErrorModel {
    CompileErrorModel { kind, line: place.line, column: place.column }
}

/// The place of `token`.
pub open spec fn place_of(token: TokenModel) -> Place {
    Place { line: token.line, column: token.column }
}

/// The error for the dumplings that `held` stands for, if it stands for
/// any: they were left without a stick. It is reported at `place`.
pub open spec fn orphans(held: Option<Place>, place: Option<Place>) -> Seq<CompileErrorModel> {
    match held {
        Some(last) => seq![
            error_at(
                CompileErrorKindModel::OrphanedDumpling,
                match place {
                    Some(p) => p,
                    None => last,
                },
            ),
        ],
        None => Seq::empty(),
    }
}

/// The errors of the tokens from index `at` on, where `held` is the place of
/// the last dumpling that no stick has taken up yet. A dumpling is taken
/// note of. A stick takes up the dumplings before it; one that finds none
/// is an orphaned stick. Any other token leaves the dumplings before it
/// orphaned, which is reported at the place of the last of them; the end of
/// the file reports it at (0, 0) and ends the validation.
pub open spec fn validate_from(tokens: Seq<TokenModel>, at: nat, held: Option<Place>) -> Seq<
    CompileErrorModel,
>
    decreases tokens.len() - at,
{
    if at >= tokens.len() {
        Seq::empty()
    } else {
        let token = tokens[at as int];
        if is_dumpling(token.kind) {
            validate_from(tokens, at + 1, Some(place_of(token)))
        } else if token.kind is Stick {
            (if held is None {
                seq![error_at(CompileErrorKindModel::OrphanedStick, place_of(token))]
            } else {
                Seq::empty()
            }) + validate_from(tokens, at + 1, None)
        } else if token.kind is Eof {
            orphans(held, Some(Place { line: 0, column: 0 }))
        } else {
            orphans(held, None) + validate_from(tokens, at + 1, None)
        }
    }
}

/// The instruction that a token of this kind stands for. The tokens that
/// are there for the syntax alone stand for none.
pub open spec fn instruction_of(kind: TokenKindModel) -> Option<InstructionModel> {
    match kind {
        TokenKindModel::Add => Some(InstructionModel::Add),
        TokenKindModel::CharFromCodePoint => Some(InstructionModel::CharFromCodePoint),
        TokenKindModel::Divide => Some(InstructionModel::Divide),
        TokenKindModel::Equal => Some(InstructionModel::Equal),
        TokenKindModel::Float(text) => Some(InstructionModel::Float(text)),
        TokenKindModel::FunctionCall(name) => Some(InstructionModel::FnCall(name)),
        TokenKindModel::Greater => Some(InstructionModel::Greater),
        TokenKindModel::Int(val) => Some(InstructionModel::Int(val)),
        TokenKindModel::Jump => Some(InstructionModel::Jump),
        TokenKindModel::Less => Some(InstructionModel::Less),
        TokenKindModel::Length => Some(InstructionModel::Length),
        TokenKindModel::Multiply => Some(InstructionModel::Multiply),
        TokenKindModel::NotEqual => Some(InstructionModel::NotEqual),
        TokenKindModel::Null => Some(InstructionModel::Null),
        TokenKindModel::RawText(text) => Some(InstructionModel::Text(text)),
        TokenKindModel::Stringify => Some(InstructionModel::Stringify),
        TokenKindModel::Subtract => Some(InstructionModel::Subtract),
        TokenKindModel::ToFloat => Some(InstructionModel::ToFloat),
        TokenKindModel::ToInt => Some(InstructionModel::ToInt),
        TokenKindModel::While => Some(InstructionModel::While),
        TokenKindModel::Eat => Some(InstructionModel::Eat),
        TokenKindModel::Fetch(depth) => Some(InstructionModel::Fetch(depth)),
        TokenKindModel::Remove => Some(InstructionModel::Remove),
        TokenKindModel::Skewer(count) => Some(InstructionModel::Skewer(count)),
        TokenKindModel::Stick
        | TokenKindModel::Newline
        | TokenKindModel::Eof
        | TokenKindModel::Comment => None,
    }
}

/// The lines that the tokens from index `at` on give, where `line` holds
/// the instructions of the line at hand, in the order of the source. A line
/// break, and the end of the file, closes the line: its instructions go
/// into the program in reverse, so that the rightmost dumpling is run
/// first. After the last token comes a line of one no-op.
pub open spec fn generate(tokens: Seq<TokenModel>, at: nat, line: Seq<InstructionModel>) -> Seq<
    Seq<InstructionModel>,
>
    decreases tokens.len() - at,
{
    if at >= tokens.len() {
        seq![seq![InstructionModel::Nop]]
    } else {
        let kind = tokens[at as int].kind;
        if kind is Newline || kind is Eof {
            seq![line.reverse()] + generate(tokens, at + 1, Seq::empty())
        } else {
            match instruction_of(kind) {
                Some(instruction) => generate(tokens, at + 1, line.push(instruction)),
                None => generate(tokens, at + 1, line),
            }
        }
    }
}

/// A generated program has at least one line, and its last line is the
/// no-op alone.
pub proof fn lemma_generate_ends_in_nop(tokens: Seq<TokenModel>, at: nat, line: Seq<InstructionModel>)
    ensures
        generate(tokens, at, line).len() >= 1,
        generate(tokens, at, line).last() == seq![InstructionModel::Nop],
    decreases tokens.len() - at,
{
    if at < tokens.len() {
        let kind = tokens[at as int].kind;
        if kind is Newline || kind is Eof {
            lemma_generate_ends_in_nop(tokens, at + 1, Seq::empty());
        } else {
            match instruction_of(kind) {
                Some(instruction) => lemma_generate_ends_in_nop(tokens, at + 1, line.push(instruction)),
                None => lemma_generate_ends_in_nop(tokens, at + 1, line),
            }
        }
    }
}

fn convert(kind: &TokenKind) -> (r: Option<Instruction>)
    ensures
        match instruction_of(kind@) {
            Some(instruction) => r matches Some(x) && x@ == instruction,
            None => r is None,
        },
{
    match kind {
        TokenKind::Add => Some(Instruction::Add),
        TokenKind::CharFromCodePoint => Some(Instruction::CharFromCodePoint),
        TokenKind::Divide => Some(Instruction::Divide),
        TokenKind::Equal => Some(Instruction::Equal),
        TokenKind::Float(text) => Some(Instruction::Float(text.clone())),
        TokenKind::FunctionCall(name) => Some(Instruction::FnCall(name.clone())),
        TokenKind::Greater => Some(Instruction::Greater),
        TokenKind::Int(val) => Some(Instruction::Int(*val)),
        TokenKind::Jump => Some(Instruction::Jump),
        TokenKind::Less => Some(Instruction::Less),
        TokenKind::Length => Some(Instruction::Length),
        TokenKind::Multiply => Some(Instruction::Multiply),
        TokenKind::NotEqual => Some(Instruction::NotEqual),
        TokenKind::Null => Some(Instruction::Null),
        TokenKind::RawText(text) => Some(Instruction::Text(text.clone())),
        TokenKind::Stringify => Some(Instruction::Stringify),
        TokenKind::Subtract => Some(Instruction::Subtract),
        TokenKind::ToFloat => Some(Instruction::ToFloat),
        TokenKind::ToInt => Some(Instruction::ToInt),
        TokenKind::While => Some(Instruction::While),
        TokenKind::Eat => Some(Instruction::Eat),
        TokenKind::Fetch(depth) => Some(Instruction::Fetch(*depth)),
        TokenKind::Remove => Some(Instruction::Remove),
        TokenKind::Skewer(count) => Some(Instruction::Skewer(*count)),
        TokenKind::Stick | TokenKind::Newline | TokenKind::Eof | TokenKind::Comment => None,
    }
}

/// What a token is to the validation of dumplings and sticks.
enum Role {
    Dumpling,
    Stick,
    End,
    Other,
}

fn role_of(kind: &TokenKind) -> (r: Role)
    ensures
        r is Dumpling <==> is_dumpling(kind@),
        r is Stick <==> kind@ is Stick,
        r is End <==> kind@ is Eof,
{
    match kind {
        TokenKind::Stick => Role::Stick,
        TokenKind::Eof => Role::End,
        TokenKind::Eat | TokenKind::Remove | TokenKind::Newline | TokenKind::Comment => Role::Other,
        _ => Role::Dumpling,
    }
}

/// The errors in how dumplings and sticks go together, over all the tokens
/// up to the end of the file.
pub fn validate_tokens(tokens: &Vec<Token>) -> (r: Vec<CompileError>)
    ensures
        compile_errors_view(r@) == validate_from(tokens_view(tokens@), 0, None),
{
    let ghost source = tokens_view(tokens@);
    let ghost all = validate_from(source, 0, None);
    let mut errors: Vec<CompileError> = Vec::new();
    let mut last_is_dumpling = false;
    let mut last_line: usize = 0;
    let mut last_column: usize = 0;
    let mut i: usize = 0;
    while i < tokens.len()
        invariant_except_break
            all == compile_errors_view(errors@) + validate_from(
                source,
                i as nat,
                if last_is_dumpling {
                    Some(Place { line: last_line as nat, column: last_column as nat })
                } else {
                    None
                },
            ),
        invariant
            i <= tokens@.len(),
            source == tokens_view(tokens@),
        ensures
            all == compile_errors_view(errors@),
        decreases tokens@.len() - i,
    {
        let token = &tokens[i];
        let ghost known = compile_errors_view(errors@);
        let ghost held = if last_is_dumpling {
            Some(Place { line: last_line as nat, column: last_column as nat })
        } else {
            None
        };
        assert(source[i as int] == token@);
        match role_of(&token.kind) {
            Role::Dumpling => {
                last_is_dumpling = true;
                last_line = token.line;
                last_column = token.column;
            },
            Role::Stick => {
                if !last_is_dumpling {
                    errors.push(
                        CompileError::new(CompileErrorKind::OrphanedStick, token.line, token.column),
                    );
                }
                last_is_dumpling = false;
                assert(all =~= compile_errors_view(errors@) + validate_from(
                    source,
                    (i + 1) as nat,
                    None,
                ));
            },
            Role::End => {
                if last_is_dumpling {
                    errors.push(CompileError::new(CompileErrorKind::OrphanedDumpling, 0, 0));
                }
                assert(all =~= compile_errors_view(errors@));
                break;
            },
            Role::Other => {
                if last_is_dumpling {
                    errors.push(
                        CompileError::new(
                            CompileErrorKind::OrphanedDumpling,
                            last_line,
                            last_column,
                        ),
                    );
                }
                last_is_dumpling = false;
                assert(all =~= compile_errors_view(errors@) + validate_from(
                    source,
                    (i + 1) as nat,
                    None,
                ));
            },
        }
        i += 1;
    }
    assert(all =~= compile_errors_view(errors@));
    errors
}

/// Whether `r` is the outcome of parsing `tokens`: the errors of validation
/// where there are any, else the generated program.
pub open spec fn parse_outcome(r: Result<Program, Vec<CompileError>>, tokens: Seq<TokenModel>) -> bool {
    match r {
        Ok(program) => validate_from(tokens, 0, None).len() == 0 && program@ == generate(
            tokens,
            0,
            Seq::empty(),
        ),
        Err(errors) => errors@.len() > 0 && compile_errors_view(errors@) == validate_from(
            tokens,
            0,
            None,
        ),
    }
}

/// Validates the tokens and, where that finds nothing, makes the program
/// of them.
pub fn parse(tokens: Vec<Token>) -> (r: Result<Program, Vec<CompileError>>)
    ensures
        parse_outcome(r, tokens_view(tokens@)),
        r matches Ok(program) ==> program@.len() >= 1 && program@.last()
            == seq![InstructionModel::Nop],
{
    proof {
        lemma_generate_ends_in_nop(tokens_view(tokens@), 0, Seq::empty());
    }
    let errors = validate_tokens(&tokens);
    if errors.len() > 0 {
        return Err(errors);
    }
    let ghost source = tokens_view(tokens@);
    let mut program = Program::new();
    let mut line: Vec<Instruction> = Vec::new();
    let mut i: usize = 0;
    proof {
        assert(line_view(line@) =~= Seq::<InstructionModel>::empty());
        assert(program@ + generate(source, 0, Seq::empty()) =~= generate(source, 0, Seq::empty()));
    }
    while i < tokens.len()
        invariant
            i <= tokens@.len(),
            source == tokens_view(tokens@),
            generate(source, 0, Seq::empty()) == program@ + generate(source, i as nat, line_view(line@)),
        decreases tokens@.len() - i,
    {
        let token = &tokens[i];
        assert(source[i as int] == token@);
        let ghost before = program@;
        let ghost held = line_view(line@);
        match &token.kind {
            TokenKind::Newline | TokenKind::Eof => {
                let mut reversed: Vec<Instruction> = Vec::new();
                while line.len() > 0
                    invariant
                        line@.len() + reversed@.len() == held.len(),
                        line_view(line@) == held.take(line@.len() as int),
                        forall|j: int|
                            0 <= j < reversed@.len() ==> (#[trigger] reversed@[j])@ == held[held.len()
                                - 1 - j],
                    decreases line@.len(),
                {
                    let ghost shorter = line@.len() - 1;
                    let last = line.pop().unwrap();
                    assert(last@ == held[shorter]) by {
                        assert(held.take(shorter + 1)[shorter] == last@);
                    }
                    reversed.push(last);
                    assert(line_view(line@) =~= held.take(line@.len() as int));
                }
                assert(line_view(reversed@) =~= held.reverse());
                assert(line_view(line@) =~= Seq::<InstructionModel>::empty());
                program.add_line(reversed);
                assert(before.push(held.reverse()) + generate(source, (i + 1) as nat, Seq::empty())
                    =~= before + (seq![held.reverse()] + generate(
                    source,
                    (i + 1) as nat,
                    Seq::empty(),
                )));
            },
            kind => match convert(kind) {
                Some(instruction) => {
                    line.push(instruction);
                    assert(line_view(line@) =~= held.push(instruction@));
                },
                None => {},
            },
        }
        i += 1;
    }
    let ghost lines = program@;
    let mut closing: Vec<Instruction> = Vec::new();
    closing.push(Instruction::Nop);
    assert(line_view(closing@) =~= seq![InstructionModel::Nop]);
    program.add_line(closing);
    assert(program@ =~= lines + seq![seq![InstructionModel::Nop]]);
    Ok(program)
}

/// Whether dumplings and sticks go together in `tokens`: after each
/// dumpling comes another dumpling or the stick that holds them, and before
/// each stick comes a dumpling.
pub open spec fn well_paired(tokens: Seq<TokenModel>) -> bool {
    &&& forall|i: int|
        0 <= i < tokens.len() && is_dumpling(#[trigger] tokens[i].kind) ==> i + 1 < tokens.len()
            && (is_dumpling(tokens[i + 1].kind) || tokens[i + 1].kind is Stick)
    &&& forall|i: int|
        0 <= i < tokens.len() && (#[trigger] tokens[i].kind) is Stick ==> i > 0 && is_dumpling(
            tokens[i - 1].kind,
        )
}

/// Where dumplings and sticks go together, validation from index `at` on
/// finds nothing, given that `held` says whether a dumpling stands just
/// before `at`.
pub proof fn lemma_well_paired_from(tokens: Seq<TokenModel>, at: nat, held: Option<Place>)
    requires
        well_paired(tokens),
        at <= tokens.len(),
        held is Some <==> at > 0 && is_dumpling(tokens[at - 1].kind),
    ensures
        validate_from(tokens, at, held).len() == 0,
    decreases tokens.len() - at,
{
    if at < tokens.len() {
        let token = tokens[at as int];
        if is_dumpling(token.kind) {
            lemma_well_paired_from(tokens, at + 1, Some(place_of(token)));
        } else if token.kind is Eof {
        } else {
            lemma_well_paired_from(tokens, at + 1, None);
        }
    }
}

/// Where every dumpling is followed by a stick before the line ends, and
/// every stick has a dumpling before it, validation of dumplings and sticks
/// finds no error.
pub proof fn lemma_well_paired_validates(tokens: Seq<TokenModel>)
    requires
        well_paired(tokens),
    ensures
        validate_from(tokens, 0, None).len() == 0,
{
    lemma_well_paired_from(tokens, 0, None);
}

} // verus!
