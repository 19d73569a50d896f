//! The instruction set and the program: a table of lines, each a list of
//! instructions, addressed by line for jumps and loops.
use vstd::prelude::*;

verus! {

/// One instruction of the stack machine.
#[derive(Debug, PartialEq)]
pub enum Instruction {
    Add,
    CharFromCodePoint,
    Divide,
    Equal,
    /// A floating-point literal, kept as it was written.
    Float(String),
    FnCall(String),
    Greater,
    Int(i64),
    Jump,
    Less,
    Length,
    Multiply,
    Nop,
    NotEqual,
    Null,
    Text(String),
    Stringify,
    Subtract,
    ToFloat,
    ToInt,
    While,
    Eat,
    Fetch(usize),
    Remove,
    Skewer(u8),
}

/// The mathematical content of an [`Instruction`].
pub enum InstructionModel {
    Add,
    CharFromCodePoint,
    Divide,
    Equal,
    Float(Seq<char>),
    FnCall(Seq<char>),
    Greater,
    Int(i64),
    Jump,
    Less,
    Length,
    Multiply,
    Nop,
    NotEqual,
    Null,
    Text(Seq<char>),
    Stringify,
    Subtract,
    ToFloat,
    ToInt,
    While,
    Eat,
    Fetch(nat),
    Remove,
    Skewer(nat),
}

impl View for Instruction {
    type V = InstructionModel;

    open spec fn view(&self) -> InstructionModel {
        match self {
            Instruction::Add => InstructionModel::Add,
            Instruction::CharFromCodePoint => InstructionModel::CharFromCodePoint,
            Instruction::Divide => InstructionModel::Divide,
            Instruction::Equal => InstructionModel::Equal,
            Instruction::Float(text) => InstructionModel::Float(text@),
            Instruction::FnCall(name) => InstructionModel::FnCall(name@),
            Instruction::Greater => InstructionModel::Greater,
            Instruction::Int(val) => InstructionModel::Int(*val),
            Instruction::Jump => InstructionModel::Jump,
            Instruction::Less => InstructionModel::Less,
            Instruction::Length => InstructionModel::Length,
            Instruction::Multiply => InstructionModel::Multiply,
            Instruction::Nop => InstructionModel::Nop,
            Instruction::NotEqual => InstructionModel::NotEqual,
            Instruction::Null => InstructionModel::Null,
            Instruction::Text(text) => InstructionModel::Text(text@),
            Instruction::Stringify => InstructionModel::Stringify,
            Instruction::Subtract => InstructionModel::Subtract,
            Instruction::ToFloat => InstructionModel::ToFloat,
            Instruction::ToInt => InstructionModel::ToInt,
            Instruction::While => InstructionModel::While,
            Instruction::Eat => InstructionModel::Eat,
            Instruction::Fetch(depth) => InstructionModel::Fetch(*depth as nat),
            Instruction::Remove => InstructionModel::Remove,
            Instruction::Skewer(count) => InstructionModel::Skewer(*count as nat),
        }
    }
}

impl Instruction {
    /// A copy of the instruction.
    pub fn copy(&self) -> (r: Instruction)
        ensures
            r@ == self@,
    {
        match self {
            Instruction::Add => Instruction::Add,
            Instruction::CharFromCodePoint => Instruction::CharFromCodePoint,
            Instruction::Divide => Instruction::Divide,
            Instruction::Equal => Instruction::Equal,
            Instruction::Float(text) => Instruction::Float(text.clone()),
            Instruction::FnCall(name) => Instruction::FnCall(name.clone()),
            Instruction::Greater => Instruction::Greater,
            Instruction::Int(val) => Instruction::Int(*val),
            Instruction::Jump => Instruction::Jump,
            Instruction::Less => Instruction::Less,
            Instruction::Length => Instruction::Length,
            Instruction::Multiply => Instruction::Multiply,
            Instruction::Nop => Instruction::Nop,
            Instruction::NotEqual => Instruction::NotEqual,
            Instruction::Null => Instruction::Null,
            Instruction::Text(text) => Instruction::Text(text.clone()),
            Instruction::Stringify => Instruction::Stringify,
            Instruction::Subtract => Instruction::Subtract,
            Instruction::ToFloat => Instruction::ToFloat,
            Instruction::ToInt => Instruction::ToInt,
            Instruction::While => Instruction::While,
            Instruction::Eat => Instruction::Eat,
            Instruction::Fetch(depth) => Instruction::Fetch(*depth),
            Instruction::Remove => Instruction::Remove,
            Instruction::Skewer(count) => Instruction::Skewer(*count),
        }
    }
}

/// The views of a line's instructions, in order.
pub open spec fn line_view(line: Seq<Instruction>) -> Seq<InstructionModel> {
    Seq::new(line.len(), |i: int| line[i]@)
}

/// A compiled program. Line `i` of the table is the line that a jump calls
/// `i + 1`.
#[derive(Debug, PartialEq)]
pub struct Program {
    code: Vec<Vec<Instruction>>,
}

impl View for Program {
    type V = Seq<Seq<InstructionModel>>;

    closed spec fn view(&self) -> Seq<Seq<InstructionModel>> {
        Seq::new(self.code@.len(), |i: int| line_view(self.code@[i]@))
    }
}

impl Program {
    /// A program without lines.
    pub fn new() -> (r: Self)
        ensures
            r@ == Seq::<Seq<InstructionModel>>::empty(),
    {
        let r = Self { code: Vec::new() };
        assert(r@ =~= Seq::<Seq<InstructionModel>>::empty());
        r
    }

    /// The line at index `line`.
    pub fn get_line(&self, line: usize) -> (r: &Vec<Instruction>)
        requires
            line < self@.len(),
        ensures
            line_view(r@) == self@[line as int],
    {
        &self.code[line]
    }

    /// The line at index `line`, to be changed in place.
    pub fn get_line_mut(&mut self, line: usize) -> (r: &mut Vec<Instruction>)
        requires
            line < old(self)@.len(),
        ensures
            line_view(r@) == old(self)@[line as int],
            final(self)@ =~= old(self)@.update(line as int, line_view(final(r)@)),
    {
        &mut self.code[line]
    }

    /// Appends `line` as the last line of the program.
    pub fn add_line(&mut self, line: Vec<Instruction>)
        ensures
            final(self)@ == old(self)@.push(line_view(line@)),
    {
        self.code.push(line);
        assert(self@ =~= old(self)@.push(line_view(line@)));
    }

    /// The number of lines.
    pub fn lines(&self) -> (r: usize)
        ensures
            r == self@.len(),
    {
        self.code.len()
    }
}

} // verus!
