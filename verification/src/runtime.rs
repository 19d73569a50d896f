//! The stack machine. It runs a program one instruction at a time and stops
//! whenever something has to happen that it cannot do itself: printing,
//! calling a native function, or arithmetic on floating-point numbers. The
//! caller does that, pushes what came of it, and lets the machine go on.
use crate::errors::{RuntimeError, RuntimeErrorModel};
use crate::instructions::{Instruction, InstructionModel, Program};
use crate::text::{
    chars_of, decimal, float_literal, is_float_literal, is_scalar, parse_i64, parsed_i64,
    push_decimal, strings_view,
};
use crate::value::{float_pair, lemma_dango_view, views, Value, ValueModel, SKEWER_CAPACITY};
use vstd::prelude::*;

verus! {

/// The bit pattern of the floating-point number that is not a number, as
/// the quotient of zero by zero.
pub const NAN_BITS: u64 = 0x7ff8_0000_0000_0000;

/// The bit pattern of positive infinity, the quotient of another integer by
/// zero.
pub const INFINITY_BITS: u64 = 0x7ff0_0000_0000_0000;

/// What the machine asks of its caller.
pub enum RequestModel {
    /// Print this text.
    Print(Seq<char>),
    /// Call the native function of this name.
    Native(Seq<char>),
    /// Carry out this instruction on these operands, the deepest first:
    /// a floating-point number is involved.
    Float(InstructionModel, Seq<ValueModel>),
}

/// How the machine goes on after an instruction.
pub enum ActionModel {
    /// With the next instruction of the line.
    Next,
    /// At the start of the line of this number.
    Jump(i64),
    /// A loop condition was tested and came out so.
    Loop(bool),
    /// With the next instruction, once the caller has done this.
    Ask(RequestModel),
}

/// What an instruction does to a stack.
pub enum Outcome {
    /// The instruction left this stack, and the machine goes on so.
    Go { stack: Seq<ValueModel>, action: ActionModel },
    /// The instruction failed with this error and left this stack: what it
    /// had taken off by then is gone.
    Fail { stack: Seq<ValueModel>, error: RuntimeErrorModel },
}

/// The outcome that fails for want of a value on the stack.
pub open spec fn underflow(stack: Seq<ValueModel>) -> Outcome {
    Outcome::Fail { stack, error: RuntimeErrorModel::StackUnderflow }
}

/// The outcome that leaves `stack` and goes on with the next instruction.
pub open spec fn go(stack: Seq<ValueModel>) -> Outcome {
    Outcome::Go { stack, action: ActionModel::Next }
}

/// The outcome that leaves `stack` and asks for floating-point work.
pub open spec fn ask_float(
    stack: Seq<ValueModel>,
    instruction: InstructionModel,
    operands: Seq<ValueModel>,
) -> Outcome {
    Outcome::Go {
        stack,
        action: ActionModel::Ask(RequestModel::Float(instruction, operands)),
    }
}

/// The integer that stands for a truth value: 1 for true, 0 for false.
pub open spec fn flag(b: bool) -> ValueModel {
    ValueModel::Int(
        if b {
            1
        } else {
            0
        },
    )
}

/// The quotient of two integers. Division by zero gives a floating-point
/// number: not-a-number for zero by zero, infinity otherwise. The one
/// quotient that does not fit, of the least integer by -1, wraps around to
/// the least integer.
pub open spec fn int_quotient(a: i64, b: i64) -> ValueModel {
    if b == 0 {
        if a == 0 {
            ValueModel::Float(NAN_BITS)
        } else {
            ValueModel::Float(INFINITY_BITS)
        }
    } else if a == i64::MIN && b == -1 {
        ValueModel::Int(i64::MIN)
    } else if (a >= 0) == (b > 0) {
        ValueModel::Int((abs(a as int) / abs(b as int)) as i64)
    } else {
        ValueModel::Int((-(abs(a as int) / abs(b as int))) as i64)
    }
}

/// The absolute value of `i`.
pub open spec fn abs(i: int) -> int {
    if i < 0 {
        -i
    } else {
        i
    }
}

/// Why two dango cannot be joined.
pub open spec fn too_long_message(a: nat, b: nat) -> Seq<char> {
    "cannot create new dango as the lengths ("@ + decimal(a) + " and "@ + decimal(b)
        + ") combined are too long"@
}

/// Why so many values cannot go on one skewer.
pub open spec fn too_short_message(count: nat) -> Seq<char> {
    "skewer is too short for "@ + decimal(count) + " dumplings"@
}

/// What an instruction with two operands makes of them: `a` was pushed
/// first, `b` last. `None` where only floating-point arithmetic can tell.
/// It is stated for the four operations of arithmetic and the four
/// comparisons: no other instruction combines two operands.
pub open spec fn combine(instruction: InstructionModel, a: ValueModel, b: ValueModel) -> Option<
    Result<ValueModel, RuntimeErrorModel>,
> {
    match instruction {
        InstructionModel::Add => match (a, b) {
            (ValueModel::Int(x), ValueModel::Int(y)) => Some(
                Ok(ValueModel::Int(x.wrapping_add(y))),
            ),
            (ValueModel::Text(x), ValueModel::Text(y)) => Some(Ok(ValueModel::Text(x + y))),
            (ValueModel::Dango(x), ValueModel::Dango(y)) => if x.len() + y.len() > 5 {
                Some(Err(RuntimeErrorModel::CustomError(too_long_message(x.len(), y.len()))))
            } else {
                Some(Ok(ValueModel::Dango(x + y)))
            },
            _ => if float_pair(a, b) {
                None
            } else {
                Some(Err(RuntimeErrorModel::IncorrectOperationTypes("addition"@)))
            },
        },
        InstructionModel::Subtract => match (a, b) {
            (ValueModel::Int(x), ValueModel::Int(y)) => Some(
                Ok(ValueModel::Int(x.wrapping_sub(y))),
            ),
            _ => if float_pair(a, b) {
                None
            } else {
                Some(Err(RuntimeErrorModel::IncorrectOperationTypes("subtraction"@)))
            },
        },
        InstructionModel::Multiply => match (a, b) {
            (ValueModel::Int(x), ValueModel::Int(y)) => Some(
                Ok(ValueModel::Int(x.wrapping_mul(y))),
            ),
            _ => if float_pair(a, b) {
                None
            } else {
                Some(Err(RuntimeErrorModel::IncorrectOperationTypes("multiplication"@)))
            },
        },
        InstructionModel::Divide => match (a, b) {
            (ValueModel::Int(x), ValueModel::Int(y)) => Some(Ok(int_quotient(x, y))),
            _ => if float_pair(a, b) {
                None
            } else {
                Some(Err(RuntimeErrorModel::IncorrectOperationTypes("division"@)))
            },
        },
        InstructionModel::Equal => if a.float_pairs(b).len() > 0 {
            None
        } else {
            Some(Ok(flag(a.equal(b))))
        },
        InstructionModel::NotEqual => if a.float_pairs(b).len() > 0 {
            None
        } else {
            Some(Ok(flag(a.not_equal(b))))
        },
        InstructionModel::Greater => if float_pair(a, b) {
            None
        } else {
            Some(Ok(flag(a.greater(b))))
        },
        InstructionModel::Less => if float_pair(a, b) {
            None
        } else {
            Some(Ok(flag(a.less(b))))
        },
        _ => Some(Err(RuntimeErrorModel::StackUnderflow)),
    }
}

/// What the value becomes as an integer; `None` where only floating-point
/// arithmetic can tell. A string that writes no integer becomes nil, and so
/// does everything that is neither number nor string.
pub open spec fn to_int(v: ValueModel) -> Option<ValueModel> {
    match v {
        ValueModel::Int(i) => Some(v),
        ValueModel::Float(_) => None,
        ValueModel::Text(s) => match parsed_i64(s) {
            Some(i) => Some(ValueModel::Int(i)),
            None => Some(ValueModel::Nil),
        },
        _ => Some(ValueModel::Nil),
    }
}

/// What the value becomes as a floating-point number; `None` where only
/// floating-point arithmetic can tell. A string that writes no number
/// becomes nil, and so does everything that is neither number nor string.
pub open spec fn to_float(v: ValueModel) -> Option<ValueModel> {
    match v {
        ValueModel::Float(_) => Some(v),
        ValueModel::Int(_) => None,
        ValueModel::Text(s) => if float_literal(s) {
            None
        } else {
            Some(ValueModel::Nil)
        },
        _ => Some(ValueModel::Nil),
    }
}

/// The stack after `remove` has taken the dango `v` from the top of it and
/// `rest` was below: the rest of the dango, if any is left, and above it the
/// dango's first item. A value that is no dango, or an empty one, is gone.
pub open spec fn removed(rest: Seq<ValueModel>, v: ValueModel) -> Seq<ValueModel> {
    match v {
        ValueModel::Dango(items) => if items.len() == 0 {
            rest
        } else if items.len() == 1 {
            rest.push(items[0])
        } else {
            rest.push(ValueModel::Dango(items.skip(1))).push(items[0])
        },
        _ => rest,
    }
}

/// The string that a value without floating-point numbers becomes: raw
/// text as it stands, any other value as it is shown.
pub open spec fn stringified(v: ValueModel) -> ValueModel {
    match v {
        ValueModel::Raw(text) => ValueModel::Text(text),
        _ => ValueModel::Text(v.display()),
    }
}

/// What `instruction` does to `stack`, whose top is its last item, where
/// `natives` are the names of the registered native functions.
pub open spec fn apply(
    instruction: InstructionModel,
    stack: Seq<ValueModel>,
    natives: Seq<Seq<char>>,
) -> Outcome {
    let top = stack.last();
    let rest = stack.drop_last();
    match instruction {
        InstructionModel::Add
        | InstructionModel::Subtract
        | InstructionModel::Multiply
        | InstructionModel::Divide
        | InstructionModel::Equal
        | InstructionModel::NotEqual
        | InstructionModel::Greater
        | InstructionModel::Less => if stack.len() < 2 {
            underflow(Seq::empty())
        } else {
            match combine(instruction, rest.last(), top) {
                None => ask_float(rest.drop_last(), instruction, seq![rest.last(), top]),
                Some(Ok(v)) => go(rest.drop_last().push(v)),
                Some(Err(error)) => Outcome::Fail { stack: rest.drop_last(), error },
            }
        },
        InstructionModel::Int(val) => go(stack.push(ValueModel::Int(val))),
        InstructionModel::Null => go(stack.push(ValueModel::Nil)),
        InstructionModel::Text(text) => go(stack.push(ValueModel::Raw(text))),
        InstructionModel::Float(text) => ask_float(stack, instruction, Seq::empty()),
        InstructionModel::Nop => go(stack),
        InstructionModel::FnCall(name) => if natives.contains(name) {
            Outcome::Go { stack, action: ActionModel::Ask(RequestModel::Native(name)) }
        } else {
            Outcome::Fail { stack, error: RuntimeErrorModel::NonexistentFunction(name) }
        },
        InstructionModel::Length => match top {
            ValueModel::Dango(items) if stack.len() > 0 => go(
                stack.push(ValueModel::Int(items.len() as i64)),
            ),
            _ => go(stack.push(ValueModel::Int(0))),
        },
        InstructionModel::Fetch(depth) => if stack.len() <= depth {
            underflow(stack)
        } else {
            go(stack.push(stack[stack.len() - 1 - depth]))
        },
        InstructionModel::Skewer(count) => if count == 0 {
            Outcome::Fail {
                stack,
                error: RuntimeErrorModel::CustomError(
                    "cannot have dango with zero dumplings, that's just a stick"@,
                ),
            }
        } else if stack.len() < count {
            underflow(stack)
        } else if count > 5 {
            Outcome::Fail {
                stack,
                error: RuntimeErrorModel::CustomError(too_short_message(count)),
            }
        } else {
            go(
                stack.take(stack.len() - count).push(
                    ValueModel::Dango(Seq::new(count, |i: int| stack[stack.len() - 1 - i])),
                ),
            )
        },
        _ => if stack.len() == 0 {
            underflow(stack)
        } else {
            match instruction {
                InstructionModel::Jump => match top {
                    ValueModel::Int(target) => Outcome::Go {
                        stack: rest,
                        action: ActionModel::Jump(target),
                    },
                    _ => Outcome::Fail {
                        stack: rest,
                        error: RuntimeErrorModel::CustomError(
                            "cannot jump with a non-integer offset"@,
                        ),
                    },
                },
                InstructionModel::While => Outcome::Go {
                    stack: rest,
                    action: ActionModel::Loop(top.truthy()),
                },
                InstructionModel::Remove => go(removed(rest, top)),
                InstructionModel::Eat => if top.involves_float() {
                    ask_float(rest, instruction, seq![top])
                } else {
                    Outcome::Go {
                        stack: rest,
                        action: ActionModel::Ask(RequestModel::Print(top.display())),
                    }
                },
                InstructionModel::Stringify => if top.involves_float() {
                    ask_float(rest, instruction, seq![top])
                } else {
                    go(rest.push(stringified(top)))
                },
                InstructionModel::CharFromCodePoint => match top {
                    ValueModel::Int(cp) => if is_scalar(cp as int) {
                        go(rest.push(ValueModel::Text(seq![cp as char])))
                    } else {
                        Outcome::Fail {
                            stack: rest,
                            error: RuntimeErrorModel::NotACodePoint(Some(cp as int)),
                        }
                    },
                    _ => Outcome::Fail {
                        stack: rest,
                        error: RuntimeErrorModel::NotACodePoint(None),
                    },
                },
                InstructionModel::ToInt => match to_int(top) {
                    Some(v) => go(rest.push(v)),
                    None => ask_float(rest, instruction, seq![top]),
                },
                InstructionModel::ToFloat => match to_float(top) {
                    Some(v) => go(rest.push(v)),
                    None => ask_float(rest, instruction, seq![top]),
                },
                _ => go(stack),
            }
        },
    }
}

/// What the machine asks of its caller.
#[derive(Debug, PartialEq)]
pub enum Request {
    /// Print this text.
    Print(String),
    /// Call the native function of this name.
    Native(String),
    /// Carry out this instruction on these operands, the deepest first, and
    /// push what it yields: a floating-point number is involved.
    Float(Instruction, Vec<Value>),
}

impl View for Request {
    type V = RequestModel;

    open spec fn view(&self) -> RequestModel {
        match self {
            Request::Print(text) => RequestModel::Print(text@),
            Request::Native(name) => RequestModel::Native(name@),
            Request::Float(instruction, operands) => RequestModel::Float(
                instruction@,
                views(operands@),
            ),
        }
    }
}

/// How the machine goes on after an instruction.
#[derive(Debug, PartialEq)]
pub enum Action {
    Next,
    Jump(i64),
    Loop(bool),
    Ask(Request),
}

impl View for Action {
    type V = ActionModel;

    open spec fn view(&self) -> ActionModel {
        match self {
            Action::Next => ActionModel::Next,
            Action::Jump(target) => ActionModel::Jump(*target),
            Action::Loop(holds) => ActionModel::Loop(*holds),
            Action::Ask(request) => ActionModel::Ask(request@),
        }
    }
}

/// Whether `r`, with `stack` left behind, is what `expected` says.
pub open spec fn agrees(
    r: Result<Action, RuntimeError>,
    stack: Seq<ValueModel>,
    expected: Outcome,
) -> bool {
    match expected {
        Outcome::Go { stack: s, action } => r matches Ok(a) && a@ == action && stack == s,
        Outcome::Fail { stack: s, error } => r matches Err(x) && x@ == error && stack == s,
    }
}

/// Takes the top value off the stack.
pub fn pop_stack(stack: &mut Vec<Value>) -> (r: Result<Value, RuntimeError>)
    ensures
        old(stack)@.len() == 0 ==> r == Err::<Value, RuntimeError>(RuntimeError::StackUnderflow)
            && final(stack)@ == old(stack)@,
        old(stack)@.len() > 0 ==> r == Ok::<Value, RuntimeError>(old(stack)@.last())
            && final(stack)@ == old(stack)@.drop_last() && views(final(stack)@) == views(
            old(stack)@,
        ).drop_last() && old(stack)@.last()@ == views(old(stack)@).last(),
{
    match stack.pop() {
        Some(top) => {
            assert(views(stack@) =~= views(old(stack)@).drop_last());
            Ok(top)
        },
        None => Err(RuntimeError::StackUnderflow),
    }
}

/// Puts `value` on top of the stack.
pub fn push_stack(stack: &mut Vec<Value>, value: Value)
    ensures
        final(stack)@ == old(stack)@.push(value),
        views(final(stack)@) == views(old(stack)@).push(value@),
{
    stack.push(value);
    assert(views(stack@) =~= views(old(stack)@).push(value@));
}

/// The value that lies `depth` places below the top of the stack.
pub fn peek_stack(stack: &Vec<Value>, depth: usize) -> (r: Result<&Value, RuntimeError>)
    ensures
        stack@.len() <= depth ==> r == Err::<&Value, RuntimeError>(RuntimeError::StackUnderflow),
        stack@.len() > depth ==> r == Ok::<&Value, RuntimeError>(
            &stack@[stack@.len() - 1 - depth],
        ) && stack@[stack@.len() - 1 - depth]@ == views(stack@)[stack@.len() - 1 - depth],
{
    if stack.len() <= depth {
        return Err(RuntimeError::StackUnderflow);
    }
    Ok(&stack[stack.len() - depth - 1])
}

/// What an instruction with two operands made of them.
enum Combined {
    Value(Value),
    Float(Value, Value),
    Fail(RuntimeError),
}

/// Whether `r` is what `expected` says of the operands `a` and `b`.
spec fn combined(
    r: Combined,
    a: ValueModel,
    b: ValueModel,
    expected: Option<Result<ValueModel, RuntimeErrorModel>>,
) -> bool {
    match expected {
        None => r matches Combined::Float(x, y) && x@ == a && y@ == b,
        Some(Ok(v)) => r matches Combined::Value(x) && x@ == v,
        Some(Err(e)) => r matches Combined::Fail(x) && x@ == e,
    }
}

fn flag_value(b: bool) -> (r: Value)
    ensures
        r@ == flag(b),
{
    if b {
        Value::Int(1)
    } else {
        Value::Int(0)
    }
}

fn wrong_types(operation: &str) -> (r: Combined)
    ensures
        r matches Combined::Fail(e) && e@ == RuntimeErrorModel::IncorrectOperationTypes(
            operation@,
        ),
{
    Combined::Fail(RuntimeError::IncorrectOperationTypes(String::from_str(operation)))
}

fn divide_ints(a: i64, b: i64) -> (r: Value)
    ensures
        r@ == int_quotient(a, b),
{
    if b == 0 {
        if a == 0 {
            Value::Float(NAN_BITS)
        } else {
            Value::Float(INFINITY_BITS)
        }
    } else {
        proof {
            let m = abs(a as int);
            let n = abs(b as int);
            assert(0 <= m / n <= m && (m == 0 ==> m / n == 0)) by (nonlinear_arith)
                requires
                    m >= 0,
                    n > 0,
            ;
            assert(n == 1 ==> m / n == m) by (nonlinear_arith);
            assert(n >= 2 ==> 2 * (m / n) <= m) by (nonlinear_arith)
                requires
                    m >= 0,
            ;
            assert((a as int) * -1 == -(a as int));
            assert((b as int) * -1 == -(b as int));
        }
        match a.checked_div(b) {
            Some(q) => Value::Int(q),
            None => Value::Int(i64::MIN),
        }
    }
}

fn add_values(a: Value, b: Value) -> (r: Combined)
    ensures
        combined(r, a@, b@, combine(InstructionModel::Add, a@, b@)),
{
    match (a, b) {
        (Value::Int(x), Value::Int(y)) => Combined::Value(Value::Int(x.wrapping_add(y))),
        (Value::String(x), Value::String(y)) => {
            let mut joined = x;
            joined.append(y.as_str());
            Combined::Value(Value::String(joined))
        },
        (Value::Dango(x), Value::Dango(y)) => {
            proof {
                lemma_dango_view(x);
                lemma_dango_view(y);
            }
            if x.len() > SKEWER_CAPACITY || y.len() > SKEWER_CAPACITY - x.len() {
                let mut message = String::from_str("cannot create new dango as the lengths (");
                push_decimal(&mut message, x.len() as u64);
                message.append(" and ");
                push_decimal(&mut message, y.len() as u64);
                message.append(") combined are too long");
                Combined::Fail(RuntimeError::CustomError(message))
            } else {
                let mut joined = x;
                let mut tail = y;
                joined.append(&mut tail);
                proof {
                    lemma_dango_view(joined);
                    assert(views(joined@) =~= views(x@) + views(y@));
                }
                Combined::Value(Value::Dango(joined))
            }
        },
        (a, b) => if a.float_pair(&b) {
            Combined::Float(a, b)
        } else {
            wrong_types("addition")
        },
    }
}

fn calculate(instruction: &Instruction, a: Value, b: Value) -> (r: Combined)
    requires
        instruction@ is Subtract || instruction@ is Multiply || instruction@ is Divide,
    ensures
        combined(r, a@, b@, combine(instruction@, a@, b@)),
{
    match (a, b) {
        (Value::Int(x), Value::Int(y)) => match instruction {
            Instruction::Subtract => Combined::Value(Value::Int(x.wrapping_sub(y))),
            Instruction::Multiply => Combined::Value(Value::Int(x.wrapping_mul(y))),
            _ => Combined::Value(divide_ints(x, y)),
        },
        (a, b) => if a.float_pair(&b) {
            Combined::Float(a, b)
        } else {
            match instruction {
                Instruction::Subtract => wrong_types("subtraction"),
                Instruction::Multiply => wrong_types("multiplication"),
                _ => wrong_types("division"),
            }
        },
    }
}

fn compare(instruction: &Instruction, a: Value, b: Value) -> (r: Combined)
    requires
        instruction@ is Equal || instruction@ is NotEqual || instruction@ is Greater
            || instruction@ is Less,
    ensures
        combined(r, a@, b@, combine(instruction@, a@, b@)),
{
    let holds = match instruction {
        Instruction::Equal => a.equals(&b),
        Instruction::NotEqual => a.differs(&b),
        Instruction::Greater => a.exceeds(&b),
        _ => a.precedes(&b),
    };
    match holds {
        Some(answer) => Combined::Value(flag_value(answer)),
        None => Combined::Float(a, b),
    }
}

fn is_registered(natives: &Vec<String>, name: &String) -> (r: bool)
    ensures
        r == strings_view(natives@).contains(name@),
{
    let mut i: usize = 0;
    while i < natives.len()
        invariant
            i <= natives@.len(),
            forall|j: int| 0 <= j < i ==> strings_view(natives@)[j] != name@,
        decreases natives@.len() - i,
    {
        if natives[i] == *name {
            assert(strings_view(natives@)[i as int] == name@);
            return true;
        }
        i += 1;
    }
    false
}

fn two_operands(instruction: &Instruction, stack: &mut Vec<Value>) -> (r: Result<
    Action,
    RuntimeError,
>)
    requires
        instruction@ is Add || instruction@ is Subtract || instruction@ is Multiply
            || instruction@ is Divide || instruction@ is Equal || instruction@ is NotEqual
            || instruction@ is Greater || instruction@ is Less,
    ensures
        agrees(
            r,
            views(final(stack)@),
            apply(instruction@, views(old(stack)@), Seq::empty()),
        ),
{
    let b = match pop_stack(stack) {
        Ok(value) => value,
        Err(e) => {
            assert(views(stack@) =~= Seq::<ValueModel>::empty());
            return Err(e);
        },
    };
    let a = match pop_stack(stack) {
        Ok(value) => value,
        Err(e) => {
            assert(views(stack@) =~= Seq::<ValueModel>::empty());
            return Err(e);
        },
    };
    let outcome = match instruction {
        Instruction::Add => add_values(a, b),
        Instruction::Subtract | Instruction::Multiply | Instruction::Divide => calculate(
            instruction,
            a,
            b,
        ),
        _ => compare(instruction, a, b),
    };
    match outcome {
        Combined::Value(value) => {
            push_stack(stack, value);
            Ok(Action::Next)
        },
        Combined::Float(x, y) => {
            let operands = vec![x, y];
            assert(views(operands@) =~= seq![x@, y@]);
            Ok(Action::Ask(Request::Float(instruction.copy(), operands)))
        },
        Combined::Fail(e) => Err(e),
    }
}

fn ask_for(instruction: &Instruction, operand: Value) -> (r: Result<Action, RuntimeError>)
    ensures
        r matches Ok(a) && a@ == ActionModel::Ask(
            RequestModel::Float(instruction@, seq![operand@]),
        ),
{
    let operands = vec![operand];
    assert(views(operands@) =~= seq![operand@]);
    Ok(Action::Ask(Request::Float(instruction.copy(), operands)))
}

fn remove_first(stack: &mut Vec<Value>, top: Value)
    ensures
        views(final(stack)@) == removed(views(old(stack)@), top@),
{
    match top {
        Value::Dango(items) => {
            proof {
                lemma_dango_view(items);
            }
            let mut left = items;
            if left.len() > 0 {
                let first = left.remove(0);
                assert(views(left@) =~= views(items@).skip(1));
                if left.len() > 0 {
                    proof {
                        lemma_dango_view(left);
                    }
                    push_stack(stack, Value::Dango(left));
                }
                push_stack(stack, first);
            }
        },
        _ => {},
    }
}

fn skewer(count: u8, stack: &mut Vec<Value>) -> (r: Result<Action, RuntimeError>)
    ensures
        agrees(
            r,
            views(final(stack)@),
            apply(InstructionModel::Skewer(count as nat), views(old(stack)@), Seq::empty()),
        ),
{
    if count == 0 {
        return Err(
            RuntimeError::CustomError(
                String::from_str("cannot have dango with zero dumplings, that's just a stick"),
            ),
        );
    }
    if stack.len() < count as usize {
        return Err(RuntimeError::StackUnderflow);
    }
    if count as usize > SKEWER_CAPACITY {
        let mut message = String::from_str("skewer is too short for ");
        push_decimal(&mut message, count as u64);
        message.append(" dumplings");
        return Err(RuntimeError::CustomError(message));
    }
    let ghost before = views(stack@);
    let mut held: Vec<Value> = Vec::new();
    let mut i: u8 = 0;
    while i < count
        invariant
            i <= count <= before.len(),
            held@.len() == i,
            views(stack@) == before.take(before.len() - i),
            forall|j: int| 0 <= j < i ==> (#[trigger] held@[j])@ == before[before.len() - 1 - j],
        decreases count - i,
    {
        assert(views(stack@).len() == stack@.len());
        match pop_stack(stack) {
            Ok(value) => {
                held.push(value);
                assert(views(stack@) =~= before.take(before.len() - i - 1));
            },
            Err(e) => {
                return Err(e);
            },
        }
        i += 1;
    }
    proof {
        lemma_dango_view(held);
        assert(views(held@) =~= Seq::new(
            count as nat,
            |i: int| before[before.len() - 1 - i],
        ));
    }
    push_stack(stack, Value::Dango(held));
    Ok(Action::Next)
}

fn code_point(top: Value) -> (r: Result<Value, RuntimeError>)
    ensures
        match top@ {
            ValueModel::Int(cp) => if is_scalar(cp as int) {
                r matches Ok(v) && v@ == ValueModel::Text(seq![cp as char])
            } else {
                r matches Err(e) && e@ == RuntimeErrorModel::NotACodePoint(Some(cp as int))
            },
            _ => r matches Err(e) && e@ == RuntimeErrorModel::NotACodePoint(None),
        },
{
    match top {
        Value::Int(cp) => {
            if cp < 0 || cp > 0x10FFFF {
                return Err(RuntimeError::NotACodePoint(Some(cp)));
            }
            match char::from_u32(cp as u32) {
                Some(character) => {
                    let mut text = String::new();
                    text.push(character);
                    assert(text@ =~= seq![cp as char]);
                    Ok(Value::String(text))
                },
                None => Err(RuntimeError::NotACodePoint(Some(cp))),
            }
        },
        _ => Err(RuntimeError::NotACodePoint(None)),
    }
}

/// The value as an integer, or the value itself where only floating-point
/// arithmetic can convert it.
fn as_int(top: Value) -> (r: Result<Value, Value>)
    ensures
        match to_int(top@) {
            Some(v) => r matches Ok(x) && x@ == v,
            None => r matches Err(x) && x@ == top@,
        },
{
    match top {
        Value::Int(i) => Ok(Value::Int(i)),
        Value::Float(bits) => Err(Value::Float(bits)),
        Value::String(text) => {
            let chars = chars_of(text.as_str());
            match parse_i64(&chars) {
                Some(i) => Ok(Value::Int(i)),
                None => Ok(Value::Nil),
            }
        },
        _ => Ok(Value::Nil),
    }
}

/// The value as a floating-point number, or the value itself where only
/// floating-point arithmetic can convert it.
fn as_float(top: Value) -> (r: Result<Value, Value>)
    ensures
        match to_float(top@) {
            Some(v) => r matches Ok(x) && x@ == v,
            None => r matches Err(x) && x@ == top@,
        },
{
    match top {
        Value::Float(bits) => Ok(Value::Float(bits)),
        Value::Int(i) => Err(Value::Int(i)),
        Value::String(text) => {
            let chars = chars_of(text.as_str());
            if is_float_literal(&chars) {
                Err(Value::String(text))
            } else {
                Ok(Value::Nil)
            }
        },
        _ => Ok(Value::Nil),
    }
}

fn one_operand(instruction: &Instruction, stack: &mut Vec<Value>) -> (r: Result<
    Action,
    RuntimeError,
>)
    requires
        instruction@ is Jump || instruction@ is While || instruction@ is Remove
            || instruction@ is Eat || instruction@ is Stringify
            || instruction@ is CharFromCodePoint || instruction@ is ToInt
            || instruction@ is ToFloat,
    ensures
        agrees(
            r,
            views(final(stack)@),
            apply(instruction@, views(old(stack)@), Seq::empty()),
        ),
{
    let top = match pop_stack(stack) {
        Ok(value) => value,
        Err(e) => {
            return Err(e);
        },
    };
    match instruction {
        Instruction::Jump => match top {
            Value::Int(target) => Ok(Action::Jump(target)),
            _ => Err(
                RuntimeError::CustomError(
                    String::from_str("cannot jump with a non-integer offset"),
                ),
            ),
        },
        Instruction::While => Ok(Action::Loop(top.truthy())),
        Instruction::Remove => {
            remove_first(stack, top);
            Ok(Action::Next)
        },
        Instruction::Eat => match top.display() {
            Some(text) => Ok(Action::Ask(Request::Print(text))),
            None => ask_for(instruction, top),
        },
        Instruction::Stringify => match top {
            Value::RawText(text) => {
                push_stack(stack, Value::String(text));
                Ok(Action::Next)
            },
            other => match other.display() {
                Some(text) => {
                    push_stack(stack, Value::String(text));
                    Ok(Action::Next)
                },
                None => ask_for(instruction, other),
            },
        },
        Instruction::CharFromCodePoint => match code_point(top) {
            Ok(value) => {
                push_stack(stack, value);
                Ok(Action::Next)
            },
            Err(e) => Err(e),
        },
        Instruction::ToInt => match as_int(top) {
            Ok(value) => {
                push_stack(stack, value);
                Ok(Action::Next)
            },
            Err(value) => ask_for(instruction, value),
        },
        _ => match as_float(top) {
            Ok(value) => {
                push_stack(stack, value);
                Ok(Action::Next)
            },
            Err(value) => ask_for(instruction, value),
        },
    }
}

/// Carries out one instruction on the stack, and says how the machine goes
/// on. `natives` holds the names of the registered native functions.
pub fn interpret(instruction: &Instruction, stack: &mut Vec<Value>, natives: &Vec<String>) -> (r:
    Result<Action, RuntimeError>)
    ensures
        agrees(
            r,
            views(final(stack)@),
            apply(instruction@, views(old(stack)@), strings_view(natives@)),
        ),
{
    match instruction {
        Instruction::Add
        | Instruction::Subtract
        | Instruction::Multiply
        | Instruction::Divide
        | Instruction::Equal
        | Instruction::NotEqual
        | Instruction::Greater
        | Instruction::Less => two_operands(instruction, stack),
        Instruction::Jump
        | Instruction::While
        | Instruction::Remove
        | Instruction::Eat
        | Instruction::Stringify
        | Instruction::CharFromCodePoint
        | Instruction::ToInt
        | Instruction::ToFloat => one_operand(instruction, stack),
        Instruction::Int(val) => {
            push_stack(stack, Value::Int(*val));
            Ok(Action::Next)
        },
        Instruction::Null => {
            push_stack(stack, Value::Nil);
            Ok(Action::Next)
        },
        Instruction::Text(text) => {
            push_stack(stack, Value::RawText(text.clone()));
            Ok(Action::Next)
        },
        Instruction::Float(_) => {
            let operands: Vec<Value> = Vec::new();
            assert(views(operands@) =~= Seq::<ValueModel>::empty());
            Ok(Action::Ask(Request::Float(instruction.copy(), operands)))
        },
        Instruction::Nop => Ok(Action::Next),
        Instruction::FnCall(name) => if is_registered(natives, name) {
            Ok(Action::Ask(Request::Native(name.clone())))
        } else {
            Err(RuntimeError::NonexistentFunction(name.clone()))
        },
        Instruction::Length => {
            let length: i64 = match peek_stack(stack, 0) {
                Ok(Value::Dango(items)) => {
                    proof {
                        lemma_dango_view(*items);
                    }
                    items.len() as i64
                },
                _ => 0,
            };
            push_stack(stack, Value::Int(length));
            Ok(Action::Next)
        },
        Instruction::Fetch(depth) => {
            let value = match peek_stack(stack, *depth) {
                Ok(found) => found.copy(),
                Err(e) => {
                    return Err(e);
                },
            };
            push_stack(stack, value);
            Ok(Action::Next)
        },
        Instruction::Skewer(count) => skewer(*count, stack),
    }
}

/// The state of the machine as a mathematical value.
pub struct Machine {
    /// The program: its lines, each a list of instructions.
    pub program: Seq<Seq<InstructionModel>>,
    /// The index of the current line.
    pub line: nat,
    /// The index, within the current line, of the instruction to run next.
    pub index: nat,
    /// The loop latch: while it is set, the current line is run again when
    /// its end is reached.
    pub in_while: bool,
    /// The names of the registered native functions.
    pub natives: Seq<Seq<char>>,
    /// The operand stack; its top is its last item.
    pub stack: Seq<ValueModel>,
}

/// What one step, or a run of steps, came to.
pub enum StepModel {
    /// The machine can go on.
    Running,
    /// The program has ended with this result.
    Finished(ValueModel),
    /// The machine goes on once the caller has done this.
    Request(RequestModel),
    /// The run has failed.
    Failed(RuntimeErrorModel),
}

/// The machine after some steps, and what they came to.
pub struct Transition {
    pub next: Machine,
    pub result: StepModel,
}

/// The index of the line that a jump to line number `target` leads to, in a
/// program of `lines` lines. Line numbers start at 1. A number that names
/// no line leads past the last line, where the run ends.
pub open spec fn target_line(target: i64, lines: nat) -> nat {
    if 1 <= target <= lines {
        (target - 1) as nat
    } else {
        lines
    }
}

/// One step of the machine. Past the last line the run is finished and
/// yields the top of the stack, or nil from an empty stack. At the end of a
/// line the machine moves to the start of the next one, or of the same one
/// while the loop latch is set. Otherwise it carries out the instruction at
/// hand.
pub open spec fn machine_step(m: Machine) -> Transition {
    if m.line >= m.program.len() {
        if m.stack.len() > 0 {
            Transition {
                next: Machine { stack: m.stack.drop_last(), ..m },
                result: StepModel::Finished(m.stack.last()),
            }
        } else {
            Transition { next: m, result: StepModel::Finished(ValueModel::Nil) }
        }
    } else if m.index >= m.program[m.line as int].len() {
        Transition {
            next: Machine {
                line: if m.in_while {
                    m.line
                } else {
                    m.line + 1
                },
                index: 0,
                ..m
            },
            result: StepModel::Running,
        }
    } else {
        match apply(m.program[m.line as int][m.index as int], m.stack, m.natives) {
            Outcome::Fail { stack, error } => Transition {
                next: Machine { stack, ..m },
                result: StepModel::Failed(error),
            },
            Outcome::Go { stack, action } => match action {
                ActionModel::Next => Transition {
                    next: Machine { stack, index: m.index + 1, ..m },
                    result: StepModel::Running,
                },
                ActionModel::Jump(target) => Transition {
                    next: Machine {
                        stack,
                        line: target_line(target, m.program.len()),
                        index: 0,
                        in_while: false,
                        ..m
                    },
                    result: StepModel::Running,
                },
                ActionModel::Loop(holds) => Transition {
                    next: if holds {
                        Machine { stack, index: m.index + 1, in_while: true, ..m }
                    } else {
                        Machine { stack, line: m.line + 1, index: 0, in_while: false, ..m }
                    },
                    result: StepModel::Running,
                },
                ActionModel::Ask(request) => Transition {
                    next: Machine { stack, index: m.index + 1, ..m },
                    result: StepModel::Request(request),
                },
            },
        }
    }
}

/// Up to `fuel` steps of the machine: it stops before that where a step
/// does not leave it running.
pub open spec fn machine_run(m: Machine, fuel: nat) -> Transition
    decreases fuel,
{
    if fuel == 0 {
        Transition { next: m, result: StepModel::Running }
    } else {
        let t = machine_step(m);
        if t.result is Running {
            machine_run(t.next, (fuel - 1) as nat)
        } else {
            t
        }
    }
}

/// The machine that is about to run `program` from its first line, with
/// the stack and the native functions of `m`.
pub open spec fn loaded(m: Machine, program: Seq<Seq<InstructionModel>>) -> Machine {
    Machine { program, line: 0, index: 0, in_while: false, ..m }
}

/// What one step, or a run of steps, came to.
#[derive(Debug, PartialEq)]
pub enum Step {
    /// The machine can go on.
    Running,
    /// The program has ended with this result.
    Finished(Value),
    /// The machine goes on once the caller has done this.
    Request(Request),
}

/// Whether `r`, with the machine left as `after`, is what `expected` says.
pub open spec fn stepped(r: Result<Step, RuntimeError>, after: Machine, expected: Transition) -> bool {
    after == expected.next && match expected.result {
        StepModel::Running => r matches Ok(Step::Running),
        StepModel::Finished(v) => r matches Ok(Step::Finished(x)) && x@ == v,
        StepModel::Request(q) => r matches Ok(Step::Request(x)) && x@ == q,
        StepModel::Failed(e) => r matches Err(x) && x@ == e,
    }
}

/// The stack machine.
pub struct Runtime {
    program: Program,
    line: usize,
    index: usize,
    in_while: bool,
    natives: Vec<String>,
    stack: Vec<Value>,
}

impl View for Runtime {
    type V = Machine;

    closed spec fn view(&self) -> Machine {
        Machine {
            program: self.program@,
            line: self.line as nat,
            index: self.index as nat,
            in_while: self.in_while,
            natives: strings_view(self.natives@),
            stack: views(self.stack@),
        }
    }
}

impl Runtime {
    /// A machine with no program, no native functions and an empty stack.
    pub fn new() -> (r: Self)
        ensures
            r@ == (Machine {
                program: Seq::empty(),
                line: 0,
                index: 0,
                in_while: false,
                natives: Seq::empty(),
                stack: Seq::empty(),
            }),
    {
        let r = Self {
            program: Program::new(),
            line: 0,
            index: 0,
            in_while: false,
            natives: Vec::new(),
            stack: Vec::new(),
        };
        assert(r@.natives =~= Seq::<Seq<char>>::empty());
        assert(r@.stack =~= Seq::<ValueModel>::empty());
        r
    }

    /// Registers `name` as the name of a native function: the machine then
    /// asks its caller to call it where the program does.
    pub fn register_function(&mut self, name: String)
        ensures
            final(self)@ == (Machine { natives: old(self)@.natives.push(name@), ..old(self)@ }),
    {
        self.natives.push(name);
        assert(strings_view(self.natives@) =~= strings_view(old(self).natives@).push(name@));
    }

    /// Puts `value` on top of the stack.
    pub fn push(&mut self, value: Value)
        ensures
            final(self)@ == (Machine { stack: old(self)@.stack.push(value@), ..old(self)@ }),
    {
        push_stack(&mut self.stack, value);
    }

    /// Takes the top value off the stack.
    pub fn pop(&mut self) -> (r: Result<Value, RuntimeError>)
        ensures
            old(self)@.stack.len() == 0 ==> (r matches Err(RuntimeError::StackUnderflow)
                && final(self)@ == old(self)@),
            old(self)@.stack.len() > 0 ==> (r matches Ok(v) && v@ == old(self)@.stack.last()
                && final(self)@ == (Machine { stack: old(self)@.stack.drop_last(), ..old(self)@ })),
    {
        pop_stack(&mut self.stack)
    }

    /// Makes `program` the program to run, from its first line. The stack
    /// stays as it is.
    pub fn load(&mut self, program: Program)
        ensures
            final(self)@ == loaded(old(self)@, program@),
    {
        self.program = program;
        self.line = 0;
        self.index = 0;
        self.in_while = false;
    }

    /// One step of the machine.
    pub fn step(&mut self) -> (r: Result<Step, RuntimeError>)
        ensures
            stepped(r, final(self)@, machine_step(old(self)@)),
    {
        if self.line >= self.program.lines() {
            let result = match pop_stack(&mut self.stack) {
                Ok(top) => top,
                Err(_) => Value::Nil,
            };
            return Ok(Step::Finished(result));
        }
        let line = self.program.get_line(self.line);
        if self.index >= line.len() {
            if !self.in_while {
                self.line += 1;
            }
            self.index = 0;
            return Ok(Step::Running);
        }
        let action = match interpret(&line[self.index], &mut self.stack, &self.natives) {
            Ok(action) => action,
            Err(e) => {
                return Err(e);
            },
        };
        match action {
            Action::Next => {
                self.index += 1;
                Ok(Step::Running)
            },
            Action::Jump(target) => {
                let lines = self.program.lines();
                self.line = if 1 <= target && (target as u64) <= (lines as u64) {
                    (target - 1) as usize
                } else {
                    lines
                };
                self.index = 0;
                self.in_while = false;
                Ok(Step::Running)
            },
            Action::Loop(holds) => {
                self.in_while = holds;
                if holds {
                    self.index += 1;
                } else {
                    self.line += 1;
                    self.index = 0;
                }
                Ok(Step::Running)
            },
            Action::Ask(request) => {
                self.index += 1;
                Ok(Step::Request(request))
            },
        }
    }

    /// Up to `fuel` steps of the machine: it stops before that where the
    /// program ends, the run fails or the caller has something to do.
    /// `Running` says that the steps are used up and the program has not
    /// ended.
    pub fn resume(&mut self, fuel: usize) -> (r: Result<Step, RuntimeError>)
        ensures
            stepped(r, final(self)@, machine_run(old(self)@, fuel as nat)),
    {
        let mut left = fuel;
        while left > 0
            invariant
                machine_run(old(self)@, fuel as nat) == machine_run(self@, left as nat),
            decreases left,
        {
            match self.step() {
                Ok(Step::Running) => {},
                other => {
                    return other;
                },
            }
            left -= 1;
        }
        Ok(Step::Running)
    }

    /// Runs `program` from its first line, for up to `fuel` steps.
    pub fn run(&mut self, program: Program, fuel: usize) -> (r: Result<Step, RuntimeError>)
        ensures
            stepped(r, final(self)@, machine_run(loaded(old(self)@, program@), fuel as nat)),
    {
        self.load(program);
        self.resume(fuel)
    }
}

/// To make a string of a value twice is to make it once: for every value
/// that is no raw text and holds no floating-point number, the instruction
/// leaves the stack that it found when it runs a second time.
pub proof fn lemma_stringify_idempotent(
    stack: Seq<ValueModel>,
    v: ValueModel,
    natives: Seq<Seq<char>>,
)
    requires
        !(v is Raw),
        !v.involves_float(),
    ensures
        stringified(stringified(v)) == stringified(v),
        apply(InstructionModel::Stringify, stack.push(v), natives) == go(
            stack.push(stringified(v)),
        ),
        apply(InstructionModel::Stringify, stack.push(stringified(v)), natives) == go(
            stack.push(stringified(v)),
        ),
{
    assert(stack.push(v).drop_last() =~= stack);
    assert(stack.push(stringified(v)).drop_last() =~= stack);
}

/// A run that has come to an end, a failure or a request comes to the same
/// with more steps to spend.
pub proof fn lemma_run_is_stable(m: Machine, fuel: nat, more: nat)
    requires
        !(machine_run(m, fuel).result is Running),
    ensures
        machine_run(m, fuel + more) == machine_run(m, fuel),
    decreases fuel,
{
    if fuel > 0 {
        let t = machine_step(m);
        if t.result is Running {
            lemma_run_is_stable(t.next, (fuel - 1) as nat, more);
        }
    }
}

/// Two runs of one program from one state that both come to an end yield
/// the same value and leave the same machine, however many steps each was
/// given.
pub proof fn lemma_run_deterministic(
    m: Machine,
    program: Seq<Seq<InstructionModel>>,
    first_fuel: nat,
    first: Result<Step, RuntimeError>,
    first_after: Machine,
    second_fuel: nat,
    second: Result<Step, RuntimeError>,
    second_after: Machine,
)
    requires
        stepped(first, first_after, machine_run(loaded(m, program), first_fuel)),
        stepped(second, second_after, machine_run(loaded(m, program), second_fuel)),
        first matches Ok(Step::Finished(_)),
        second matches Ok(Step::Finished(_)),
    ensures
        first->Ok_0->Finished_0@ == second->Ok_0->Finished_0@,
        first_after == second_after,
{
    let start = loaded(m, program);
    if first_fuel <= second_fuel {
        lemma_run_is_stable(start, first_fuel, (second_fuel - first_fuel) as nat);
    } else {
        lemma_run_is_stable(start, second_fuel, (first_fuel - second_fuel) as nat);
    }
}

} // verus!
