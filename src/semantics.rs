use vstd::prelude::*;

use crate::error::VmError;
use crate::program::{Ins, Op};
use crate::value::{key_of, text_of, Val};

verus! {

/// The state that instructions change: the program counter, the operand
/// stack (top last), the context map and the two flags.
pub ghost struct Machine {
    pub pc: int,
    pub stack: Seq<Val>,
    pub context: Map<u64, Val>,
    pub running: bool,
    pub exited: bool,
}

/// What an instruction asks of the host once it is done.
pub ghost enum Effect {
    /// Nothing: go on.
    Continue,
    /// Write this text to standard output.
    Output(Seq<char>),
    /// Call the foreign function at this position of the registry.
    Foreign(nat),
}

/// `1` for true, `0` for false.
pub open spec fn truth(b: bool) -> Val {
    if b { Val::Num(1) } else { Val::Num(0) }
}

/// Truncation to a 32-bit signed integer, saturating at its bounds.
pub open spec fn trunc_i32(n: int) -> int {
    if n < i32::MIN { i32::MIN as int } else if n > i32::MAX { i32::MAX as int } else { n }
}

/// Truncation to an unsigned byte, saturating at its bounds.
pub open spec fn trunc_u8(n: int) -> int {
    if n < 0 { 0 } else if n > 255 { 255 } else { n }
}

/// A jump target brought into `[0, len]`: below the program it lands on the
/// first instruction, beyond it on its end.
pub open spec fn clamp_pc(t: int, len: int) -> int {
    if t < 0 { 0 } else if t > len { len } else { t }
}

/// The instruction index of a label: the last definition of `name` wins.
pub open spec fn label_lookup(labels: Seq<(Seq<char>, int)>, name: Seq<char>) -> Option<int>
    decreases labels.len(),
{
    if labels.len() == 0 {
        None
    } else if labels.last().0 == name {
        Some(labels.last().1)
    } else {
        label_lookup(labels.drop_last(), name)
    }
}

/// The index of the closing brace that closes the block open at depth
/// `depth` when the scan reaches index `i`.
pub open spec fn matching_close(prog: Seq<Ins>, i: int, depth: int) -> Option<int>
    decreases prog.len() - i,
{
    if i < 0 || i >= prog.len() {
        None
    } else {
        match prog[i] {
            Ins::OpenBrace => matching_close(prog, i + 1, depth + 1),
            Ins::CloseBrace => if depth <= 1 {
                Some(i)
            } else {
                matching_close(prog, i + 1, depth - 1)
            },
            _ => matching_close(prog, i + 1, depth),
        }
    }
}

/// A matching close lies at or after the start of the scan, inside the program.
pub proof fn lemma_matching_close_in_range(prog: Seq<Ins>, i: int, depth: int)
    ensures
        matching_close(prog, i, depth) matches Some(j) ==> i <= j < prog.len(),
    decreases prog.len() - i,
{
    if 0 <= i < prog.len() {
        lemma_matching_close_in_range(prog, i + 1, depth + 1);
        lemma_matching_close_in_range(prog, i + 1, depth - 1);
        lemma_matching_close_in_range(prog, i + 1, depth);
    }
}

/// The top of the stack.
pub open spec fn top(s: Seq<Val>) -> Val {
    s[s.len() - 1]
}

/// The element below the top.
pub open spec fn second(s: Seq<Val>) -> Val {
    s[s.len() - 2]
}

/// The stack without its two top elements.
pub open spec fn drop2(s: Seq<Val>) -> Seq<Val> {
    s.subrange(0, s.len() - 2)
}

/// The result of an arithmetic operation on two numbers, `a` the former top.
pub open spec fn arith(op: Op, a: int, b: int) -> int {
    match op {
        Op::Plus => a + b,
        Op::Min => a - b,
        _ => a * b,
    }
}

/// The machine with a new stack.
pub open spec fn with_stack(m: Machine, s: Seq<Val>) -> Machine {
    Machine { stack: s, ..m }
}

/// The machine with a new program counter.
pub open spec fn with_pc(m: Machine, pc: int) -> Machine {
    Machine { pc: pc, ..m }
}

/// The upper bound of `randInt` for the top of the stack, as truncated.
pub open spec fn rand_bound(m: Machine) -> int {
    match top(m.stack) {
        Val::Num(x) => trunc_i32(x as int),
        Val::Str(_) => 0,
    }
}

/// What a built-in operation does to the machine, `a` being the top of the
/// stack and `b` the value below it. The program counter of the result is
/// the one before the step moves it on: a jump to `t` leaves it at `t - 1`.
/// `draw` is the number that `randInt` drew.
pub open spec fn op_spec(op: Op, m: Machine, len: int, labels: Seq<(Seq<char>, int)>, draw: int)
    -> Result<(Machine, Effect), VmError>
{
    let s = m.stack;
    let n = s.len();
    let need: int = match op {
        Op::Plus | Op::Min | Op::Mul | Op::Concat | Op::Rconcat | Op::Eq | Op::Or | Op::And
        | Op::Gt | Op::Lt | Op::SetContext => 2,
        Op::Nop | Op::Ppc | Op::Pause | Op::Exit | Op::StackSize => 0,
        _ => 1,
    };
    if n < need {
        Err(VmError::StackUnderflow)
    } else {
        match op {
            Op::Nop => Ok((m, Effect::Continue)),
            Op::Pop => Ok((with_stack(m, s.drop_last()), Effect::Continue)),
            Op::Plus | Op::Min | Op::Mul => match (top(s), second(s)) {
                (Val::Num(a), Val::Num(b)) => {
                    let r = arith(op, a as int, b as int);
                    if i64::MIN <= r && r <= i64::MAX {
                        Ok((with_stack(m, drop2(s).push(Val::Num(r as i64))), Effect::Continue))
                    } else {
                        Err(VmError::Overflow)
                    }
                },
                _ => Ok((with_stack(m, drop2(s)), Effect::Continue)),
            },
            Op::Concat => Ok((
                with_stack(m, drop2(s).push(Val::Str(text_of(top(s)) + text_of(second(s))))),
                Effect::Continue,
            )),
            Op::Rconcat => Ok((
                with_stack(m, drop2(s).push(Val::Str(text_of(second(s)) + text_of(top(s))))),
                Effect::Continue,
            )),
            Op::RandInt => match top(s) {
                Val::Num(_) => if rand_bound(m) <= 0 {
                    Err(VmError::EmptyRange)
                } else {
                    Ok((with_stack(m, s.drop_last().push(Val::Num(draw as i64))), Effect::Continue))
                },
                Val::Str(_) => Err(VmError::TypeError),
            },
            Op::CharCode => match top(s) {
                Val::Num(x) => Ok((
                    with_stack(m, s.drop_last().push(Val::Str(seq![(trunc_u8(x as int) as u8) as char]))),
                    Effect::Continue,
                )),
                Val::Str(_) => Err(VmError::TypeError),
            },
            Op::Ppc => Ok((with_stack(m, s.push(Val::Num(m.pc as i64))), Effect::Continue)),
            Op::Eq => {
                let same = match (top(s), second(s)) {
                    (Val::Num(a), Val::Num(b)) => a == b,
                    (Val::Str(a), Val::Str(b)) => a == b,
                    _ => false,
                };
                Ok((with_stack(m, drop2(s).push(truth(same))), Effect::Continue))
            },
            Op::Not => match top(s) {
                Val::Num(a) => Ok((with_stack(m, s.drop_last().push(truth(a == 0))), Effect::Continue)),
                Val::Str(_) => Err(VmError::TypeError),
            },
            Op::Or | Op::And | Op::Gt | Op::Lt => match (top(s), second(s)) {
                (Val::Num(a), Val::Num(b)) => {
                    let r = match op {
                        Op::Or => a != 0 || b != 0,
                        Op::And => a != 0 && b != 0,
                        Op::Gt => trunc_i32(a as int) > trunc_i32(b as int),
                        _ => trunc_i32(a as int) < trunc_i32(b as int),
                    };
                    Ok((with_stack(m, drop2(s).push(truth(r))), Effect::Continue))
                },
                _ => Err(VmError::TypeError),
            },
            Op::Jgz | Op::Jz => match top(s) {
                Val::Num(a) => {
                    let taken = if op == Op::Jgz { a > 0 } else { a == 0 };
                    let pc = if taken && m.pc + 1 < len { m.pc + 1 } else { m.pc };
                    Ok((with_pc(with_stack(m, s.drop_last()), pc), Effect::Continue))
                },
                Val::Str(_) => Err(VmError::TypeError),
            },
            Op::Dup => Ok((with_stack(m, s.push(top(s))), Effect::Continue)),
            Op::Pause => Ok((Machine { running: false, ..m }, Effect::Continue)),
            Op::Exit => Ok((Machine { running: false, exited: true, ..m }, Effect::Continue)),
            Op::Goto => match top(s) {
                Val::Num(a) => Ok((
                    with_pc(with_stack(m, s.drop_last()), clamp_pc(a as int, len) - 1),
                    Effect::Continue,
                )),
                Val::Str(name) => match label_lookup(labels, name) {
                    Some(i) => Ok((
                        with_pc(with_stack(m, s.drop_last()), clamp_pc(i, len) - 1),
                        Effect::Continue,
                    )),
                    None => Err(VmError::LabelNotFound),
                },
            },
            Op::GetContext => {
                let k = key_of(top(s));
                if m.context.contains_key(k) {
                    Ok((with_stack(m, s.drop_last().push(m.context[k])), Effect::Continue))
                } else {
                    Err(VmError::KeyMissing)
                }
            },
            Op::HasContext => Ok((
                with_stack(m, s.drop_last().push(truth(m.context.contains_key(key_of(top(s)))))),
                Effect::Continue,
            )),
            Op::DelContext => Ok((
                Machine {
                    stack: s.drop_last(),
                    context: m.context.remove(key_of(top(s))),
                    ..m
                },
                Effect::Continue,
            )),
            Op::SetContext => Ok((
                Machine {
                    stack: drop2(s),
                    context: m.context.insert(key_of(top(s)), second(s)),
                    ..m
                },
                Effect::Continue,
            )),
            Op::StackSize => Ok((with_stack(m, s.push(Val::Num(n as i64))), Effect::Continue)),
            Op::Stdout => Ok((with_stack(m, s.drop_last()), Effect::Output(text_of(top(s))))),
        }
    }
}

/// Whether `draw` is a number that `randInt` may draw on machine `m`.
pub open spec fn draw_ok(m: Machine, draw: int) -> bool {
    0 <= draw && draw < rand_bound(m)
}

/// The counter after the host finished a foreign call: moved on by one,
/// and kept within `[0, len]`.
pub open spec fn advanced(m: Machine, len: int) -> Machine {
    with_pc(m, clamp_pc(m.pc + 1, len))
}

/// Whether the instruction at the program counter is `randInt`.
pub open spec fn draws(m: Machine, prog: Seq<Ins>) -> bool {
    0 <= m.pc < prog.len() && prog[m.pc] == Ins::Builtin(Op::RandInt)
}

/// Whether one step may lead from `m` to `m2` with effect `e`: the step is
/// the one `step_spec` gives for a number that `randInt` may draw.
pub open spec fn step_rel(m: Machine, prog: Seq<Ins>, labels: Seq<(Seq<char>, int)>, m2: Machine, e: Effect) -> bool {
    exists|d: int| (draws(m, prog) ==> draw_ok(m, d)) && #[trigger] step_spec(m, prog, labels, d) == Ok::<(Machine, Effect), VmError>((m2, e))
}

/// One step of the machine: the instruction at the program counter runs,
/// then the counter moves on by one. A foreign instruction hands the call to
/// the host with the counter still on it; the host moves it on afterwards.
pub open spec fn step_spec(m: Machine, prog: Seq<Ins>, labels: Seq<(Seq<char>, int)>, draw: int)
    -> Result<(Machine, Effect), VmError>
{
    if m.pc < 0 || m.pc >= prog.len() {
        Err(VmError::PCOutOfRange)
    } else {
        match prog[m.pc] {
            Ins::PushNumber(x) => Ok((
                with_pc(with_stack(m, m.stack.push(Val::Num(x))), m.pc + 1),
                Effect::Continue,
            )),
            Ins::PushString(x) => Ok((
                with_pc(with_stack(m, m.stack.push(Val::Str(x))), m.pc + 1),
                Effect::Continue,
            )),
            Ins::Builtin(op) => match op_spec(op, m, prog.len() as int, labels, draw) {
                Ok((m2, e)) => Ok((with_pc(m2, m2.pc + 1), e)),
                Err(e) => Err(e),
            },
            Ins::Foreign(k) => Ok((m, Effect::Foreign(k))),
            Ins::OpenBrace => match matching_close(prog, m.pc + 1, 1) {
                Some(j) => Ok((with_pc(m, j + 1), Effect::Continue)),
                None => Err(VmError::UnbalancedBrace),
            },
            Ins::CloseBrace => Ok((with_pc(m, m.pc + 1), Effect::Continue)),
        }
    }
}

/// Whether the machines of `t` are a run from `m0` to `m1`: each one but
/// the last is running and steps to the next without asking the host for
/// anything.
pub open spec fn run_trace(t: Seq<Machine>, prog: Seq<Ins>, labels: Seq<(Seq<char>, int)>, m0: Machine, m1: Machine) -> bool {
    &&& t.len() >= 1
    &&& t[0] == m0
    &&& t.last() == m1
    &&& forall|i: int|
        0 <= i < t.len() - 1 ==> (#[trigger] t[i]).running && step_rel(t[i], prog, labels, t[i + 1], Effect::Continue)
}

/// After every instruction that completes, the program counter lies in
/// `[0, len(program)]`.
pub proof fn lemma_step_pc_in_range(m: Machine, prog: Seq<Ins>, labels: Seq<(Seq<char>, int)>, draw: int)
    ensures
        step_spec(m, prog, labels, draw) matches Ok((m2, _)) ==> 0 <= m2.pc <= prog.len(),
{
    if 0 <= m.pc < prog.len() {
        lemma_matching_close_in_range(prog, m.pc + 1, 1);
    }
}

} // verus!
