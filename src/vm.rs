use rand::Rng;
use std::collections::HashMap;
use vstd::prelude::*;
use vstd::string::StrSliceExecFns;

use crate::entry::{
    entry_instr, entry_label, fault_matches, load_from, registry_find, resolve, Entry, Json,
};
use crate::error::VmError;
use crate::program::{builtin_instr, same_text, Ins, Instr, Op};
use crate::semantics::{
    advanced, clamp_pc, draw_ok, draws, drop2, label_lookup, lemma_matching_close_in_range,
    lemma_step_pc_in_range, matching_close, op_spec, run_trace, second, step_rel, step_spec, top,
    trunc_i32, truth, with_pc, with_stack, Effect, Machine,
};
use crate::value::{key_of, Val, Value};

verus! {

broadcast use vstd::std_specs::hash::group_hash_axioms;

/// What a step hands back to the host.
#[derive(Debug, Clone, PartialEq)]
pub enum Event {
    /// Nothing to do: go on.
    Continue,
    /// Write this text to standard output.
    Output(String),
    /// Call the foreign function at this position of the registry.
    Foreign(usize),
}

impl View for Event {
    type V = Effect;

    open spec fn view(&self) -> Effect {
        match self {
            Event::Continue => Effect::Continue,
            Event::Output(s) => Effect::Output(s@),
            Event::Foreign(k) => Effect::Foreign(*k as nat),
        }
    }
}

/// Why a run handed control back to the host.
#[derive(Debug, Clone, PartialEq)]
pub enum Stop {
    /// The program counter reached the end of the program.
    Finished,
    /// `pause` ran; a new run goes on from the next instruction.
    Paused,
    /// `exit` ran; the machine runs no more.
    Exited,
    /// `stdout` ran: the host writes this text, then runs again.
    Output(String),
    /// A foreign instruction was reached: the host calls the function at
    /// this position of the registry, then `advance`, then runs again.
    Foreign(usize),
    /// The run took as many steps as it was allowed.
    StepLimit,
}

/// Whether a loaded instruction, if any, is the one the model names.
pub open spec fn loads_as(r: Option<Instr>, o: Option<Ins>) -> bool {
    match (r, o) {
        (Some(i), Some(x)) => i@ == x,
        (None, None) => true,
        _ => false,
    }
}

/// Whether a loaded label, if any, is the one the model names.
pub open spec fn labels_as(r: Option<String>, o: Option<Seq<char>>) -> bool {
    match (r, o) {
        (Some(l), Some(x)) => l@ == x,
        (None, None) => true,
        _ => false,
    }
}

/// What a run from `m0` that ended in `m1` with `r` has done: some steps
/// that went on, then the stop that `r` names. A run that ends by itself
/// leaves the program counter in `[0, len(program)]`; one that stops at its
/// step limit has taken exactly `limit` steps. A run fails either at once,
/// changing nothing, when the counter starts outside `[0, len(program)]`, or
/// at a step of an instruction inside the program that fails.
pub open spec fn run_result(
    m0: Machine,
    prog: Seq<Ins>,
    labels: Seq<(Seq<char>, int)>,
    m1: Machine,
    r: Result<Stop, VmError>,
    limit: int,
) -> bool {
    match r {
        Ok(Stop::Output(s)) => exists|t: Seq<Machine>, mid: Machine|
            #[trigger] run_trace(t, prog, labels, m0, mid) && mid.running
                && step_rel(mid, prog, labels, m1, Effect::Output(s@)),
        Ok(Stop::Foreign(j)) => exists|t: Seq<Machine>, mid: Machine|
            #[trigger] run_trace(t, prog, labels, m0, mid) && mid.running
                && step_rel(mid, prog, labels, m1, Effect::Foreign(j as nat)),
        Err(e) => {
            ||| e == VmError::PCOutOfRange && (m0.pc < 0 || m0.pc > prog.len()) && m1 == m0
            ||| exists|t: Seq<Machine>, mid: Machine|
                #[trigger] run_trace(t, prog, labels, m0, mid) && mid.running && 0 <= mid.pc < prog.len()
                    && step_spec(mid, prog, labels, 0) == Err::<(Machine, Effect), VmError>(e)
        },
        Ok(stop) => {
            &&& exists|t: Seq<Machine>|
                #[trigger] run_trace(t, prog, labels, m0, m1) && (stop is StepLimit ==> t.len() == limit + 1)
            &&& 0 <= m1.pc <= prog.len()
            &&& match stop {
                Stop::Finished => m1.running && m1.pc == prog.len(),
                Stop::Paused => !m1.running && !m1.exited,
                Stop::Exited => !m1.running && m1.exited,
                _ => m1.running && m1.pc < prog.len(),
            }
        },
    }
}

/// A stack machine: its program, labels and registry of foreign function
/// names, and the state that instructions change.
pub struct VM {
    /// The program counter. A jump to the first instruction leaves it at
    /// `-1` until the step moves it on; `-1` is held as its wrapped value,
    /// `usize::MAX`.
    pc: usize,
    stack: Vec<Value>,
    programlist: Vec<Instr>,
    context: HashMap<u64, Value>,
    labels: Vec<(String, usize)>,
    foreign_functions: Vec<String>,
    running: bool,
    exited: bool,
}

/// Whether a handler for `op` went from `v0` to `v1` with result `r`, when
/// `randInt` drew `draw`: on success the machine is as `op_spec` says, on
/// failure the error is the one it names.
pub open spec fn op_holds(op: Op, v0: VM, v1: VM, r: Result<(), VmError>, draw: int) -> bool {
    &&& v1.program() == v0.program()
    &&& v1.labels() == v0.labels()
    &&& v1.registry() == v0.registry()
    &&& (v0.wf() ==> v1.wf())
    &&& match op_spec(op, v0.machine(), v0.program().len() as int, v0.labels(), draw) {
        Ok((m, _)) => r is Ok && v1.machine() == m,
        Err(e) => r == Err::<(), VmError>(e),
    }
}

impl VM {
    /// The state that instructions change.
    pub closed spec fn machine(&self) -> Machine {
        Machine {
            pc: if self.pc == usize::MAX { -1 } else { self.pc as int },
            stack: self.stack@.map_values(|v: Value| v@),
            context: self.context@.map_values(|v: Value| v@),
            running: self.running,
            exited: self.exited,
        }
    }

    /// The loaded program.
    pub closed spec fn program(&self) -> Seq<Ins> {
        self.programlist@.map_values(|i: Instr| i@)
    }

    /// The labels, in the order they were defined, each with the index of
    /// the instruction it marks.
    pub closed spec fn labels(&self) -> Seq<(Seq<char>, int)> {
        self.labels@.map_values(|p: (String, usize)| (p.0@, p.1 as int - 1))
    }

    /// The names of the registered foreign functions.
    pub closed spec fn registry(&self) -> Seq<Seq<char>> {
        self.foreign_functions@.map_values(|s: String| s@)
    }

    /// The machine's invariant: the program counter lies in `[-1, len]`
    /// (`-1` only between a jump to the start and the step that follows),
    /// and every label marks an index in `[-1, len)`.
    pub open spec fn wf(&self) -> bool {
        &&& -1 <= self.machine().pc <= self.program().len()
        &&& forall|i: int|
            0 <= i < self.labels().len() ==> -1 <= #[trigger] self.labels()[i].1 < self.program().len()
    }

    /// Whether the two machines hold the same program, labels and registry.
    pub open spec fn same_code(&self, other: VM) -> bool {
        &&& self.program() == other.program()
        &&& self.labels() == other.labels()
        &&& self.registry() == other.registry()
    }

    /// An empty machine: no program, no labels, nothing registered.
    pub fn new() -> (r: VM)
        ensures
            r.machine() == (Machine {
                pc: 0,
                stack: Seq::empty(),
                context: Map::empty(),
                running: false,
                exited: false,
            }),
            r.program() == Seq::<Ins>::empty(),
            r.labels() == Seq::<(Seq<char>, int)>::empty(),
            r.registry() == Seq::<Seq<char>>::empty(),
            r.wf(),
    {
        let r = VM {
            pc: 0,
            stack: Vec::new(),
            programlist: Vec::new(),
            context: HashMap::new(),
            labels: Vec::new(),
            foreign_functions: Vec::new(),
            running: false,
            exited: false,
        };
        assert(r.machine().stack =~= Seq::empty());
        assert(r.machine().context =~= Map::empty());
        assert(r.program() =~= Seq::empty());
        assert(r.labels() =~= Seq::empty());
        assert(r.registry() =~= Seq::empty());
        r
    }

    /// The operand stack, top last.
    pub fn stack(&self) -> (r: &Vec<Value>)
        ensures
            r@.map_values(|v: Value| v@) == self.machine().stack,
    {
        &self.stack
    }

    /// The program counter: the index of the next instruction to run, or
    /// `-1` right after a jump to the first one.
    pub fn pc(&self) -> (r: i64)
        ensures
            r == self.machine().pc as i64,
    {
        if self.pc == usize::MAX {
            -1
        } else {
            self.pc as i64
        }
    }

    /// Whether the program has exited.
    pub fn exited(&self) -> (r: bool)
        ensures
            r == self.machine().exited,
    {
        self.exited
    }

    /// The number of instructions loaded.
    pub fn program_len(&self) -> (r: usize)
        ensures
            r == self.program().len(),
    {
        self.programlist.len()
    }

    /// Pushes a value.
    pub fn put(&mut self, value: Value)
        ensures
            final(self).machine() == with_stack(old(self).machine(), old(self).machine().stack.push(value@)),
            final(self).same_code(*old(self)),
            old(self).wf() ==> final(self).wf(),
    {
        self.stack.push(value);
        assert(final(self).machine().stack =~= old(self).machine().stack.push(value@));
    }

    /// Pushes a number.
    pub fn put_f64(&mut self, value: i64)
        ensures
            final(self).machine() == with_stack(old(self).machine(), old(self).machine().stack.push(Val::Num(value))),
            final(self).same_code(*old(self)),
            old(self).wf() ==> final(self).wf(),
    {
        self.put(Value::Number(value));
    }

    /// Pushes a string.
    pub fn put_string(&mut self, value: String)
        ensures
            final(self).machine() == with_stack(old(self).machine(), old(self).machine().stack.push(Val::Str(value@))),
            final(self).same_code(*old(self)),
            old(self).wf() ==> final(self).wf(),
    {
        self.put(Value::String(value));
    }

    /// Takes the top of a stack that is not empty.
    fn take(&mut self) -> (r: Value)
        requires
            old(self).stack@.len() > 0,
        ensures
            r@ == top(old(self).machine().stack),
            final(self).stack@.len() == old(self).stack@.len() - 1,
            final(self).machine() == with_stack(old(self).machine(), old(self).machine().stack.drop_last()),
            final(self).same_code(*old(self)),
    {
        let r = self.stack.pop().unwrap();
        assert(final(self).machine().stack =~= old(self).machine().stack.drop_last());
        r
    }
    /// Pushes `1` for true, `0` for false.
    fn put_truth(&mut self, b: bool)
        ensures
            final(self).machine() == with_stack(old(self).machine(), old(self).machine().stack.push(truth(b))),
            final(self).same_code(*old(self)),
    {
        if b {
            self.put(Value::Number(1));
        } else {
            self.put(Value::Number(0));
        }
    }

    /// Takes the two top values, the top first.
    fn take2(&mut self) -> (r: (Value, Value))
        requires
            old(self).stack@.len() >= 2,
        ensures
            r.0@ == top(old(self).machine().stack),
            r.1@ == second(old(self).machine().stack),
            final(self).machine() == with_stack(old(self).machine(), drop2(old(self).machine().stack)),
            final(self).same_code(*old(self)),
    {
        let ghost m0 = self.machine();
        let a = self.take();
        let b = self.take();
        assert(self.machine().stack =~= drop2(m0.stack));
        (a, b)
    }

    /// `plus`, `min`, `mul`: on two numbers `a` (the top) and `b`, pushes
    /// `a + b`, `a - b` or `a * b`; on anything else, pushes nothing.
    fn arith_op(&mut self, op: Op) -> (r: Result<(), VmError>)
        requires
            op == Op::Plus || op == Op::Min || op == Op::Mul,
        ensures
            op_holds(op, *old(self), *final(self), r, 0),
    {
        if self.stack.len() < 2 {
            return Err(VmError::StackUnderflow);
        }
        let (a, b) = self.take2();
        match (a, b) {
            (Value::Number(x), Value::Number(y)) => {
                let r = match op {
                    Op::Plus => x.checked_add(y),
                    Op::Min => x.checked_sub(y),
                    _ => x.checked_mul(y),
                };
                match r {
                    Some(v) => {
                        self.put(Value::Number(v));
                        Ok(())
                    },
                    None => Err(VmError::Overflow),
                }
            },
            _ => Ok(()),
        }
    }

    /// `plus`: pops `a`, then `b`; pushes `a + b` when both are numbers.
    pub fn i_plus(&mut self) -> (r: Result<(), VmError>)
        ensures
            op_holds(Op::Plus, *old(self), *final(self), r, 0),
    {
        self.arith_op(Op::Plus)
    }

    /// `min`: pops `a`, then `b`; pushes `a - b` when both are numbers.
    pub fn i_min(&mut self) -> (r: Result<(), VmError>)
        ensures
            op_holds(Op::Min, *old(self), *final(self), r, 0),
    {
        self.arith_op(Op::Min)
    }

    /// `mul`: pops `a`, then `b`; pushes `a * b` when both are numbers.
    pub fn i_mul(&mut self) -> (r: Result<(), VmError>)
        ensures
            op_holds(Op::Mul, *old(self), *final(self), r, 0),
    {
        self.arith_op(Op::Mul)
    }

    /// `nop`: does nothing.
    pub fn i_nop(&mut self) -> (r: Result<(), VmError>)
        ensures
            op_holds(Op::Nop, *old(self), *final(self), r, 0),
    {
        Ok(())
    }

    /// `pop`: discards the top.
    pub fn i_pop(&mut self) -> (r: Result<(), VmError>)
        ensures
            op_holds(Op::Pop, *old(self), *final(self), r, 0),
    {
        if self.stack.len() < 1 {
            return Err(VmError::StackUnderflow);
        }
        let _ = self.take();
        Ok(())
    }

    /// `concat`: pops `a`, then `b`; pushes the text of `a` followed by the
    /// text of `b`.
    pub fn i_concat(&mut self) -> (r: Result<(), VmError>)
        ensures
            op_holds(Op::Concat, *old(self), *final(self), r, 0),
    {
        if self.stack.len() < 2 {
            return Err(VmError::StackUnderflow);
        }
        let (a, b) = self.take2();
        let mut s = a.to_string();
        s.append(b.to_string().as_str());
        self.put(Value::String(s));
        Ok(())
    }

    /// `rconcat`: pops `a`, then `b`; pushes the text of `b` followed by the
    /// text of `a`.
    pub fn i_rconcat(&mut self) -> (r: Result<(), VmError>)
        ensures
            op_holds(Op::Rconcat, *old(self), *final(self), r, 0),
    {
        if self.stack.len() < 2 {
            return Err(VmError::StackUnderflow);
        }
        let (a, b) = self.take2();
        let mut s = b.to_string();
        s.append(a.to_string().as_str());
        self.put(Value::String(s));
        Ok(())
    }

    /// `eq`: pops `a`, then `b`; pushes `1` when both are numbers or both
    /// strings and they are equal, else `0`.
    pub fn i_eq(&mut self) -> (r: Result<(), VmError>)
        ensures
            op_holds(Op::Eq, *old(self), *final(self), r, 0),
    {
        if self.stack.len() < 2 {
            return Err(VmError::StackUnderflow);
        }
        let (a, b) = self.take2();
        let same = match (&a, &b) {
            (Value::Number(x), Value::Number(y)) => *x == *y,
            (Value::String(x), Value::String(y)) => *x == *y,
            _ => false,
        };
        self.put_truth(same);
        Ok(())
    }

    /// `not`: pops a number; pushes `1` when it is zero, else `0`.
    pub fn i_not(&mut self) -> (r: Result<(), VmError>)
        ensures
            op_holds(Op::Not, *old(self), *final(self), r, 0),
    {
        if self.stack.len() < 1 {
            return Err(VmError::StackUnderflow);
        }
        let a = self.take().as_number()?;
        self.put_truth(a == 0);
        Ok(())
    }

    /// `or`, `and`, `gt`, `lt` on two numbers `a` (the top) and `b`.
    fn logic_op(&mut self, op: Op) -> (r: Result<(), VmError>)
        requires
            op == Op::Or || op == Op::And || op == Op::Gt || op == Op::Lt,
        ensures
            op_holds(op, *old(self), *final(self), r, 0),
    {
        if self.stack.len() < 2 {
            return Err(VmError::StackUnderflow);
        }
        let (a, b) = self.take2();
        let x = a.as_number()?;
        let y = b.as_number()?;
        let r = match op {
            Op::Or => x != 0 || y != 0,
            Op::And => x != 0 && y != 0,
            Op::Gt => trunc32(x) > trunc32(y),
            _ => trunc32(x) < trunc32(y),
        };
        self.put_truth(r);
        Ok(())
    }

    /// `or`: pops two numbers; pushes `1` when either is not zero, else `0`.
    pub fn i_or(&mut self) -> (r: Result<(), VmError>)
        ensures
            op_holds(Op::Or, *old(self), *final(self), r, 0),
    {
        self.logic_op(Op::Or)
    }

    /// `and`: pops two numbers; pushes `1` when neither is zero, else `0`.
    pub fn i_and(&mut self) -> (r: Result<(), VmError>)
        ensures
            op_holds(Op::And, *old(self), *final(self), r, 0),
    {
        self.logic_op(Op::And)
    }

    /// `gt`: pops `a`, then `b`; pushes `1` when `a > b` as 32-bit
    /// integers, else `0`.
    pub fn i_gt(&mut self) -> (r: Result<(), VmError>)
        ensures
            op_holds(Op::Gt, *old(self), *final(self), r, 0),
    {
        self.logic_op(Op::Gt)
    }

    /// `lt`: pops `a`, then `b`; pushes `1` when `a < b` as 32-bit
    /// integers, else `0`.
    pub fn i_lt(&mut self) -> (r: Result<(), VmError>)
        ensures
            op_holds(Op::Lt, *old(self), *final(self), r, 0),
    {
        self.logic_op(Op::Lt)
    }

    /// `dup`: pushes a copy of the top.
    pub fn i_dup(&mut self) -> (r: Result<(), VmError>)
        ensures
            op_holds(Op::Dup, *old(self), *final(self), r, 0),
    {
        if self.stack.len() < 1 {
            return Err(VmError::StackUnderflow);
        }
        let ghost m0 = self.machine();
        let a = self.take();
        let b = a.duplicate();
        assert(m0.stack.drop_last().push(a@) =~= m0.stack);
        self.put(a);
        self.put(b);
        Ok(())
    }

    /// `ppc`: pushes the index of the instruction that runs.
    pub fn i_ppc(&mut self) -> (r: Result<(), VmError>)
        ensures
            op_holds(Op::Ppc, *old(self), *final(self), r, 0),
    {
        let pc = self.pc();
        self.put(Value::Number(pc));
        Ok(())
    }

    /// `stacksize`: pushes the depth of the stack before this push.
    pub fn i_stacksize(&mut self) -> (r: Result<(), VmError>)
        ensures
            op_holds(Op::StackSize, *old(self), *final(self), r, 0),
    {
        let n = self.stack.len() as i64;
        self.put(Value::Number(n));
        Ok(())
    }

    /// `pause`: stops the run; the next run goes on from here.
    pub fn i_pause(&mut self) -> (r: Result<(), VmError>)
        ensures
            op_holds(Op::Pause, *old(self), *final(self), r, 0),
    {
        self.running = false;
        Ok(())
    }

    /// `exit`: stops the run for good.
    pub fn i_exit(&mut self) -> (r: Result<(), VmError>)
        ensures
            op_holds(Op::Exit, *old(self), *final(self), r, 0),
    {
        self.running = false;
        self.exited = true;
        Ok(())
    }
    /// The context key of the top, which is popped.
    fn take_key(&mut self) -> (r: u64)
        requires
            old(self).stack@.len() > 0,
        ensures
            r == key_of(top(old(self).machine().stack)),
            final(self).machine() == with_stack(old(self).machine(), old(self).machine().stack.drop_last()),
            final(self).same_code(*old(self)),
    {
        self.take().as_hash()
    }

    /// `setContext`: pops `a`, then `b`; stores `b` under the key of `a`.
    pub fn i_setcontext(&mut self) -> (r: Result<(), VmError>)
        ensures
            op_holds(Op::SetContext, *old(self), *final(self), r, 0),
    {
        if self.stack.len() < 2 {
            return Err(VmError::StackUnderflow);
        }
        let ghost m0 = self.machine();
        let (a, b) = self.take2();
        let ghost bv = b@;
        let k = a.as_hash();
        self.context.insert(k, b);
        assert(self.machine().context =~= m0.context.insert(k, bv));
        Ok(())
    }

    /// `getContext`: pops `a`; pushes the value stored under its key.
    pub fn i_getcontext(&mut self) -> (r: Result<(), VmError>)
        ensures
            op_holds(Op::GetContext, *old(self), *final(self), r, 0),
    {
        if self.stack.len() < 1 {
            return Err(VmError::StackUnderflow);
        }
        let k = self.take_key();
        let v = match self.context.get(&k) {
            Some(v) => v.duplicate(),
            None => {
                return Err(VmError::KeyMissing);
            },
        };
        self.put(v);
        Ok(())
    }

    /// `hasContext`: pops `a`; pushes `1` when a value is stored under its
    /// key, else `0`.
    pub fn i_hascontext(&mut self) -> (r: Result<(), VmError>)
        ensures
            op_holds(Op::HasContext, *old(self), *final(self), r, 0),
    {
        if self.stack.len() < 1 {
            return Err(VmError::StackUnderflow);
        }
        let k = self.take_key();
        let has = self.context.contains_key(&k);
        self.put_truth(has);
        Ok(())
    }

    /// `delContext`: pops `a`; removes what is stored under its key, if
    /// anything.
    pub fn i_delcontext(&mut self) -> (r: Result<(), VmError>)
        ensures
            op_holds(Op::DelContext, *old(self), *final(self), r, 0),
    {
        if self.stack.len() < 1 {
            return Err(VmError::StackUnderflow);
        }
        let ghost m0 = self.machine();
        let k = self.take_key();
        let _ = self.context.remove(&k);
        assert(self.machine().context =~= m0.context.remove(k));
        Ok(())
    }

    /// `charCode`: pops a number, truncated to a byte; pushes the string of
    /// the one character with that code.
    pub fn i_charcode(&mut self) -> (r: Result<(), VmError>)
        ensures
            op_holds(Op::CharCode, *old(self), *final(self), r, 0),
    {
        if self.stack.len() < 1 {
            return Err(VmError::StackUnderflow);
        }
        let x = self.take().as_number()?;
        let b: u8 = if x < 0 {
            0
        } else if x > 255 {
            255
        } else {
            x as u8
        };
        self.put(Value::String(char_text(b as char)));
        Ok(())
    }

    /// `randInt`: pops a number, truncated to 32 bits, as the bound `n`;
    /// pushes a number drawn from `[0, n)`.
    pub fn i_randint(&mut self) -> (r: Result<(), VmError>)
        ensures
            r is Ok ==> exists|d: int| draw_ok(old(self).machine(), d) && op_holds(Op::RandInt, *old(self), *final(self), r, d),
            r is Err ==> op_holds(Op::RandInt, *old(self), *final(self), r, 0),
    {
        if self.stack.len() < 1 {
            assert(op_holds(Op::RandInt, *old(self), *final(self), Err(VmError::StackUnderflow), 0));
            return Err(VmError::StackUnderflow);
        }
        let ghost v0 = *self;
        let x = match self.take().as_number() {
            Ok(x) => x,
            Err(e) => {
                assert(op_holds(Op::RandInt, v0, *self, Err(e), 0));
                return Err(e);
            },
        };
        let n = trunc32(x);
        if n <= 0 {
            assert(op_holds(Op::RandInt, v0, *self, Err(VmError::EmptyRange), 0));
            return Err(VmError::EmptyRange);
        }
        let d = random_below(n);
        self.put(Value::Number(d as i64));
        assert(draw_ok(v0.machine(), d as int) && op_holds(Op::RandInt, v0, *self, Ok(()), d as int));
        Ok(())
    }

    /// `stdout`: pops a value; returns its text for the host to write.
    pub fn i_stdout(&mut self) -> (r: Result<String, VmError>)
        ensures
            match op_spec(Op::Stdout, old(self).machine(), old(self).program().len() as int, old(self).labels(), 0) {
                Ok((m, e)) => r is Ok && final(self).machine() == m && e == Effect::Output(r->Ok_0@),
                Err(e) => r == Err::<String, VmError>(e),
            },
            final(self).same_code(*old(self)),
            old(self).wf() ==> final(self).wf(),
    {
        if self.stack.len() < 1 {
            return Err(VmError::StackUnderflow);
        }
        Ok(self.take().to_string())
    }

    /// Brings a target into `[0, len]` of the program.
    fn clamp_target(&self, t: i64) -> (r: usize)
        ensures
            r as int == clamp_pc(t as int, self.program().len() as int),
    {
        let len = self.programlist.len();
        if t < 0 {
            0
        } else if t as u64 >= len as u64 {
            len
        } else {
            t as usize
        }
    }

    /// The number of instructions that were loaded when a label was last
    /// defined: one more than the index it marks.
    fn find_label(&self, name: &String) -> (r: Option<usize>)
        ensures
            match r {
                Some(c) => label_lookup(self.labels(), name@) == Some(c as int - 1),
                None => label_lookup(self.labels(), name@) is None,
            },
    {
        let mut i = self.labels.len();
        assert(self.labels().subrange(0, i as int) =~= self.labels());
        while i > 0
            invariant
                i <= self.labels@.len(),
                label_lookup(self.labels(), name@) == label_lookup(self.labels().subrange(0, i as int), name@),
            decreases i,
        {
            let ghost sub = self.labels().subrange(0, i as int);
            assert(sub.drop_last() =~= self.labels().subrange(0, i - 1));
            if self.labels[i - 1].0 == *name {
                return Some(self.labels[i - 1].1);
            }
            i = i - 1;
        }
        None
    }

    /// `goto`: pops `a`; the target is `a` for a number, or the instruction
    /// a label marks for a string. Targets outside the program are brought to
    /// its first instruction or its end. Sets the program counter to one
    /// before the target: the step then moves it onto the target.
    pub fn i_goto(&mut self) -> (r: Result<(), VmError>)
        ensures
            op_holds(Op::Goto, *old(self), *final(self), r, 0),
    {
        if self.stack.len() < 1 {
            return Err(VmError::StackUnderflow);
        }
        let a = self.take();
        let next = match a {
            Value::Number(x) => self.clamp_target(x),
            Value::String(name) => match self.find_label(&name) {
                Some(c) => {
                    let len = self.programlist.len();
                    if c == 0 {
                        0
                    } else if c - 1 > len {
                        len
                    } else {
                        c - 1
                    }
                },
                None => {
                    return Err(VmError::LabelNotFound);
                },
            },
        };
        self.pc = if next == 0 { usize::MAX } else { next - 1 };
        Ok(())
    }

    /// `jgz` and `jz`: pops a number; when the test holds and an instruction
    /// follows, moves the program counter on by one, so that the step skips
    /// that instruction.
    fn cond_skip(&mut self, op: Op) -> (r: Result<(), VmError>)
        requires
            op == Op::Jgz || op == Op::Jz,
        ensures
            op_holds(op, *old(self), *final(self), r, 0),
    {
        if self.stack.len() < 1 {
            return Err(VmError::StackUnderflow);
        }
        let x = self.take().as_number()?;
        let taken = if op == Op::Jgz { x > 0 } else { x == 0 };
        let len = self.programlist.len();
        if taken {
            if self.pc == usize::MAX {
                if len > 0 {
                    self.pc = 0;
                }
            } else if self.pc + 1 < len {
                self.pc = self.pc + 1;
            }
        }
        Ok(())
    }

    /// `jgz`: pops a number; skips the next instruction when it is above zero.
    pub fn i_jgz(&mut self) -> (r: Result<(), VmError>)
        ensures
            op_holds(Op::Jgz, *old(self), *final(self), r, 0),
    {
        self.cond_skip(Op::Jgz)
    }

    /// `jz`: pops a number; skips the next instruction when it is zero.
    pub fn i_jz(&mut self) -> (r: Result<(), VmError>)
        ensures
            op_holds(Op::Jz, *old(self), *final(self), r, 0),
    {
        self.cond_skip(Op::Jz)
    }

    /// An opening brace: sets the program counter to the closing brace that
    /// matches it, which the step then moves past.
    pub fn i_openbrace(&mut self) -> (r: Result<(), VmError>)
        requires
            old(self).program().len() < usize::MAX,
        ensures
            final(self).same_code(*old(self)),
            old(self).wf() ==> final(self).wf(),
            match matching_close(old(self).program(), old(self).machine().pc + 1, 1) {
                Some(j) => r is Ok && final(self).machine() == with_pc(old(self).machine(), j),
                None => r == Err::<(), VmError>(VmError::UnbalancedBrace),
            },
    {
        let len = self.programlist.len();
        let ghost prog = self.program();
        let mut i: usize = if self.pc == usize::MAX {
            0
        } else if self.pc >= len {
            return Err(VmError::UnbalancedBrace);
        } else {
            self.pc + 1
        };
        let mut depth: usize = 1;
        while i < len
            invariant
                len == self.programlist@.len(),
                len < usize::MAX,
                prog == self.program(),
                *self == *old(self),
                self.machine().pc < i <= len,
                1 <= depth <= i + 1,
                matching_close(prog, self.machine().pc + 1, 1) == matching_close(prog, i as int, depth as int),
            decreases len - i,
        {
            match &self.programlist[i] {
                Instr::OpenBrace => {
                    depth = depth + 1;
                },
                Instr::CloseBrace => {
                    if depth <= 1 {
                        self.pc = i;
                        return Ok(());
                    }
                    depth = depth - 1;
                },
                _ => {},
            }
            i = i + 1;
        }
        Err(VmError::UnbalancedBrace)
    }

    /// A closing brace: does nothing.
    pub fn i_closebrace(&mut self) -> (r: Result<(), VmError>)
        ensures
            *final(self) == *old(self),
            r is Ok,
    {
        Ok(())
    }
    /// The step's move past an instruction: the counter goes up by one.
    fn bump(&mut self)
        requires
            old(self).machine().pc + 1 < usize::MAX,
        ensures
            final(self).machine() == with_pc(old(self).machine(), old(self).machine().pc + 1),
            final(self).same_code(*old(self)),
    {
        self.pc = if self.pc == usize::MAX { 0 } else { self.pc + 1 };
    }

    /// After the host has run a foreign function, moves the counter on by
    /// one, as the step does after every other instruction; the counter
    /// stays within `[0, len(program)]`.
    pub fn advance(&mut self)
        requires
            old(self).program().len() < usize::MAX,
        ensures
            final(self).machine() == advanced(old(self).machine(), old(self).program().len() as int),
            final(self).same_code(*old(self)),
            old(self).wf() ==> final(self).wf(),
    {
        let len = self.programlist.len();
        if self.pc == usize::MAX {
            self.pc = 0;
        } else if self.pc >= len {
            self.pc = len;
        } else {
            self.pc = self.pc + 1;
        }
    }

    /// Sets the program counter, as a foreign function may: the step, or
    /// `advance` after a foreign call, then moves it on by one. Fails with
    /// `PCOutOfRange`, changing nothing, outside `[-1, len(program)]`.
    pub fn set_pc(&mut self, pc: i64) -> (r: Result<(), VmError>)
        requires
            old(self).program().len() < usize::MAX,
        ensures
            final(self).same_code(*old(self)),
            (-1 <= pc <= old(self).program().len()) ==> r is Ok
                && final(self).machine() == with_pc(old(self).machine(), pc as int),
            !(-1 <= pc <= old(self).program().len()) ==> r == Err::<(), VmError>(VmError::PCOutOfRange)
                && final(self).machine() == old(self).machine(),
            old(self).wf() ==> final(self).wf(),
    {
        let len = self.programlist.len();
        if pc == -1 {
            self.pc = usize::MAX;
            Ok(())
        } else if pc < -1 || pc as u64 > len as u64 {
            Err(VmError::PCOutOfRange)
        } else {
            self.pc = pc as usize;
            Ok(())
        }
    }

    /// Whether the context holds a value under the key of `key`.
    pub fn has_key(&self, key: &Value) -> (r: bool)
        ensures
            r == self.machine().context.contains_key(key_of(key@)),
    {
        let k = key.duplicate().as_hash();
        self.context.contains_key(&k)
    }

    /// A copy of the value the context holds under the key of `key`.
    pub fn context_value(&self, key: &Value) -> (r: Option<Value>)
        ensures
            match r {
                Some(v) => self.machine().context.contains_key(key_of(key@))
                    && v@ == self.machine().context[key_of(key@)],
                None => !self.machine().context.contains_key(key_of(key@)),
            },
    {
        let k = key.duplicate().as_hash();
        match self.context.get(&k) {
            Some(v) => Some(v.duplicate()),
            None => None,
        }
    }

    /// A copy of the instruction at `i`.
    fn fetch(&self, i: usize) -> (r: Instr)
        requires
            i < self.programlist@.len(),
        ensures
            r@ == self.program()[i as int],
    {
        match &self.programlist[i] {
            Instr::PushNumber(x) => Instr::PushNumber(*x),
            Instr::PushString(s) => Instr::PushString(s.clone()),
            Instr::Builtin(op) => Instr::Builtin(*op),
            Instr::Foreign(k) => Instr::Foreign(*k),
            Instr::OpenBrace => Instr::OpenBrace,
            Instr::CloseBrace => Instr::CloseBrace,
        }
    }

    /// Runs the built-in operation at the program counter.
    fn exec_builtin(&mut self, op: Op) -> (r: Result<Event, VmError>)
        requires
            old(self).pc < old(self).programlist@.len(),
            old(self).programlist@.len() < usize::MAX,
            old(self).program()[old(self).pc as int] == Ins::Builtin(op),
        ensures
            final(self).same_code(*old(self)),
            match r {
                Ok(e) => step_rel(old(self).machine(), old(self).program(), old(self).labels(), final(self).machine(), e@),
                Err(e) => step_spec(old(self).machine(), old(self).program(), old(self).labels(), 0)
                    == Err::<(Machine, Effect), VmError>(e),
            },
    {
        let ghost v0 = *self;
        let ghost m0 = self.machine();
        let ghost prog = self.program();
        let ghost labels = self.labels();
        if op == Op::Stdout {
            let s = self.i_stdout()?;
            self.bump();
            assert(step_spec(m0, prog, labels, 0) == Ok::<(Machine, Effect), VmError>((self.machine(), Effect::Output(s@))));
            return Ok(Event::Output(s));
        }
        if op == Op::RandInt {
            let res = self.i_randint();
            match res {
                Ok(()) => {
                    let ghost d = choose|d: int| draw_ok(m0, d) && op_holds(Op::RandInt, v0, *self, res, d);
                    self.bump();
                    assert(step_spec(m0, prog, labels, d) == Ok::<(Machine, Effect), VmError>((self.machine(), Effect::Continue)));
                    return Ok(Event::Continue);
                },
                Err(e) => {
                    return Err(e);
                },
            }
        }
        let res = match op {
            Op::Nop => self.i_nop(),
            Op::Pop => self.i_pop(),
            Op::Plus => self.i_plus(),
            Op::Min => self.i_min(),
            Op::Mul => self.i_mul(),
            Op::Concat => self.i_concat(),
            Op::Rconcat => self.i_rconcat(),
            Op::CharCode => self.i_charcode(),
            Op::Ppc => self.i_ppc(),
            Op::Eq => self.i_eq(),
            Op::Not => self.i_not(),
            Op::Or => self.i_or(),
            Op::And => self.i_and(),
            Op::Jgz => self.i_jgz(),
            Op::Jz => self.i_jz(),
            Op::Gt => self.i_gt(),
            Op::Lt => self.i_lt(),
            Op::Dup => self.i_dup(),
            Op::Pause => self.i_pause(),
            Op::Exit => self.i_exit(),
            Op::Goto => self.i_goto(),
            Op::GetContext => self.i_getcontext(),
            Op::HasContext => self.i_hascontext(),
            Op::SetContext => self.i_setcontext(),
            Op::DelContext => self.i_delcontext(),
            _ => self.i_stacksize(),
        };
        assert(op_holds(op, v0, *self, res, 0));
        match res {
            Ok(()) => {
                self.bump();
                assert(step_spec(m0, prog, labels, 0) == Ok::<(Machine, Effect), VmError>((self.machine(), Effect::Continue)));
                Ok(Event::Continue)
            },
            Err(e) => Err(e),
        }
    }

    /// Runs the instruction at the program counter, then moves the counter
    /// on by one; a jump has left it one before its target. A foreign
    /// instruction is handed to the host with the counter still on it: the
    /// host calls the function, then `advance`. Fails with `PCOutOfRange`,
    /// changing nothing, when the counter is outside the program.
    pub fn step(&mut self) -> (r: Result<Event, VmError>)
        requires
            old(self).program().len() < usize::MAX,
        ensures
            final(self).same_code(*old(self)),
            (old(self).machine().pc < 0 || old(self).machine().pc >= old(self).program().len())
                ==> final(self).machine() == old(self).machine(),
            old(self).wf() && r is Ok ==> final(self).wf(),
            match r {
                Ok(e) => step_rel(old(self).machine(), old(self).program(), old(self).labels(), final(self).machine(), e@),
                Err(e) => step_spec(old(self).machine(), old(self).program(), old(self).labels(), 0)
                    == Err::<(Machine, Effect), VmError>(e),
            },
    {
        let ghost m0 = self.machine();
        let ghost prog = self.program();
        let ghost labels = self.labels();
        let pc = self.pc;
        if pc >= self.programlist.len() {
            return Err(VmError::PCOutOfRange);
        }
        match self.fetch(pc) {
            Instr::PushNumber(x) => {
                self.put(Value::Number(x));
                self.bump();
                assert(step_spec(m0, prog, labels, 0) == Ok::<(Machine, Effect), VmError>((self.machine(), Effect::Continue)));
                Ok(Event::Continue)
            },
            Instr::PushString(x) => {
                self.put(Value::String(x));
                self.bump();
                assert(step_spec(m0, prog, labels, 0) == Ok::<(Machine, Effect), VmError>((self.machine(), Effect::Continue)));
                Ok(Event::Continue)
            },
            Instr::Builtin(op) => self.exec_builtin(op),
            Instr::Foreign(k) => {
                assert(step_spec(m0, prog, labels, 0) == Ok::<(Machine, Effect), VmError>((self.machine(), Effect::Foreign(k as nat))));
                Ok(Event::Foreign(k))
            },
            Instr::OpenBrace => {
                proof {
                    lemma_matching_close_in_range(prog, pc + 1, 1);
                }
                self.i_openbrace()?;
                self.bump();
                assert(step_spec(m0, prog, labels, 0) == Ok::<(Machine, Effect), VmError>((self.machine(), Effect::Continue)));
                Ok(Event::Continue)
            },
            Instr::CloseBrace => {
                self.bump();
                assert(step_spec(m0, prog, labels, 0) == Ok::<(Machine, Effect), VmError>((self.machine(), Effect::Continue)));
                Ok(Event::Continue)
            },
        }
    }
    /// Adds a foreign function name to the registry and returns its
    /// position. The host keeps the function itself and calls it when a run
    /// stops with that position.
    #[allow(non_snake_case)]
    pub fn registerForeignFunction(&mut self, name: String) -> (r: usize)
        ensures
            r == old(self).registry().len(),
            final(self).registry() == old(self).registry().push(name@),
            final(self).program() == old(self).program(),
            final(self).labels() == old(self).labels(),
            final(self).machine() == old(self).machine(),
            old(self).wf() ==> final(self).wf(),
    {
        let k = self.foreign_functions.len();
        let ghost n = name@;
        self.foreign_functions.push(name);
        assert(self.registry() =~= old(self).registry().push(n));
        assert(self.labels() == old(self).labels() && self.program() == old(self).program());
        assert(self.machine() == old(self).machine());
        k
    }

    /// The first position of a foreign function named `name`.
    fn find_foreign(&self, name: &str) -> (r: Option<usize>)
        ensures
            match r {
                Some(k) => registry_find(self.registry(), name@, 0) == Some(k as nat),
                None => registry_find(self.registry(), name@, 0) is None,
            },
    {
        let mut i: usize = 0;
        while i < self.foreign_functions.len()
            invariant
                i <= self.foreign_functions@.len(),
                registry_find(self.registry(), name@, 0) == registry_find(self.registry(), name@, i as int),
            decreases self.foreign_functions@.len() - i,
        {
            if same_text(self.foreign_functions[i].as_str(), name) {
                return Some(i);
            }
            i = i + 1;
        }
        None
    }

    /// What an invoked name loads as.
    fn resolve_name(&self, name: &String) -> (r: Result<Option<Instr>, VmError>)
        ensures
            match resolve(name@, self.registry()) {
                Ok(o) => r is Ok && loads_as(r->Ok_0, o),
                Err(f) => r is Err && fault_matches(r->Err_0, f),
            },
    {
        match builtin_instr(name.as_str()) {
            Some(i) => Ok(Some(i)),
            None => match self.find_foreign(name.as_str()) {
                Some(k) => Ok(Some(Instr::Foreign(k))),
                None => {
                    let s = name.as_str();
                    if s.unicode_len() > 0 && s.get_char(0) == '_' {
                        Ok(None)
                    } else {
                        Err(VmError::UnknownFunction(name.clone()))
                    }
                },
            },
        }
    }

    /// The instruction and the label that an entry loads as.
    fn decode_entry(&self, e: &Entry) -> (r: Result<(Option<Instr>, Option<String>), VmError>)
        ensures
            match entry_instr(*e, self.registry()) {
                Err(f) => r is Err && fault_matches(r->Err_0, f),
                Ok(o) => match entry_label(*e) {
                    Err(f) => r is Err && fault_matches(r->Err_0, f),
                    Ok(l) => r is Ok && loads_as(r->Ok_0.0, o) && labels_as(r->Ok_0.1, l),
                },
            },
    {
        let ins = match e.get("type") {
            Some(Json::Text(t)) => {
                if same_text(t.as_str(), "push-number-instruction") {
                    match e.get("value") {
                        Some(Json::Int(x)) => Some(Instr::PushNumber(*x)),
                        _ => {
                            return Err(VmError::MalformedEntry);
                        },
                    }
                } else if same_text(t.as_str(), "push-string-instruction") {
                    match e.get("value") {
                        Some(Json::Text(x)) => Some(Instr::PushString(x.clone())),
                        _ => {
                            return Err(VmError::MalformedEntry);
                        },
                    }
                } else if same_text(t.as_str(), "invoke-function-instruction") {
                    match e.get("functionName") {
                        Some(Json::Text(x)) => self.resolve_name(x)?,
                        _ => {
                            return Err(VmError::MalformedEntry);
                        },
                    }
                } else {
                    None
                }
            },
            _ => None,
        };
        let label = match e.get("label") {
            None => None,
            Some(Json::Text(l)) => Some(l.clone()),
            Some(_) => {
                return Err(VmError::MalformedEntry);
            },
        };
        Ok((ins, label))
    }

    /// Loads a program: appends the instructions of the entries in order and
    /// records their labels. A label records the number of instructions
    /// loaded so far, its own entry's included, so that `goto` to it lands
    /// on the last of them. Foreign functions must be registered first.
    pub fn load(&mut self, instructions: Vec<Entry>) -> (r: Result<(), VmError>)
        ensures
            final(self).machine() == old(self).machine(),
            final(self).registry() == old(self).registry(),
            old(self).wf() && r is Ok ==> final(self).wf(),
            match load_from(instructions@, 0, old(self).registry(), old(self).program(), old(self).labels()) {
                Ok((p, l)) => r is Ok && final(self).program() == p && final(self).labels() == l,
                Err(f) => r is Err && fault_matches(r->Err_0, f),
            },
    {
        let mut i: usize = 0;
        while i < instructions.len()
            invariant
                i <= instructions@.len(),
                self.machine() == old(self).machine(),
                self.registry() == old(self).registry(),
                old(self).wf() ==> self.wf(),
                load_from(instructions@, 0, old(self).registry(), old(self).program(), old(self).labels())
                    == load_from(instructions@, i as int, self.registry(), self.program(), self.labels()),
            decreases instructions@.len() - i,
        {
            let ghost prog0 = self.program();
            let ghost labels0 = self.labels();
            let (ins, label) = self.decode_entry(&instructions[i])?;
            match ins {
                Some(x) => {
                    let ghost xv = x@;
                    self.programlist.push(x);
                    assert(self.program() =~= prog0.push(xv));
                },
                None => {},
            }
            let ghost prog1 = self.program();
            let n = self.programlist.len();
            match label {
                Some(l) => {
                    let ghost lv = l@;
                    self.labels.push((l, n));
                    assert(self.labels() =~= labels0.push((lv, prog1.len() - 1)));
                    assert(forall|j: int| 0 <= j < labels0.len() ==> self.labels()[j] == labels0[j]);
                },
                None => {},
            }
            i = i + 1;
        }
        Ok(())
    }
    /// Runs until the program ends, pauses, exits, asks the host for
    /// output or a foreign call, or has taken `limit` steps. Every step
    /// before the last went on without asking the host for anything. A
    /// machine that has exited fails with `AlreadyExited` and stays as it was.
    pub fn run_for(&mut self, limit: u64) -> (r: Result<Stop, VmError>)
        requires
            old(self).program().len() < usize::MAX,
        ensures
            final(self).same_code(*old(self)),
            old(self).machine().exited ==> r == Err::<Stop, VmError>(VmError::AlreadyExited)
                && final(self).machine() == old(self).machine(),
            !old(self).machine().exited ==> run_result(
                Machine { running: true, ..old(self).machine() },
                old(self).program(),
                old(self).labels(),
                final(self).machine(),
                r,
                limit as int,
            ),
    {
        if self.exited {
            return Err(VmError::AlreadyExited);
        }
        self.running = true;
        let ghost m0 = self.machine();
        let ghost prog = self.program();
        let ghost labels = self.labels();
        let len = self.programlist.len();
        if self.pc > len {
            assert(step_spec(m0, prog, labels, 0) == Err::<(Machine, Effect), VmError>(VmError::PCOutOfRange));
            assert(run_trace(seq![m0], prog, labels, m0, m0));
            return Err(VmError::PCOutOfRange);
        }
        let ghost mut t: Seq<Machine> = seq![m0];
        let mut n: u64 = 0;
        assert(run_trace(t, prog, labels, m0, self.machine()));
        while self.running && self.pc < len && n < limit
            invariant
                !old(self).exited,
                m0 == (Machine { running: true, ..old(self).machine() }),
                self.same_code(*old(self)),
                prog == self.program(),
                labels == self.labels(),
                len == prog.len(),
                len < usize::MAX,
                0 <= self.machine().pc <= len,
                n <= limit,
                t.len() == n + 1,
                run_trace(t, prog, labels, m0, self.machine()),
            decreases limit - n,
        {
            let ghost mid = self.machine();
            let ghost t0 = t;
            let ev = self.step();
            match ev {
                Ok(Event::Continue) => {
                    let ghost d = choose|d: int|
                        (draws(mid, prog) ==> draw_ok(mid, d))
                            && #[trigger] step_spec(mid, prog, labels, d)
                            == Ok::<(Machine, Effect), VmError>((self.machine(), Effect::Continue));
                    proof {
                        lemma_step_pc_in_range(mid, prog, labels, d);
                        t = t0.push(self.machine());
                        assert forall|i: int| 0 <= i < t.len() - 1 implies (#[trigger] t[i]).running
                            && step_rel(t[i], prog, labels, t[i + 1], Effect::Continue) by {
                            if i < t0.len() - 1 {
                                assert(t[i] == t0[i] && t[i + 1] == t0[i + 1]);
                            }
                        }
                    }
                },
                Ok(Event::Output(s)) => {
                    assert(run_trace(t0, prog, labels, m0, mid) && mid.running
                        && step_rel(mid, prog, labels, self.machine(), Effect::Output(s@)));
                    return Ok(Stop::Output(s));
                },
                Ok(Event::Foreign(j)) => {
                    assert(run_trace(t0, prog, labels, m0, mid) && mid.running
                        && step_rel(mid, prog, labels, self.machine(), Effect::Foreign(j as nat)));
                    return Ok(Stop::Foreign(j));
                },
                Err(e) => {
                    assert(run_trace(t0, prog, labels, m0, mid) && mid.running);
                    return Err(e);
                },
            }
            n = n + 1;
        }
        let r = if !self.running {
            if self.exited {
                Stop::Exited
            } else {
                Stop::Paused
            }
        } else if self.pc >= len {
            Stop::Finished
        } else {
            Stop::StepLimit
        };
        assert(run_trace(t, prog, labels, m0, self.machine()) && (r is StepLimit ==> t.len() == limit + 1));
        Ok(r)
    }

    /// Runs until the program ends, pauses, exits or asks the host for
    /// output or a foreign call, taking at most `u64::MAX` steps. A machine
    /// that has exited fails with `AlreadyExited` and stays as it was.
    pub fn run(&mut self) -> (r: Result<Stop, VmError>)
        requires
            old(self).program().len() < usize::MAX,
        ensures
            final(self).same_code(*old(self)),
            old(self).machine().exited ==> r == Err::<Stop, VmError>(VmError::AlreadyExited)
                && final(self).machine() == old(self).machine(),
            !old(self).machine().exited ==> run_result(
                Machine { running: true, ..old(self).machine() },
                old(self).program(),
                old(self).labels(),
                final(self).machine(),
                r,
                u64::MAX as int,
            ),
    {
        self.run_for(u64::MAX)
    }
}

/// Truncation to a 32-bit signed integer, saturating at its bounds.
fn trunc32(x: i64) -> (r: i32)
    ensures
        r as int == trunc_i32(x as int),
{
    if x < i32::MIN as i64 {
        i32::MIN
    } else if x > i32::MAX as i64 {
        i32::MAX
    } else {
        x as i32
    }
}

/// Relies on `String::from(char)`: the string of that one character.
#[verifier::external_body]
fn char_text(c: char) -> (r: String)
    ensures
        r@ == seq![c],
{
    String::from(c)
}

/// Relies on rand's `thread_rng().gen_range(0..bound)`: a number drawn from
/// `[0, bound)`; the range must not be empty, or the call panics.
#[verifier::external_body]
fn random_below(bound: i32) -> (r: i32)
    requires
        bound > 0,
    ensures
        0 <= r < bound,
{
    rand::thread_rng().gen_range(0..bound)
}

} // verus!
