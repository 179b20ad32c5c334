use vstd::prelude::*;

use crate::program::{Ins, Op};
use crate::semantics::{
    lemma_step_pc_in_range, op_spec, run_trace, step_rel, step_spec, top, with_pc, with_stack,
    Effect, Machine,
};
use crate::value::{key_of, text_of, Val, Value};

verus! {

/// The value a push instruction pushes.
pub open spec fn pushed(i: Ins) -> Option<Val> {
    match i {
        Ins::PushNumber(x) => Some(Val::Num(x)),
        Ins::PushString(s) => Some(Val::Str(s)),
        _ => None,
    }
}

/// Every instruction that completes leaves the program counter in
/// `[0, len(program)]`.
pub proof fn law_pc_in_range(m: Machine, prog: Seq<Ins>, labels: Seq<(Seq<char>, int)>, draw: int)
    ensures
        step_spec(m, prog, labels, draw) matches Ok((m2, _)) ==> 0 <= m2.pc <= prog.len(),
{
    lemma_step_pc_in_range(m, prog, labels, draw);
}

/// Every value is exactly one of a number and a string.
pub proof fn law_one_variant(v: Value)
    ensures
        (v is Number) != (v is String),
        (v@ is Num) != (v@ is Str),
{
}

/// A value stored by `setContext` under a key is found there: `hasContext`
/// on the same key pushes `1`, and `getContext` pushes the stored value.
pub proof fn law_set_then_has_and_get(m: Machine, len: int, labels: Seq<(Seq<char>, int)>, key: Val, value: Val)
    ensures
        ({
            let m1 = with_stack(m, m.stack.push(value).push(key));
            let m2 = Machine { context: m.context.insert(key_of(key), value), ..m };
            &&& op_spec(Op::SetContext, m1, len, labels, 0) == Ok::<(Machine, Effect), crate::error::VmError>((m2, Effect::Continue))
            &&& op_spec(Op::HasContext, with_stack(m2, m.stack.push(key)), len, labels, 0)
                == Ok::<(Machine, Effect), crate::error::VmError>((with_stack(m2, m.stack.push(Val::Num(1))), Effect::Continue))
            &&& op_spec(Op::GetContext, with_stack(m2, m.stack.push(key)), len, labels, 0)
                == Ok::<(Machine, Effect), crate::error::VmError>((with_stack(m2, m.stack.push(value)), Effect::Continue))
        }),
{
    let s1 = m.stack.push(value).push(key);
    assert(s1.subrange(0, s1.len() - 2) =~= m.stack);
    assert(m.stack.push(key).drop_last() =~= m.stack);
}

/// After `delContext` on a key, `hasContext` on the same key pushes `0`.
pub proof fn law_del_then_has(m: Machine, len: int, labels: Seq<(Seq<char>, int)>, key: Val)
    ensures
        ({
            let m2 = Machine { context: m.context.remove(key_of(key)), ..m };
            &&& op_spec(Op::DelContext, with_stack(m, m.stack.push(key)), len, labels, 0)
                == Ok::<(Machine, Effect), crate::error::VmError>((m2, Effect::Continue))
            &&& op_spec(Op::HasContext, with_stack(m2, m.stack.push(key)), len, labels, 0)
                == Ok::<(Machine, Effect), crate::error::VmError>((with_stack(m2, m.stack.push(Val::Num(0))), Effect::Continue))
        }),
{
    assert(m.stack.push(key).drop_last() =~= m.stack);
}

/// `dup` on a stack that is not empty adds exactly one element, equal to
/// the former top, and changes nothing else.
pub proof fn law_dup(m: Machine, len: int, labels: Seq<(Seq<char>, int)>)
    requires
        m.stack.len() > 0,
    ensures
        op_spec(Op::Dup, m, len, labels, 0) matches Ok((m2, e)) && e == Effect::Continue
            && m2.stack.len() == m.stack.len() + 1
            && top(m2.stack) == top(m.stack)
            && m2.stack.drop_last() == m.stack
            && m2 == with_stack(m, m2.stack),
{
    assert(m.stack.push(top(m.stack)).drop_last() =~= m.stack);
}

/// `stacksize` pushes the depth of the stack measured before its push.
pub proof fn law_stacksize(m: Machine, len: int, labels: Seq<(Seq<char>, int)>)
    requires
        m.stack.len() <= i64::MAX,
    ensures
        op_spec(Op::StackSize, m, len, labels, 0) matches Ok((m2, _))
            && m2 == with_stack(m, m.stack.push(Val::Num(m.stack.len() as i64)))
            && (m.stack.len() as i64) as int == m.stack.len(),
{
}

/// A push followed by `pop` leaves the stack as it was.
pub proof fn law_push_pop(m: Machine, prog: Seq<Ins>, labels: Seq<(Seq<char>, int)>, draw: int)
    requires
        0 <= m.pc,
        m.pc + 1 < prog.len(),
        pushed(prog[m.pc]) is Some,
        prog[m.pc + 1] == Ins::Builtin(Op::Pop),
    ensures
        step_spec(m, prog, labels, draw) matches Ok((m1, e1)) && e1 == Effect::Continue
            && step_spec(m1, prog, labels, draw) == Ok::<(Machine, Effect), crate::error::VmError>(
                (with_pc(m, m.pc + 2), Effect::Continue)),
{
    let x = pushed(prog[m.pc])->Some_0;
    assert(m.stack.push(x).drop_last() =~= m.stack);
}

/// Two pushes, then `concat` or `rconcat`. Naming the operands in the order
/// they are popped, `a` the top (pushed last) and `b` the one below it,
/// `concat` yields the text of `a` followed by that of `b`, and `rconcat`
/// the text of `b` followed by that of `a`.
pub proof fn law_push_push_concat(m: Machine, prog: Seq<Ins>, labels: Seq<(Seq<char>, int)>, draw: int, op: Op)
    requires
        0 <= m.pc,
        m.pc + 2 < prog.len(),
        pushed(prog[m.pc]) is Some,
        pushed(prog[m.pc + 1]) is Some,
        prog[m.pc + 2] == Ins::Builtin(op),
        op == Op::Concat || op == Op::Rconcat,
    ensures
        ({
            let b = pushed(prog[m.pc])->Some_0;
            let a = pushed(prog[m.pc + 1])->Some_0;
            let joined = if op == Op::Concat { text_of(a) + text_of(b) } else { text_of(b) + text_of(a) };
            step_spec(m, prog, labels, draw) matches Ok((m1, _))
                && step_spec(m1, prog, labels, draw) matches Ok((m2, _))
                && step_spec(m2, prog, labels, draw) == Ok::<(Machine, Effect), crate::error::VmError>(
                    (with_pc(with_stack(m, m.stack.push(Val::Str(joined))), m.pc + 3), Effect::Continue))
        }),
{
    let a = pushed(prog[m.pc])->Some_0;
    let b = pushed(prog[m.pc + 1])->Some_0;
    let s2 = m.stack.push(a).push(b);
    assert(s2.subrange(0, s2.len() - 2) =~= m.stack);
}

/// Whether the program draws no random numbers.
pub open spec fn no_random(prog: Seq<Ins>) -> bool {
    forall|i: int| 0 <= i < prog.len() ==> prog[i] != Ins::Builtin(Op::RandInt)
}

/// Whether the machine takes no further step in a run: it is not running,
/// or its counter is outside the program.
pub open spec fn stopped(m: Machine, prog: Seq<Ins>) -> bool {
    !m.running || m.pc < 0 || m.pc >= prog.len()
}

/// Without `randInt`, a step that goes on leads to one machine only.
pub proof fn law_step_deterministic(m: Machine, prog: Seq<Ins>, labels: Seq<(Seq<char>, int)>, m1: Machine, m2: Machine, e: Effect)
    requires
        no_random(prog),
        step_rel(m, prog, labels, m1, e),
        step_rel(m, prog, labels, m2, e),
    ensures
        m1 == m2,
{
    let d1 = choose|d: int| (crate::semantics::draws(m, prog) ==> crate::semantics::draw_ok(m, d))
        && #[trigger] step_spec(m, prog, labels, d) == Ok::<(Machine, Effect), crate::error::VmError>((m1, e));
    let d2 = choose|d: int| (crate::semantics::draws(m, prog) ==> crate::semantics::draw_ok(m, d))
        && #[trigger] step_spec(m, prog, labels, d) == Ok::<(Machine, Effect), crate::error::VmError>((m2, e));
    assert(step_spec(m, prog, labels, d1) == step_spec(m, prog, labels, d2));
}

/// Without `randInt`, two runs from the same machine that both end where
/// no further step is taken end in the same machine: what `run` returns
/// with `Finished`, `Paused` or `Exited` is determined by where it started.
pub proof fn law_run_deterministic(
    t1: Seq<Machine>,
    t2: Seq<Machine>,
    prog: Seq<Ins>,
    labels: Seq<(Seq<char>, int)>,
    m0: Machine,
    m1: Machine,
    m2: Machine,
)
    requires
        no_random(prog),
        run_trace(t1, prog, labels, m0, m1),
        run_trace(t2, prog, labels, m0, m2),
        stopped(m1, prog),
        stopped(m2, prog),
    ensures
        m1 == m2,
{
    let n = if t1.len() < t2.len() { t1.len() as int } else { t2.len() as int };
    law_traces_agree(t1, t2, prog, labels, m0, m1, m2, n - 1);
    if t1.len() < t2.len() {
        let k = n - 1;
        assert(t2[k].running && step_rel(t2[k], prog, labels, t2[k + 1], Effect::Continue));
        lemma_steps_inside(t2[k], prog, labels, t2[k + 1]);
    } else if t2.len() < t1.len() {
        let k = n - 1;
        assert(t1[k].running && step_rel(t1[k], prog, labels, t1[k + 1], Effect::Continue));
        lemma_steps_inside(t1[k], prog, labels, t1[k + 1]);
    }
}

/// Without `randInt`, two runs from the same machine agree at each
/// position both reach.
pub proof fn law_traces_agree(
    t1: Seq<Machine>,
    t2: Seq<Machine>,
    prog: Seq<Ins>,
    labels: Seq<(Seq<char>, int)>,
    m0: Machine,
    m1: Machine,
    m2: Machine,
    i: int,
)
    requires
        no_random(prog),
        run_trace(t1, prog, labels, m0, m1),
        run_trace(t2, prog, labels, m0, m2),
        0 <= i < t1.len(),
        i < t2.len(),
    ensures
        t1[i] == t2[i],
    decreases i,
{
    if i > 0 {
        law_traces_agree(t1, t2, prog, labels, m0, m1, m2, i - 1);
        assert(t1[i - 1].running && step_rel(t1[i - 1], prog, labels, t1[i], Effect::Continue));
        assert(t2[i - 1].running && step_rel(t2[i - 1], prog, labels, t2[i], Effect::Continue));
        law_step_deterministic(t1[i - 1], prog, labels, t1[i], t2[i], Effect::Continue);
    }
}

/// A step that succeeds starts inside the program.
proof fn lemma_steps_inside(m: Machine, prog: Seq<Ins>, labels: Seq<(Seq<char>, int)>, m1: Machine)
    requires
        step_rel(m, prog, labels, m1, Effect::Continue),
    ensures
        0 <= m.pc < prog.len(),
{
    let d = choose|d: int| (crate::semantics::draws(m, prog) ==> crate::semantics::draw_ok(m, d))
        && #[trigger] step_spec(m, prog, labels, d) == Ok::<(Machine, Effect), crate::error::VmError>((m1, Effect::Continue));
    assert(step_spec(m, prog, labels, d) is Ok);
}

} // verus!
