use vstd::prelude::*;
use vstd::string::StrSliceExecFns;

verus! {

/// The built-in operations.
#[derive(Debug, Clone, Copy, PartialEq, Eq, Structural)]
pub enum Op {
    Nop,
    Pop,
    Plus,
    Min,
    Mul,
    Concat,
    Rconcat,
    RandInt,
    CharCode,
    Ppc,
    Eq,
    Not,
    Or,
    And,
    Jgz,
    Jz,
    Gt,
    Lt,
    Dup,
    Pause,
    Exit,
    Goto,
    GetContext,
    HasContext,
    SetContext,
    DelContext,
    StackSize,
    Stdout,
}

/// One instruction of a loaded program. `Foreign` holds the position of
/// the callee in the registry of foreign functions.
#[derive(Debug, Clone, PartialEq)]
pub enum Instr {
    PushNumber(i64),
    PushString(String),
    Builtin(Op),
    Foreign(usize),
    OpenBrace,
    CloseBrace,
}

/// What an instruction is, mathematically.
pub ghost enum Ins {
    PushNumber(i64),
    PushString(Seq<char>),
    Builtin(Op),
    Foreign(nat),
    OpenBrace,
    CloseBrace,
}

impl View for Instr {
    type V = Ins;

    open spec fn view(&self) -> Ins {
        match self {
            Instr::PushNumber(n) => Ins::PushNumber(*n),
            Instr::PushString(s) => Ins::PushString(s@),
            Instr::Builtin(op) => Ins::Builtin(*op),
            Instr::Foreign(k) => Ins::Foreign(*k as nat),
            Instr::OpenBrace => Ins::OpenBrace,
            Instr::CloseBrace => Ins::CloseBrace,
        }
    }
}

/// The built-in operation a name stands for, with the two braces.
pub open spec fn builtin_named(name: Seq<char>) -> Option<Ins> {
    if name == "nop"@ { Some(Ins::Builtin(Op::Nop)) }
    else if name == "pop"@ { Some(Ins::Builtin(Op::Pop)) }
    else if name == "plus"@ || name == "+"@ { Some(Ins::Builtin(Op::Plus)) }
    else if name == "min"@ || name == "-"@ { Some(Ins::Builtin(Op::Min)) }
    else if name == "mul"@ || name == "*"@ { Some(Ins::Builtin(Op::Mul)) }
    else if name == "concat"@ { Some(Ins::Builtin(Op::Concat)) }
    else if name == "rconcat"@ { Some(Ins::Builtin(Op::Rconcat)) }
    else if name == "randInt"@ { Some(Ins::Builtin(Op::RandInt)) }
    else if name == "charCode"@ { Some(Ins::Builtin(Op::CharCode)) }
    else if name == "ppc"@ { Some(Ins::Builtin(Op::Ppc)) }
    else if name == "eq"@ { Some(Ins::Builtin(Op::Eq)) }
    else if name == "not"@ { Some(Ins::Builtin(Op::Not)) }
    else if name == "or"@ { Some(Ins::Builtin(Op::Or)) }
    else if name == "and"@ { Some(Ins::Builtin(Op::And)) }
    else if name == "jgz"@ { Some(Ins::Builtin(Op::Jgz)) }
    else if name == "jz"@ { Some(Ins::Builtin(Op::Jz)) }
    else if name == "gt"@ { Some(Ins::Builtin(Op::Gt)) }
    else if name == "lt"@ { Some(Ins::Builtin(Op::Lt)) }
    else if name == "dup"@ { Some(Ins::Builtin(Op::Dup)) }
    else if name == "pause"@ { Some(Ins::Builtin(Op::Pause)) }
    else if name == "exit"@ { Some(Ins::Builtin(Op::Exit)) }
    else if name == "goto"@ { Some(Ins::Builtin(Op::Goto)) }
    else if name == "{"@ { Some(Ins::OpenBrace) }
    else if name == "}"@ { Some(Ins::CloseBrace) }
    else if name == "getContext"@ { Some(Ins::Builtin(Op::GetContext)) }
    else if name == "hasContext"@ { Some(Ins::Builtin(Op::HasContext)) }
    else if name == "setContext"@ { Some(Ins::Builtin(Op::SetContext)) }
    else if name == "delContext"@ { Some(Ins::Builtin(Op::DelContext)) }
    else if name == "stacksize"@ { Some(Ins::Builtin(Op::StackSize)) }
    else if name == "stdout"@ { Some(Ins::Builtin(Op::Stdout)) }
    else { None }
}

/// Character-wise equality of two strings.
pub fn same_text(a: &str, b: &str) -> (r: bool)
    ensures
        r == (a@ == b@),
{
    let n = a.unicode_len();
    if n != b.unicode_len() {
        return false;
    }
    let mut i: usize = 0;
    while i < n
        invariant
            n == a@.len(),
            n == b@.len(),
            i <= n,
            a@.subrange(0, i as int) == b@.subrange(0, i as int),
        decreases n - i,
    {
        if a.get_char(i) != b.get_char(i) {
            assert(a@[i as int] != b@[i as int]);
            return false;
        }
        assert(a@.subrange(0, i + 1) =~= a@.subrange(0, i as int).push(a@[i as int]));
        assert(b@.subrange(0, i + 1) =~= b@.subrange(0, i as int).push(b@[i as int]));
        i = i + 1;
    }
    assert(a@ =~= a@.subrange(0, n as int));
    assert(b@ =~= b@.subrange(0, n as int));
    true
}

/// The built-in instruction a name stands for, if any.
pub fn builtin_instr(name: &str) -> (r: Option<Instr>)
    ensures
        match r {
            Some(i) => builtin_named(name@) == Some(i@),
            None => builtin_named(name@) is None,
        },
{
    if same_text(name, "nop") { Some(Instr::Builtin(Op::Nop)) }
    else if same_text(name, "pop") { Some(Instr::Builtin(Op::Pop)) }
    else if same_text(name, "plus") || same_text(name, "+") { Some(Instr::Builtin(Op::Plus)) }
    else if same_text(name, "min") || same_text(name, "-") { Some(Instr::Builtin(Op::Min)) }
    else if same_text(name, "mul") || same_text(name, "*") { Some(Instr::Builtin(Op::Mul)) }
    else if same_text(name, "concat") { Some(Instr::Builtin(Op::Concat)) }
    else if same_text(name, "rconcat") { Some(Instr::Builtin(Op::Rconcat)) }
    else if same_text(name, "randInt") { Some(Instr::Builtin(Op::RandInt)) }
    else if same_text(name, "charCode") { Some(Instr::Builtin(Op::CharCode)) }
    else if same_text(name, "ppc") { Some(Instr::Builtin(Op::Ppc)) }
    else if same_text(name, "eq") { Some(Instr::Builtin(Op::Eq)) }
    else if same_text(name, "not") { Some(Instr::Builtin(Op::Not)) }
    else if same_text(name, "or") { Some(Instr::Builtin(Op::Or)) }
    else if same_text(name, "and") { Some(Instr::Builtin(Op::And)) }
    else if same_text(name, "jgz") { Some(Instr::Builtin(Op::Jgz)) }
    else if same_text(name, "jz") { Some(Instr::Builtin(Op::Jz)) }
    else if same_text(name, "gt") { Some(Instr::Builtin(Op::Gt)) }
    else if same_text(name, "lt") { Some(Instr::Builtin(Op::Lt)) }
    else if same_text(name, "dup") { Some(Instr::Builtin(Op::Dup)) }
    else if same_text(name, "pause") { Some(Instr::Builtin(Op::Pause)) }
    else if same_text(name, "exit") { Some(Instr::Builtin(Op::Exit)) }
    else if same_text(name, "goto") { Some(Instr::Builtin(Op::Goto)) }
    else if same_text(name, "{") { Some(Instr::OpenBrace) }
    else if same_text(name, "}") { Some(Instr::CloseBrace) }
    else if same_text(name, "getContext") { Some(Instr::Builtin(Op::GetContext)) }
    else if same_text(name, "hasContext") { Some(Instr::Builtin(Op::HasContext)) }
    else if same_text(name, "setContext") { Some(Instr::Builtin(Op::SetContext)) }
    else if same_text(name, "delContext") { Some(Instr::Builtin(Op::DelContext)) }
    else if same_text(name, "stacksize") { Some(Instr::Builtin(Op::StackSize)) }
    else if same_text(name, "stdout") { Some(Instr::Builtin(Op::Stdout)) }
    else { None }
}

} // verus!
