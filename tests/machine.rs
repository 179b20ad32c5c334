use stackvm::entry::{Entry, Json};
use stackvm::error::VmError;
use stackvm::foo::Foo;
use stackvm::value::Value;
use stackvm::vm::{Event, Stop, VM};

fn field(k: &str, v: Json) -> (String, Json) {
    (k.to_string(), v)
}

fn num(n: i64) -> Entry {
    Entry {
        fields: vec![
            field("type", Json::Text("push-number-instruction".to_string())),
            field("value", Json::Int(n)),
        ],
    }
}

fn text(s: &str) -> Entry {
    Entry {
        fields: vec![
            field("type", Json::Text("push-string-instruction".to_string())),
            field("value", Json::Text(s.to_string())),
        ],
    }
}

fn call(name: &str) -> Entry {
    Entry {
        fields: vec![
            field("type", Json::Text("invoke-function-instruction".to_string())),
            field("functionName", Json::Text(name.to_string())),
        ],
    }
}

fn labeled(mut e: Entry, label: &str) -> Entry {
    e.fields.push(field("label", Json::Text(label.to_string())));
    e
}

fn loaded(entries: Vec<Entry>) -> VM {
    let mut vm = VM::new();
    vm.load(entries).unwrap();
    vm
}

fn run_to_end(entries: Vec<Entry>) -> VM {
    let mut vm = loaded(entries);
    assert_eq!(vm.run(), Ok(Stop::Finished));
    vm
}

fn n(x: i64) -> Value {
    Value::Number(x)
}

fn s(x: &str) -> Value {
    Value::String(x.to_string())
}

#[test]
fn push_push_plus() {
    let vm = run_to_end(vec![num(2), num(3), call("plus")]);
    assert_eq!(vm.stack(), &vec![n(5)]);
}

#[test]
fn plus_alias_and_mixed_operands() {
    let vm = run_to_end(vec![num(2), num(3), call("+")]);
    assert_eq!(vm.stack(), &vec![n(5)]);
    let vm = run_to_end(vec![num(1), text("x"), num(3), call("plus")]);
    assert_eq!(vm.stack(), &vec![n(1)]);
}

#[test]
fn push_push_min() {
    let vm = run_to_end(vec![num(2), num(3), call("min")]);
    assert_eq!(vm.stack(), &vec![n(1)]);
}

#[test]
fn push_push_mul() {
    let vm = run_to_end(vec![num(-4), num(3), call("*")]);
    assert_eq!(vm.stack(), &vec![n(-12)]);
}

#[test]
fn mul_overflow_is_an_error() {
    let mut vm = loaded(vec![num(i64::MAX), num(2), call("mul")]);
    assert_eq!(vm.run(), Err(VmError::Overflow));
}

#[test]
fn push_push_lt() {
    let vm = run_to_end(vec![num(3), num(2), call("lt")]);
    assert_eq!(vm.stack(), &vec![n(1)]);
}

#[test]
fn push_push_gt() {
    let vm = run_to_end(vec![num(3), num(2), call("gt")]);
    assert_eq!(vm.stack(), &vec![n(0)]);
}

#[test]
fn comparisons_use_truncated_integers() {
    let vm = run_to_end(vec![num(4_000_000_000), num(3_000_000_000), call("gt")]);
    assert_eq!(vm.stack(), &vec![n(0)]);
}

#[test]
fn push_push_rconcat() {
    let vm = run_to_end(vec![text("he"), text("llo"), call("rconcat")]);
    assert_eq!(vm.stack(), &vec![s("hello")]);
}

#[test]
fn push_push_concat_top_first() {
    let vm = run_to_end(vec![text("he"), text("llo"), call("concat")]);
    assert_eq!(vm.stack(), &vec![s("llohe")]);
}

#[test]
fn concat_numbers_in_decimal() {
    let vm = run_to_end(vec![num(12), num(-3), call("concat")]);
    assert_eq!(vm.stack(), &vec![s("-312")]);
}

#[test]
fn set_then_get_context() {
    let vm = run_to_end(vec![
        num(5),
        text("k"),
        call("setContext"),
        text("k"),
        call("getContext"),
    ]);
    assert_eq!(vm.stack(), &vec![n(5)]);
}

#[test]
fn set_then_has_context() {
    let vm = run_to_end(vec![
        text("v"),
        num(7),
        call("setContext"),
        num(7),
        call("hasContext"),
        text("other"),
        call("hasContext"),
    ]);
    assert_eq!(vm.stack(), &vec![n(1), n(0)]);
}

#[test]
fn del_then_has_context() {
    let vm = run_to_end(vec![
        num(5),
        text("k"),
        call("setContext"),
        text("k"),
        call("delContext"),
        text("k"),
        call("hasContext"),
        text("never"),
        call("delContext"),
    ]);
    assert_eq!(vm.stack(), &vec![n(0)]);
}

#[test]
fn get_context_missing_key() {
    let mut vm = loaded(vec![text("k"), call("getContext")]);
    assert_eq!(vm.run(), Err(VmError::KeyMissing));
}

#[test]
fn context_set_before_run() {
    let mut vm = loaded(vec![text("a"), call("getContext")]);
    vm.put_f64(3);
    vm.put_string("a".to_string());
    vm.i_setcontext().unwrap();
    assert_eq!(vm.run(), Ok(Stop::Finished));
    assert_eq!(vm.stack(), &vec![n(3)]);
}

#[test]
fn jgz_skips_next() {
    let vm = run_to_end(vec![num(1), call("jgz"), num(99), num(42)]);
    assert_eq!(vm.stack(), &vec![n(42)]);
}

#[test]
fn jgz_does_not_skip_on_zero() {
    let vm = run_to_end(vec![num(0), call("jgz"), num(99), num(42)]);
    assert_eq!(vm.stack(), &vec![n(99), n(42)]);
}

#[test]
fn jz_skips_on_zero() {
    let vm = run_to_end(vec![num(0), call("jz"), num(99), num(42)]);
    assert_eq!(vm.stack(), &vec![n(42)]);
}

#[test]
fn jgz_on_last_instruction_ends_program() {
    let mut vm = loaded(vec![num(1), call("jgz")]);
    assert_eq!(vm.run(), Ok(Stop::Finished));
    assert_eq!(vm.pc(), 2);
}

#[test]
fn braces_skip_block() {
    let vm = run_to_end(vec![call("{"), num(10), call("}"), num(20)]);
    assert_eq!(vm.stack(), &vec![n(20)]);
}

#[test]
fn nested_braces_skip_whole_block() {
    let vm = run_to_end(vec![
        call("{"),
        num(1),
        call("{"),
        num(2),
        call("}"),
        num(3),
        call("}"),
        num(4),
    ]);
    assert_eq!(vm.stack(), &vec![n(4)]);
}

#[test]
fn unbalanced_brace() {
    let mut vm = loaded(vec![call("{"), num(10)]);
    assert_eq!(vm.run(), Err(VmError::UnbalancedBrace));
}

#[test]
fn close_brace_alone_is_noop() {
    let vm = run_to_end(vec![call("}"), num(1)]);
    assert_eq!(vm.stack(), &vec![n(1)]);
}

#[test]
fn goto_zero_reruns_program() {
    let mut vm = loaded(vec![num(3), num(0), call("goto")]);
    for _ in 0..3 {
        assert_eq!(vm.step(), Ok(Event::Continue));
    }
    assert_eq!(vm.pc(), 0);
    assert_eq!(vm.stack(), &vec![n(3)]);
    assert_eq!(vm.run_for(4), Ok(Stop::StepLimit));
    assert_eq!(vm.stack(), &vec![n(3), n(3), n(3)]);
}

#[test]
fn goto_loop_bounded_by_exit() {
    let mut vm = loaded(vec![
        num(3),
        labeled(call("dup"), "top"),
        call("jgz"),
        call("exit"),
        num(-1),
        call("plus"),
        text("top"),
        call("goto"),
    ]);
    assert_eq!(vm.run(), Ok(Stop::Exited));
    assert_eq!(vm.stack(), &vec![n(0)]);
}

#[test]
fn goto_by_label_and_exit() {
    let mut vm = loaded(vec![
        num(1),
        text("end"),
        call("goto"),
        num(2),
        labeled(call("nop"), "end"),
        num(3),
        call("exit"),
        num(4),
    ]);
    assert_eq!(vm.run(), Ok(Stop::Exited));
    assert_eq!(vm.stack(), &vec![n(1), n(3)]);
    assert_eq!(vm.run(), Err(VmError::AlreadyExited));
}

#[test]
fn goto_missing_label() {
    let mut vm = loaded(vec![text("nowhere"), call("goto")]);
    assert_eq!(vm.run(), Err(VmError::LabelNotFound));
}

#[test]
fn goto_negative_lands_on_start() {
    let mut vm = loaded(vec![num(-5), call("goto")]);
    assert_eq!(vm.step(), Ok(Event::Continue));
    assert_eq!(vm.step(), Ok(Event::Continue));
    assert_eq!(vm.pc(), 0);
}

#[test]
fn goto_past_end_finishes() {
    let mut vm = loaded(vec![num(100), call("goto"), num(1)]);
    assert_eq!(vm.run(), Ok(Stop::Finished));
    assert_eq!(vm.pc(), 3);
    assert_eq!(vm.stack(), &vec![]);
}

#[test]
fn push_then_pop() {
    let vm = run_to_end(vec![num(1), text("x"), call("pop")]);
    assert_eq!(vm.stack(), &vec![n(1)]);
}

#[test]
fn pop_on_empty_stack() {
    let mut vm = loaded(vec![call("pop")]);
    assert_eq!(vm.run(), Err(VmError::StackUnderflow));
}

#[test]
fn dup_copies_top() {
    let vm = run_to_end(vec![num(1), text("a"), call("dup")]);
    assert_eq!(vm.stack(), &vec![n(1), s("a"), s("a")]);
}

#[test]
fn stacksize_counts_before_push() {
    let vm = run_to_end(vec![num(1), num(2), call("stacksize")]);
    assert_eq!(vm.stack(), &vec![n(1), n(2), n(2)]);
    let vm = run_to_end(vec![call("stacksize")]);
    assert_eq!(vm.stack(), &vec![n(0)]);
}

#[test]
fn ppc_pushes_own_index() {
    let vm = run_to_end(vec![call("nop"), call("nop"), call("ppc")]);
    assert_eq!(vm.stack(), &vec![n(2)]);
}

#[test]
fn eq_on_numbers_strings_and_mixed() {
    let vm = run_to_end(vec![
        num(2),
        num(2),
        call("eq"),
        text("a"),
        text("b"),
        call("eq"),
        text("2"),
        num(2),
        call("eq"),
    ]);
    assert_eq!(vm.stack(), &vec![n(1), n(0), n(0)]);
}

#[test]
fn boolean_ops() {
    let vm = run_to_end(vec![
        num(0),
        call("not"),
        num(5),
        call("not"),
        num(0),
        num(0),
        call("or"),
        num(0),
        num(7),
        call("or"),
        num(1),
        num(0),
        call("and"),
        num(2),
        num(-3),
        call("and"),
    ]);
    assert_eq!(vm.stack(), &vec![n(1), n(0), n(0), n(1), n(0), n(1)]);
}

#[test]
fn not_on_string_is_type_error() {
    let mut vm = loaded(vec![text("x"), call("not")]);
    assert_eq!(vm.run(), Err(VmError::TypeError));
}

#[test]
fn char_code_pushes_character() {
    let vm = run_to_end(vec![num(65), call("charCode"), num(300), call("charCode")]);
    assert_eq!(vm.stack(), &vec![s("A"), s("\u{ff}")]);
}

#[test]
fn rand_int_in_range() {
    let vm = run_to_end(vec![num(1), call("randInt"), num(10), call("randInt")]);
    assert_eq!(vm.stack()[0], n(0));
    match vm.stack()[1] {
        Value::Number(x) => assert!((0..10).contains(&x)),
        _ => panic!("randInt pushed a string"),
    }
}

#[test]
fn rand_int_empty_range() {
    let mut vm = loaded(vec![num(0), call("randInt")]);
    assert_eq!(vm.run(), Err(VmError::EmptyRange));
}

#[test]
fn stdout_hands_text_to_host() {
    let mut vm = loaded(vec![num(5), call("stdout"), text("hi"), call("stdout"), num(1)]);
    assert_eq!(vm.run(), Ok(Stop::Output("5".to_string())));
    assert_eq!(vm.run(), Ok(Stop::Output("hi".to_string())));
    assert_eq!(vm.run(), Ok(Stop::Finished));
    assert_eq!(vm.stack(), &vec![n(1)]);
}

#[test]
fn pause_then_resume() {
    let mut vm = loaded(vec![num(1), call("pause"), num(2)]);
    assert_eq!(vm.run(), Ok(Stop::Paused));
    assert_eq!(vm.stack(), &vec![n(1)]);
    assert_eq!(vm.run(), Ok(Stop::Finished));
    assert_eq!(vm.stack(), &vec![n(1), n(2)]);
}

#[test]
fn foreign_function_call() {
    let mut vm = VM::new();
    assert_eq!(vm.registerForeignFunction("double".to_string()), 0);
    vm.load(vec![num(4), call("double"), num(1)]).unwrap();
    assert_eq!(vm.run(), Ok(Stop::Foreign(0)));
    assert_eq!(vm.pc(), 1);
    vm.put_f64(8);
    vm.advance();
    assert_eq!(vm.pc(), 2);
    assert_eq!(vm.run(), Ok(Stop::Finished));
    assert_eq!(vm.stack(), &vec![n(4), n(8), n(1)]);
}

#[test]
fn underscore_names_are_ignored() {
    let vm = run_to_end(vec![num(1), call("_comment"), num(2)]);
    assert_eq!(vm.program_len(), 2);
    assert_eq!(vm.stack(), &vec![n(1), n(2)]);
}

#[test]
fn unknown_function() {
    let mut vm = VM::new();
    assert_eq!(
        vm.load(vec![call("frobnicate")]),
        Err(VmError::UnknownFunction("frobnicate".to_string()))
    );
}

#[test]
fn malformed_entries() {
    let mut vm = VM::new();
    let e = Entry {
        fields: vec![field("type", Json::Text("push-number-instruction".to_string()))],
    };
    assert_eq!(vm.load(vec![e]), Err(VmError::MalformedEntry));
    let mut vm = VM::new();
    let e = Entry {
        fields: vec![
            field("type", Json::Text("push-number-instruction".to_string())),
            field("value", Json::Other),
        ],
    };
    assert_eq!(vm.load(vec![e]), Err(VmError::MalformedEntry));
    let mut vm = VM::new();
    let e = Entry {
        fields: vec![
            field("type", Json::Text("push-string-instruction".to_string())),
            field("value", Json::Text("a".to_string())),
            field("label", Json::Int(1)),
        ],
    };
    assert_eq!(vm.load(vec![e]), Err(VmError::MalformedEntry));
}

#[test]
fn unknown_type_emits_nothing() {
    let mut vm = VM::new();
    let e = Entry {
        fields: vec![field("type", Json::Text("something-else".to_string()))],
    };
    vm.load(vec![e, num(1)]).unwrap();
    assert_eq!(vm.program_len(), 1);
}

#[test]
fn step_past_end() {
    let mut vm = VM::new();
    assert_eq!(vm.step(), Err(VmError::PCOutOfRange));
}

#[test]
fn value_accessors() {
    assert!(n(1).is_number());
    assert!(!n(1).is_string());
    assert!(s("a").is_string());
    assert_eq!(n(7).as_number(), Ok(7));
    assert_eq!(s("a").as_number(), Err(VmError::TypeError));
    assert_eq!(s("a").as_string(), Ok("a".to_string()));
    assert_eq!(n(1).as_string(), Err(VmError::TypeError));
    assert_eq!(n(-42).to_string(), "-42");
    assert_eq!(s("x").to_string(), "x");
}

#[test]
fn hash_is_deterministic_and_distinguishes() {
    assert_eq!(n(5).as_hash(), n(5).as_hash());
    assert_eq!(s("k").as_hash(), s("k").as_hash());
    assert_ne!(s("k").as_hash(), s("j").as_hash());
    assert_ne!(n(1).as_hash(), n(2).as_hash());
}

#[test]
fn foo_cell() {
    let mut f = Foo::new();
    assert_eq!(f.get(), 0);
    f.set(9);
    assert_eq!(f.get(), 9);
}

#[test]
fn later_label_definition_wins() {
    let mut vm = loaded(vec![
        labeled(num(1), "x"),
        labeled(num(2), "x"),
        call("pause"),
        text("x"),
        call("goto"),
    ]);
    assert_eq!(vm.run(), Ok(Stop::Paused));
    assert_eq!(vm.run_for(3), Ok(Stop::StepLimit));
    assert_eq!(vm.stack(), &vec![n(1), n(2), n(2)]);
}

#[test]
fn label_before_any_instruction_marks_start() {
    let mut vm = VM::new();
    let e = Entry {
        fields: vec![field("label", Json::Text("start".to_string()))],
    };
    vm.load(vec![e, num(7), text("start"), call("goto")]).unwrap();
    assert_eq!(vm.run_for(4), Ok(Stop::StepLimit));
    assert_eq!(vm.pc(), 1);
    assert_eq!(vm.stack(), &vec![n(7), n(7)]);
}

#[test]
fn goto_handler_leaves_counter_before_target() {
    let mut vm = loaded(vec![num(5), num(6)]);
    vm.put_f64(0);
    vm.i_goto().unwrap();
    assert_eq!(vm.pc(), -1);
    assert_eq!(vm.step(), Err(VmError::PCOutOfRange));
    assert_eq!(vm.pc(), -1);
    vm.put_f64(2);
    vm.i_goto().unwrap();
    assert_eq!(vm.pc(), 1);
}

#[test]
fn jgz_handler_moves_counter_by_one() {
    let mut vm = loaded(vec![num(1), num(2), num(3)]);
    vm.put_f64(1);
    vm.i_jgz().unwrap();
    assert_eq!(vm.pc(), 1);
    vm.put_f64(0);
    vm.i_jgz().unwrap();
    assert_eq!(vm.pc(), 1);
    vm.put_f64(0);
    vm.i_jz().unwrap();
    assert_eq!(vm.pc(), 2);
}

#[test]
fn foreign_function_can_jump() {
    let mut vm = VM::new();
    vm.registerForeignFunction("back".to_string());
    vm.load(vec![num(1), call("back"), num(2)]).unwrap();
    assert_eq!(vm.run(), Ok(Stop::Foreign(0)));
    vm.put_f64(2);
    vm.i_goto().unwrap();
    vm.advance();
    assert_eq!(vm.run(), Ok(Stop::Finished));
    assert_eq!(vm.stack(), &vec![n(1), n(2)]);
}

#[test]
fn run_after_exit_keeps_state() {
    let mut vm = loaded(vec![num(1), call("exit"), num(2)]);
    assert_eq!(vm.run(), Ok(Stop::Exited));
    let pc = vm.pc();
    assert_eq!(vm.run(), Err(VmError::AlreadyExited));
    assert_eq!(vm.run(), Err(VmError::AlreadyExited));
    assert_eq!(vm.pc(), pc);
    assert_eq!(vm.stack(), &vec![n(1)]);
}

#[test]
fn host_sets_pc_and_reads_context() {
    let mut vm = loaded(vec![num(5), text("k"), call("setContext"), num(1), num(2)]);
    assert_eq!(vm.run_for(3), Ok(Stop::StepLimit));
    assert!(vm.has_key(&s("k")));
    assert!(!vm.has_key(&s("j")));
    assert_eq!(vm.context_value(&s("k")), Some(n(5)));
    assert_eq!(vm.context_value(&n(3)), None);
    assert_eq!(vm.set_pc(3), Ok(()));
    assert_eq!(vm.pc(), 3);
    assert_eq!(vm.set_pc(6), Err(VmError::PCOutOfRange));
    assert_eq!(vm.set_pc(-2), Err(VmError::PCOutOfRange));
    assert_eq!(vm.pc(), 3);
    assert_eq!(vm.set_pc(-1), Ok(()));
    vm.advance();
    assert_eq!(vm.pc(), 0);
}

#[test]
fn run_starting_outside_program_fails() {
    let mut vm = loaded(vec![num(1)]);
    vm.set_pc(-1).unwrap();
    assert_eq!(vm.run(), Err(VmError::PCOutOfRange));
    assert_eq!(vm.stack(), &vec![]);
}
