use lowlua::backtrace::{backtrace_lines, frame_line, FrameInfo};
use lowlua::convert::string_from_bytes;
use lowlua::protocol::{
    error_handler_action, trampoline_action, CallCompletion, CalleeOutcome, HostOutcome,
    TrampolineAction,
};
use lowlua::vm::{Value, Vm};
use lowlua::{LuaCallResults, LuaIndex, LuaString, LuaType, RunError};

#[test]
fn test_intern() {
    let mut state = Vm::new();
    let ls: LuaString = state.intern("test");
    state.push(ls);
    let rs: String = state.at(LuaIndex::Stack(-1)).unwrap();
    state.pop(1);
    assert!(rs == "test");
    assert!(state.get_top() == 0);
}

#[test]
fn intern_twice_same_handle() {
    let mut vm = Vm::new();
    let a = vm.intern("shared");
    let b = vm.intern("other");
    let c = vm.intern("shared");
    assert!(a == c);
    assert!(a != b);
}

#[test]
fn intern_empty_string() {
    let mut vm = Vm::new();
    let h = vm.intern("");
    vm.push(h);
    let back: String = vm.at(LuaIndex::Stack(-1)).unwrap();
    assert_eq!(back, "");
}

#[test]
fn handle_read_back_from_stack() {
    let mut vm = Vm::new();
    let h = vm.intern("shared");
    vm.push("shared");
    let back: LuaString = vm.at(LuaIndex::Stack(-1)).unwrap();
    assert!(back == h);
    let r: Result<LuaString, RunError> = vm.at(LuaIndex::Stack(50));
    assert!(r.is_err());
}

#[test]
fn push_and_read_scalars() {
    let mut vm = Vm::new();
    vm.push(200u8);
    vm.push(-7i32);
    vm.push(true);
    vm.push("hello");
    assert_eq!(vm.at::<u8>(LuaIndex::Stack(1)).unwrap(), 200);
    assert_eq!(vm.at::<i32>(LuaIndex::Stack(2)).unwrap(), -7);
    assert_eq!(vm.at::<bool>(LuaIndex::Stack(3)).unwrap(), true);
    assert_eq!(vm.at::<String>(LuaIndex::Stack(4)).unwrap(), "hello");
    assert_eq!(vm.get_top(), 4);
}

#[test]
fn read_out_of_range_is_error() {
    let mut vm = Vm::new();
    vm.push(300i64);
    let r: Result<u8, RunError> = vm.at(LuaIndex::Stack(1));
    let e = r.err().expect("300 does not fit u8");
    assert_eq!(
        e.message,
        "invalid conversion from Lua type `Number` to Rust type `u8`"
    );

    vm.push(-1i64);
    let r: Result<u16, RunError> = vm.at(LuaIndex::Stack(2));
    assert!(r.is_err());
}

#[test]
fn read_wrong_type_is_stack_neutral() {
    let mut vm = Vm::new();
    vm.push(true);
    let before = vm.get_top();
    let r: Result<String, RunError> = vm.at(LuaIndex::Stack(1));
    let e = r.err().expect("a boolean is not a string");
    assert_eq!(
        e.message,
        "invalid conversion from Lua type `Boolean` to Rust type `String`"
    );
    assert_eq!(vm.get_top(), before);

    let r: Result<i64, RunError> = vm.at(LuaIndex::Stack(99));
    let e = r.err().expect("no value at that index");
    assert_eq!(e.message, "invalid index");
    assert_eq!(vm.get_top(), before);
}

#[test]
fn boolean_read_never_fails() {
    let mut vm = Vm::new();
    vm.push_nil();
    vm.push(0i64);
    assert_eq!(vm.at::<bool>(LuaIndex::Stack(1)).unwrap(), false);
    assert_eq!(vm.at::<bool>(LuaIndex::Stack(2)).unwrap(), true);
    assert_eq!(vm.at::<bool>(LuaIndex::Stack(50)).unwrap(), false);
}

#[test]
fn unsigned_wrap_matches_native_integer() {
    let mut vm = Vm::new();
    vm.push(u64::MAX);
    assert_eq!(vm.at::<i64>(LuaIndex::Stack(1)).unwrap(), -1);
    assert_eq!(vm.at::<u64>(LuaIndex::Stack(1)).unwrap(), u64::MAX);
}

#[test]
fn numeral_string_reads_as_integer() {
    let mut vm = Vm::new();
    vm.push("10");
    assert_eq!(vm.at::<i64>(LuaIndex::Stack(1)).unwrap(), 10);
    assert_eq!(vm.at::<u8>(LuaIndex::Stack(1)).unwrap(), 10);

    vm.push("  -42 ");
    assert_eq!(vm.at::<i64>(LuaIndex::Stack(2)).unwrap(), -42);

    vm.push("0x1F");
    assert_eq!(vm.at::<i64>(LuaIndex::Stack(3)).unwrap(), 31);

    vm.push("+7");
    assert_eq!(vm.at::<u16>(LuaIndex::Stack(4)).unwrap(), 7);

    vm.push("-9223372036854775808");
    assert_eq!(vm.at::<i64>(LuaIndex::Stack(5)).unwrap(), i64::MIN);

    // A hexadecimal numeral wraps around the native integer width.
    vm.push("0xFFFFFFFFFFFFFFFF");
    assert_eq!(vm.at::<i64>(LuaIndex::Stack(6)).unwrap(), -1);
    assert_eq!(vm.at::<u64>(LuaIndex::Stack(6)).unwrap(), u64::MAX);
}

#[test]
fn bad_numeral_string_is_error() {
    let mut vm = Vm::new();
    vm.push("pear");
    let r: Result<i64, RunError> = vm.at(LuaIndex::Stack(1));
    let e = r.err().expect("not a numeral");
    assert_eq!(
        e.message,
        "invalid conversion from Lua type `String` to Rust type `i64`"
    );

    // An overflowing decimal numeral does not fit the native integer.
    vm.push("92233720368547758070");
    assert!(vm.at::<i64>(LuaIndex::Stack(2)).is_err());

    // A numeral in float syntax is outside the model's integer grammar.
    vm.push("10.5");
    assert!(vm.at::<i64>(LuaIndex::Stack(3)).is_err());

    vm.push("12a");
    assert!(vm.at::<i64>(LuaIndex::Stack(4)).is_err());

    vm.push("0x");
    assert!(vm.at::<i64>(LuaIndex::Stack(5)).is_err());

    vm.push("");
    assert!(vm.at::<i64>(LuaIndex::Stack(6)).is_err());
}

#[test]
fn number_reads_as_rendered_string() {
    let mut vm = Vm::new();
    vm.push(-310i64);
    let s: String = vm.at(LuaIndex::Stack(1)).unwrap();
    assert_eq!(s, "-310");
    // The read coerced the slot itself: the value is now a string, as the
    // C read leaves it.
    assert!(matches!(vm.value_at_offset(1), Some(Value::Str(_))));
    assert_eq!(vm.at::<String>(LuaIndex::Stack(1)).unwrap(), "-310");
    assert_eq!(vm.get_top(), 1);

    vm.push(0i64);
    assert_eq!(vm.at::<String>(LuaIndex::Stack(2)).unwrap(), "0");
}

#[test]
fn number_reads_as_string_handle() {
    let mut vm = Vm::new();
    vm.push(55i64);
    let h: LuaString = vm.at(LuaIndex::Stack(1)).unwrap();
    // The handle stands for the rendering, deduplicated with any equal
    // content interned before or after.
    assert!(h == vm.intern("55"));
    vm.push(h);
    assert_eq!(vm.at::<String>(LuaIndex::Stack(-1)).unwrap(), "55");
}

#[test]
fn test_userdata() {
    let mut vm = Vm::new();
    let bytes: Vec<u8> = b"This is some huge data".to_vec();
    vm.push_userdata(11, bytes.clone());
    let read = vm
        .userdata_at(LuaIndex::Stack(-1), 11, "HugeData")
        .expect("the tag matches");
    assert_eq!(read.as_slice(), bytes.as_slice());
}

#[test]
fn userdata_wrong_type_is_error() {
    let mut vm = Vm::new();
    vm.push_userdata(11, vec![1, 2, 3]);
    let r = vm.userdata_at(LuaIndex::Stack(-1), 12, "OtherData");
    let e = r.err().expect("the tag differs");
    assert_eq!(
        e.message,
        "invalid conversion from Lua type `Userdata` to Rust type `OtherData`"
    );

    vm.push(5i64);
    let r = vm.userdata_at(LuaIndex::Stack(-1), 11, "HugeData");
    let e = r.err().expect("an integer is no userdata");
    assert_eq!(
        e.message,
        "invalid conversion from Lua type `Number` to Rust type `HugeData`"
    );
}

#[test]
fn userdata_move_defuses_record() {
    let mut vm = Vm::new();
    vm.push_userdata(11, vec![4, 5]);
    let taken = vm
        .userdata_move(LuaIndex::Stack(-1), 11, "HugeData")
        .expect("the tag matches");
    assert_eq!(taken, vec![4, 5]);
    // The record is now inert: a second extraction finds nothing of that
    // type any more.
    let again = vm.userdata_move(LuaIndex::Stack(-1), 11, "HugeData");
    assert!(again.is_err());
}

#[test]
fn metatable_cache_memoizes() {
    let mut vm = Vm::new();
    vm.get_or_create_metatable(42);
    vm.get_or_create_metatable(42);
    vm.get_or_create_metatable(7);
    // Both pushes of the same type yield the same table identity.
    assert_eq!(vm.value_at_offset(1), Some(Value::Table(42)));
    assert_eq!(vm.value_at_offset(2), Some(Value::Table(42)));
    assert_eq!(vm.value_at_offset(3), Some(Value::Table(7)));
}

#[test]
fn call_frames_results() {
    let mut vm = Vm::new();
    vm.push(99i64);
    vm.push_function(1);
    vm.push(10i64);
    vm.push(20i64);
    let pre_call = vm.get_top() - 3;
    let r = vm.call(
        2,
        LuaCallResults::Num(2),
        CalleeOutcome::Return(vec![Value::Integer(31), Value::Integer(32)]),
        Vec::new(),
    );
    assert!(matches!(r, CallCompletion::Returned));
    assert_eq!(vm.get_top(), pre_call + 2);
    assert_eq!(vm.value_at_offset(1), Some(Value::Integer(99)));
    assert_eq!(vm.value_at_offset(2), Some(Value::Integer(31)));
    assert_eq!(vm.value_at_offset(3), Some(Value::Integer(32)));
}

#[test]
fn call_adjusts_result_count() {
    // Fewer results than requested: the rest is nil.
    let mut vm = Vm::new();
    vm.push_function(1);
    let r = vm.call(
        0,
        LuaCallResults::Num(3),
        CalleeOutcome::Return(vec![Value::Integer(1)]),
        Vec::new(),
    );
    assert!(matches!(r, CallCompletion::Returned));
    assert_eq!(vm.get_top(), 3);
    assert_eq!(vm.value_at_offset(1), Some(Value::Integer(1)));
    assert_eq!(vm.value_at_offset(2), Some(Value::Nil));
    assert_eq!(vm.value_at_offset(3), Some(Value::Nil));

    // More results than requested: the first ones are kept.
    let mut vm = Vm::new();
    vm.push_function(1);
    let r = vm.call(
        0,
        LuaCallResults::Num(1),
        CalleeOutcome::Return(vec![Value::Integer(1), Value::Integer(2)]),
        Vec::new(),
    );
    assert!(matches!(r, CallCompletion::Returned));
    assert_eq!(vm.get_top(), 1);
    assert_eq!(vm.value_at_offset(1), Some(Value::Integer(1)));

    // An unbounded request keeps all of them.
    let mut vm = Vm::new();
    vm.push_function(1);
    let r = vm.call(
        0,
        LuaCallResults::MultRet,
        CalleeOutcome::Return(vec![Value::Integer(1), Value::Integer(2)]),
        Vec::new(),
    );
    assert!(matches!(r, CallCompletion::Returned));
    assert_eq!(vm.get_top(), 2);
}

#[test]
fn test_error() {
    let mut state = Vm::new();
    state.push_function(1);
    let outcome = match trampoline_action(HostOutcome::Completed(Err(RunError::new(
        "Test error~".to_string(),
        Vec::new(),
    )))) {
        TrampolineAction::RaiseError(e) => CalleeOutcome::RaiseError(e),
        _ => panic!("an explicit failure is raised as a tagged error"),
    };
    let result = state.call(0, LuaCallResults::Num(0), outcome, Vec::new());
    match result {
        CallCompletion::Failed(e) => assert!(e.message == "Test error~"),
        _ => panic!("the call must fail with the callback's error"),
    }
    assert_eq!(state.get_top(), 0);
}

#[test]
fn fault_is_contained() {
    let mut vm = Vm::new();
    let h = vm.intern("still valid");
    vm.push(77i64);
    vm.push_function(1);
    let action = trampoline_action(HostOutcome::Panicked(5));
    let outcome = match action {
        TrampolineAction::RaiseFault(p) => CalleeOutcome::RaiseFault(p),
        _ => panic!("a caught fault is raised as a tagged fault"),
    };
    let r = vm.call(0, LuaCallResults::Num(0), outcome, Vec::new());
    match r {
        CallCompletion::Fault(p) => assert_eq!(p, 5),
        _ => panic!("the fault must surface as a fault, not as an error value"),
    }
    // The instance is not corrupted: the stack is back at its pre-call
    // height, retained strings are intact, and an unrelated call on the
    // same instance still succeeds normally.
    assert_eq!(vm.get_top(), 1);
    assert_eq!(vm.value_at_offset(1), Some(Value::Integer(77)));
    vm.push(h);
    assert_eq!(
        vm.at::<String>(LuaIndex::Stack(-1)).unwrap(),
        "still valid"
    );
    vm.pop(1);
    vm.push_function(2);
    let r = vm.call(
        0,
        LuaCallResults::Num(1),
        CalleeOutcome::Return(vec![Value::Boolean(true)]),
        Vec::new(),
    );
    assert!(matches!(r, CallCompletion::Returned));
    assert_eq!(vm.value_at_offset(-1), Some(Value::Boolean(true)));
}

#[test]
fn raw_error_gains_backtrace() {
    let mut vm = Vm::new();
    vm.push_function(1);
    let frames = vec!["script.lua:3 in [main]".to_string()];
    let r = vm.call(
        0,
        LuaCallResults::Num(0),
        CalleeOutcome::RaiseRaw(Some("attempt to index a nil value".to_string())),
        frames.clone(),
    );
    match r {
        CallCompletion::Failed(e) => {
            assert_eq!(e.message, "attempt to index a nil value");
            assert_eq!(e.backtrace, frames);
        }
        _ => panic!("a raw error must surface as a run error"),
    }

    let mut vm = Vm::new();
    vm.push_function(1);
    let r = vm.call(
        0,
        LuaCallResults::Num(0),
        CalleeOutcome::RaiseRaw(None),
        Vec::new(),
    );
    match r {
        CallCompletion::Failed(e) => assert_eq!(e.message, "unknown error"),
        _ => panic!("a raw error must surface as a run error"),
    }
}

#[test]
fn error_handler_passes_tagged_through() {
    assert!(error_handler_action(true, Some("ignored".to_string()), Vec::new()).is_none());
    let coerced = error_handler_action(false, None, vec!["f:1 in [native]".to_string()]).unwrap();
    assert_eq!(coerced.message, "unknown error");
    assert_eq!(coerced.backtrace, vec!["f:1 in [native]".to_string()]);
}

fn frame(
    short_src: &str,
    currentline: i32,
    namewhat: &str,
    name: &str,
    what: &str,
    linedefined: i32,
) -> FrameInfo {
    FrameInfo {
        short_src: short_src.to_string(),
        currentline,
        namewhat: namewhat.to_string(),
        name: name.to_string(),
        what: what.to_string(),
        linedefined,
    }
}

#[test]
fn frame_line_formats() {
    assert_eq!(
        frame_line(&frame("script.lua", 7, "local", "helper", "Lua", 5)),
        "script.lua:7 in local 'helper'"
    );
    assert_eq!(
        frame_line(&frame("script.lua", 1, "", "", "main", 0)),
        "script.lua:1 in [main]"
    );
    assert_eq!(
        frame_line(&frame("[C]", -1, "", "", "C", -1)),
        "[C]: in [native]"
    );
    assert_eq!(
        frame_line(&frame("script.lua", 12, "", "", "Lua", 10)),
        "script.lua:12 in function <script.lua:10>"
    );
    assert_eq!(
        frame_line(&frame("big.lua", 20705, "", "", "Lua", 1043)),
        "big.lua:20705 in function <big.lua:1043>"
    );
}

#[test]
fn backtrace_lists_innermost_first() {
    let frames = vec![
        frame("[C]", -1, "", "", "C", -1),
        frame("script.lua", 4, "global", "fail", "Lua", 3),
        frame("script.lua", 9, "", "", "main", 0),
    ];
    let lines = backtrace_lines(&frames);
    assert_eq!(lines.len(), 3);
    assert_eq!(lines[0], "[C]: in [native]");
    assert_eq!(lines[1], "script.lua:4 in global 'fail'");
    assert_eq!(lines[2], "script.lua:9 in [main]");
}

#[test]
fn string_from_bytes_validates_utf8() {
    let ok = string_from_bytes("héllo".as_bytes().to_vec(), Some(LuaType::String), Vec::new());
    assert_eq!(ok.unwrap(), "héllo");

    let bad = string_from_bytes(vec![0x66, 0xff, 0x67], Some(LuaType::String), Vec::new());
    let e = bad.err().expect("0xff is not valid UTF-8");
    assert_eq!(
        e.message,
        "invalid conversion from Lua type `String` to Rust type `String`"
    );
}
