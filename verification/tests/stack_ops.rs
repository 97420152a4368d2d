use lowlua::vm::{Value, Vm};
use lowlua::LuaIndex;

fn stack_of(vals: &[i64]) -> Vm {
    let mut vm = Vm::new();
    for v in vals {
        vm.push_raw(Value::Integer(*v));
    }
    vm
}

fn read(vm: &Vm, off: i32) -> Value {
    vm.value_at_offset(off).expect("offset should be valid")
}

#[test]
fn push_and_top() {
    let mut vm = Vm::new();
    assert_eq!(vm.get_top(), 0);
    vm.push_raw(Value::Integer(7));
    vm.push_nil();
    vm.push_raw(Value::Boolean(true));
    assert_eq!(vm.get_top(), 3);
    assert_eq!(read(&vm, 1), Value::Integer(7));
    assert_eq!(read(&vm, -1), Value::Boolean(true));
    assert_eq!(read(&vm, -2), Value::Nil);
}

#[test]
fn pop_discards_from_top() {
    let mut vm = stack_of(&[1, 2, 3, 4]);
    vm.pop(2);
    assert_eq!(vm.get_top(), 2);
    assert_eq!(read(&vm, -1), Value::Integer(2));
}

#[test]
fn set_top_truncates_and_pads() {
    let mut vm = stack_of(&[1, 2, 3]);
    vm.set_top(1);
    assert_eq!(vm.get_top(), 1);
    assert_eq!(read(&vm, 1), Value::Integer(1));
    vm.set_top(3);
    assert_eq!(vm.get_top(), 3);
    assert_eq!(read(&vm, 2), Value::Nil);
    assert_eq!(read(&vm, 3), Value::Nil);
}

#[test]
fn push_value_copies() {
    let mut vm = stack_of(&[10, 20]);
    vm.push_value(LuaIndex::Stack(1));
    assert_eq!(vm.get_top(), 3);
    assert_eq!(read(&vm, 3), Value::Integer(10));
}

#[test]
fn insert_moves_top_down() {
    let mut vm = stack_of(&[1, 2, 3]);
    vm.push_raw(Value::Integer(9));
    vm.insert(2);
    assert_eq!(vm.get_top(), 4);
    assert_eq!(read(&vm, 1), Value::Integer(1));
    assert_eq!(read(&vm, 2), Value::Integer(9));
    assert_eq!(read(&vm, 3), Value::Integer(2));
    assert_eq!(read(&vm, 4), Value::Integer(3));
}

#[test]
fn remove_shifts_down() {
    let mut vm = stack_of(&[1, 2, 3]);
    vm.remove(2);
    assert_eq!(vm.get_top(), 2);
    assert_eq!(read(&vm, 1), Value::Integer(1));
    assert_eq!(read(&vm, 2), Value::Integer(3));
}

#[test]
fn replace_overwrites_and_pops() {
    let mut vm = stack_of(&[1, 2, 3]);
    vm.replace(1);
    assert_eq!(vm.get_top(), 2);
    assert_eq!(read(&vm, 1), Value::Integer(3));
    assert_eq!(read(&vm, 2), Value::Integer(2));
}

#[test]
fn copy_replaces_in_place() {
    let mut vm = stack_of(&[1, 2, 3]);
    vm.copy(-1, 1);
    assert_eq!(vm.get_top(), 3);
    assert_eq!(read(&vm, 1), Value::Integer(3));
    assert_eq!(read(&vm, 2), Value::Integer(2));
}

#[test]
fn rotate_toward_top_and_bottom() {
    let mut vm = stack_of(&[1, 2, 3, 4]);
    vm.rotate(2, 1);
    assert_eq!(read(&vm, 1), Value::Integer(1));
    assert_eq!(read(&vm, 2), Value::Integer(4));
    assert_eq!(read(&vm, 3), Value::Integer(2));
    assert_eq!(read(&vm, 4), Value::Integer(3));

    let mut vm = stack_of(&[1, 2, 3, 4]);
    vm.rotate(2, -1);
    assert_eq!(read(&vm, 2), Value::Integer(3));
    assert_eq!(read(&vm, 3), Value::Integer(4));
    assert_eq!(read(&vm, 4), Value::Integer(2));
}

#[test]
fn check_stack_bound() {
    let vm = stack_of(&[1]);
    assert!(vm.check_stack(10));
    assert!(!vm.check_stack(1000000));
}

#[test]
fn type_queries() {
    let mut vm = Vm::new();
    vm.push_raw(Value::Integer(5));
    vm.push_raw(Value::Boolean(false));
    vm.push_raw(Value::Table(3));
    vm.push_raw(Value::Native(1));
    assert!(vm.is_integer(LuaIndex::Stack(1)));
    assert!(vm.is_number(LuaIndex::Stack(1)));
    assert!(!vm.is_string(LuaIndex::Stack(1)));
    assert!(vm.is_boolean(LuaIndex::Stack(2)));
    assert!(vm.is_table(LuaIndex::Stack(3)));
    assert!(vm.is_function(LuaIndex::Stack(4)));
    assert!(vm.is_native_function(LuaIndex::Stack(4)));
    assert!(vm.is_none(LuaIndex::Stack(9)));
    assert!(vm.is_none_or_nil(LuaIndex::Stack(9)));
    assert!(!vm.is_nil(LuaIndex::Stack(1)));
    assert_eq!(
        vm.type_at(LuaIndex::Stack(1)),
        Some(lowlua::LuaType::Number)
    );
    assert_eq!(vm.type_at(LuaIndex::Stack(99)), None);
}
