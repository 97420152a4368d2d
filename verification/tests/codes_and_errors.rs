use lowlua::codes;
use lowlua::{abs_index_of, LoadError, LuaIndex, LuaOperator, LuaType, RunError};

#[test]
fn type_codes_translate() {
    assert_eq!(codes::lua_to_rust_type(codes::LUA_TNIL), LuaType::Nil);
    assert_eq!(codes::lua_to_rust_type(codes::LUA_TBOOLEAN), LuaType::Boolean);
    assert_eq!(
        codes::lua_to_rust_type(codes::LUA_TLIGHTUSERDATA),
        LuaType::LightUserdata
    );
    assert_eq!(codes::lua_to_rust_type(codes::LUA_TNUMBER), LuaType::Number);
    assert_eq!(codes::lua_to_rust_type(codes::LUA_TSTRING), LuaType::String);
    assert_eq!(codes::lua_to_rust_type(codes::LUA_TTABLE), LuaType::Table);
    assert_eq!(
        codes::lua_to_rust_type(codes::LUA_TFUNCTION),
        LuaType::Function
    );
    assert_eq!(
        codes::lua_to_rust_type(codes::LUA_TUSERDATA),
        LuaType::Userdata
    );
    assert_eq!(codes::lua_to_rust_type(codes::LUA_TTHREAD), LuaType::Thread);
}

#[test]
fn type_codes_checked_none() {
    assert_eq!(codes::lua_to_rust_type_checked(codes::LUA_TNONE), None);
    assert_eq!(
        codes::lua_to_rust_type_checked(codes::LUA_TSTRING),
        Some(LuaType::String)
    );
}

#[test]
fn operator_codes() {
    assert_eq!(codes::rust_to_lua_op(LuaOperator::Add), 0);
    assert_eq!(codes::rust_to_lua_op(LuaOperator::Sub), 1);
    assert_eq!(codes::rust_to_lua_op(LuaOperator::Mul), 2);
    assert_eq!(codes::rust_to_lua_op(LuaOperator::Mod), 3);
    assert_eq!(codes::rust_to_lua_op(LuaOperator::Pow), 4);
    assert_eq!(codes::rust_to_lua_op(LuaOperator::Div), 5);
    assert_eq!(codes::rust_to_lua_op(LuaOperator::IDiv), 6);
    assert_eq!(codes::rust_to_lua_op(LuaOperator::BAnd), 7);
    assert_eq!(codes::rust_to_lua_op(LuaOperator::BOr), 8);
    assert_eq!(codes::rust_to_lua_op(LuaOperator::BXor), 9);
    assert_eq!(codes::rust_to_lua_op(LuaOperator::Shl), 10);
    assert_eq!(codes::rust_to_lua_op(LuaOperator::Shr), 11);
    assert_eq!(codes::rust_to_lua_op(LuaOperator::Unm), 12);
    assert_eq!(codes::rust_to_lua_op(LuaOperator::BNot), 13);
}

#[test]
fn load_result_decodes() {
    assert!(codes::lua_to_rust_load_result(codes::LUA_OK, String::new()).is_ok());
    let err = codes::lua_to_rust_load_result(
        codes::LUA_ERRSYNTAX,
        "unexpected symbol near 'end'".to_string(),
    );
    match err {
        Err(LoadError::Syntax(msg)) => {
            assert_eq!(msg, "unexpected symbol near 'end'");
        }
        _ => panic!("expected a syntax error"),
    }
}

#[test]
fn load_error_message() {
    let e = LoadError::Io("file not found".to_string());
    assert_eq!(e.message().as_str(), "file not found");
    let e = LoadError::Utf8("invalid byte".to_string());
    assert_eq!(e.message().as_str(), "invalid byte");
    let e = LoadError::Syntax("bad token".to_string());
    assert_eq!(e.message().as_str(), "bad token");
}

#[test]
fn index_to_stack() {
    assert_eq!(LuaIndex::Stack(3).to_stack(), 3);
    assert_eq!(LuaIndex::Stack(-1).to_stack(), -1);
}

#[test]
fn index_to_ffi_encoding() {
    assert_eq!(LuaIndex::Stack(5).to_ffi(), 5);
    assert_eq!(LuaIndex::Registry.to_ffi(), codes::LUA_REGISTRYINDEX);
    // The first upvalue slot is reserved for the trampoline, so upvalue 0
    // maps to the second raw slot.
    assert_eq!(LuaIndex::Upvalue(0).to_ffi(), codes::LUA_REGISTRYINDEX - 1);
    assert_eq!(LuaIndex::Upvalue(3).to_ffi(), codes::LUA_REGISTRYINDEX - 4);
}

#[test]
fn abs_index_resolution() {
    // On a stack of height 4, -1 is the top and 1 the bottom.
    match abs_index_of(4, LuaIndex::Stack(-1)) {
        LuaIndex::Stack(v) => assert_eq!(v, 4),
        _ => panic!("expected a stack index"),
    }
    match abs_index_of(4, LuaIndex::Stack(2)) {
        LuaIndex::Stack(v) => assert_eq!(v, 2),
        _ => panic!("expected a stack index"),
    }
    match abs_index_of(4, LuaIndex::Stack(-4)) {
        LuaIndex::Stack(v) => assert_eq!(v, 1),
        _ => panic!("expected a stack index"),
    }
    // Resolving an already absolute index changes nothing, whatever the
    // height now is.
    match abs_index_of(9, LuaIndex::Stack(4)) {
        LuaIndex::Stack(v) => assert_eq!(v, 4),
        _ => panic!("expected a stack index"),
    }
    // Non-stack modes pass through untouched.
    assert!(matches!(
        abs_index_of(4, LuaIndex::Registry),
        LuaIndex::Registry
    ));
}

#[test]
fn run_error_new_keeps_fields() {
    let e = RunError::new(
        "boom".to_string(),
        vec!["a:1 in [main]".to_string(), "b:2 in [native]".to_string()],
    );
    assert_eq!(e.message, "boom");
    assert_eq!(e.backtrace.len(), 2);
    assert_eq!(e.backtrace[0], "a:1 in [main]");
}

#[test]
fn conversion_from_lua_messages() {
    let e = RunError::conversion_from_lua(Some(LuaType::Boolean), "u8", Vec::new());
    assert_eq!(
        e.message,
        "invalid conversion from Lua type `Boolean` to Rust type `u8`"
    );
    assert!(e.backtrace.is_empty());

    let e = RunError::conversion_from_lua(None, "u8", Vec::new());
    assert_eq!(e.message, "invalid index");

    let e = RunError::conversion_from_lua(Some(LuaType::LightUserdata), "String", Vec::new());
    assert_eq!(
        e.message,
        "invalid conversion from Lua type `LightUserdata` to Rust type `String`"
    );
}

#[test]
fn conversion_to_lua_message() {
    let e = RunError::conversion_to_lua("f32", LuaType::Number, Vec::new());
    assert_eq!(
        e.message,
        "invalid conversion from Rust type `f32` to Lua type `Number`"
    );
}

#[test]
fn lua_type_names() {
    assert_eq!(LuaType::Nil.name(), "Nil");
    assert_eq!(LuaType::Thread.name(), "Thread");
    assert_eq!(LuaType::LightUserdata.name(), "LightUserdata");
}
