//! The numeric codes of the VM's C calling interface: status codes returned
//! by load and protected-call primitives, type tags, arithmetic operator
//! selectors, and the fixed pseudo-index layout of the stack addressing
//! scheme. The translation functions between these raw codes and the typed
//! enumerations of the crate live here, so that the foreign-function shell
//! never interprets a code itself.

use vstd::prelude::*;

verus! {

use crate::{LuaOperator, LuaType};

/// Status: the call or load completed without error.
pub const LUA_OK: i32 = 0;

/// Status: a run-time error was raised.
pub const LUA_ERRRUN: i32 = 2;

/// Status: loading failed with a syntax error.
pub const LUA_ERRSYNTAX: i32 = 3;

/// Status: the VM ran out of memory.
pub const LUA_ERRMEM: i32 = 4;

/// Status: an error was raised while running a finalizer.
pub const LUA_ERRGCMM: i32 = 5;

/// Status: an error was raised while running the error handler.
pub const LUA_ERRERR: i32 = 6;

/// Result count requesting all results of a call.
pub const LUA_MULTRET: i32 = -1;

/// The largest number of slots a stack may grow to.
pub const LUAI_MAXSTACK: i32 = 1000000;

/// The pseudo-index addressing the VM's registry table.
pub const LUA_REGISTRYINDEX: i32 = -1001000;

/// Type tag of an empty (non-valid) stack position.
pub const LUA_TNONE: i32 = -1;

/// Type tag of `nil`.
pub const LUA_TNIL: i32 = 0;

/// Type tag of a boolean.
pub const LUA_TBOOLEAN: i32 = 1;

/// Type tag of a light userdata.
pub const LUA_TLIGHTUSERDATA: i32 = 2;

/// Type tag of a number.
pub const LUA_TNUMBER: i32 = 3;

/// Type tag of a string.
pub const LUA_TSTRING: i32 = 4;

/// Type tag of a table.
pub const LUA_TTABLE: i32 = 5;

/// Type tag of a function.
pub const LUA_TFUNCTION: i32 = 6;

/// Type tag of a full userdata.
pub const LUA_TUSERDATA: i32 = 7;

/// Type tag of a coroutine thread.
pub const LUA_TTHREAD: i32 = 8;

/// Operator selector for addition.
pub const LUA_OPADD: i32 = 0;

/// Operator selector for subtraction.
pub const LUA_OPSUB: i32 = 1;

/// Operator selector for multiplication.
pub const LUA_OPMUL: i32 = 2;

/// Operator selector for modulo.
pub const LUA_OPMOD: i32 = 3;

/// Operator selector for exponentiation.
pub const LUA_OPPOW: i32 = 4;

/// Operator selector for float division.
pub const LUA_OPDIV: i32 = 5;

/// Operator selector for floor division.
pub const LUA_OPIDIV: i32 = 6;

/// Operator selector for bitwise AND.
pub const LUA_OPBAND: i32 = 7;

/// Operator selector for bitwise OR.
pub const LUA_OPBOR: i32 = 8;

/// Operator selector for bitwise exclusive OR.
pub const LUA_OPBXOR: i32 = 9;

/// Operator selector for left shift.
pub const LUA_OPSHL: i32 = 10;

/// Operator selector for right shift.
pub const LUA_OPSHR: i32 = 11;

/// Operator selector for mathematical negation.
pub const LUA_OPUNM: i32 = 12;

/// Operator selector for bitwise NOT.
pub const LUA_OPBNOT: i32 = 13;

/// The operator selector the C interface assigns to each operator.
pub open spec fn lua_op_code_spec(op: LuaOperator) -> i32 {
    match op {
        LuaOperator::Add => LUA_OPADD,
        LuaOperator::Sub => LUA_OPSUB,
        LuaOperator::Mul => LUA_OPMUL,
        LuaOperator::Div => LUA_OPDIV,
        LuaOperator::IDiv => LUA_OPIDIV,
        LuaOperator::Mod => LUA_OPMOD,
        LuaOperator::Pow => LUA_OPPOW,
        LuaOperator::Unm => LUA_OPUNM,
        LuaOperator::BNot => LUA_OPBNOT,
        LuaOperator::BAnd => LUA_OPBAND,
        LuaOperator::BOr => LUA_OPBOR,
        LuaOperator::BXor => LUA_OPBXOR,
        LuaOperator::Shl => LUA_OPSHL,
        LuaOperator::Shr => LUA_OPSHR,
    }
}

/// Translate an operator of the typed enumeration to its C-interface
/// selector.
pub fn rust_to_lua_op(op: LuaOperator) -> (r: i32)
    ensures
        r == lua_op_code_spec(op),
{
    match op {
        LuaOperator::Add => LUA_OPADD,
        LuaOperator::Sub => LUA_OPSUB,
        LuaOperator::Mul => LUA_OPMUL,
        LuaOperator::Div => LUA_OPDIV,
        LuaOperator::IDiv => LUA_OPIDIV,
        LuaOperator::Mod => LUA_OPMOD,
        LuaOperator::Pow => LUA_OPPOW,
        LuaOperator::Unm => LUA_OPUNM,
        LuaOperator::BNot => LUA_OPBNOT,
        LuaOperator::BAnd => LUA_OPBAND,
        LuaOperator::BOr => LUA_OPBOR,
        LuaOperator::BXor => LUA_OPBXOR,
        LuaOperator::Shl => LUA_OPSHL,
        LuaOperator::Shr => LUA_OPSHR,
    }
}

/// True of the type tags that name an actual value type.
pub open spec fn is_lua_type_code(code: i32) -> bool {
    LUA_TNIL <= code <= LUA_TTHREAD
}

/// The typed enumeration variant for each value type tag.
pub open spec fn lua_type_of_code_spec(code: i32) -> LuaType
    recommends
        is_lua_type_code(code),
{
    if code == LUA_TNIL {
        LuaType::Nil
    } else if code == LUA_TBOOLEAN {
        LuaType::Boolean
    } else if code == LUA_TLIGHTUSERDATA {
        LuaType::LightUserdata
    } else if code == LUA_TNUMBER {
        LuaType::Number
    } else if code == LUA_TSTRING {
        LuaType::String
    } else if code == LUA_TTABLE {
        LuaType::Table
    } else if code == LUA_TFUNCTION {
        LuaType::Function
    } else if code == LUA_TUSERDATA {
        LuaType::Userdata
    } else {
        LuaType::Thread
    }
}

/// Translate a raw type tag to the typed enumeration. Only the tags of
/// actual value types may be passed.
pub fn lua_to_rust_type(typ: i32) -> (r: LuaType)
    requires
        is_lua_type_code(typ),
    ensures
        r == lua_type_of_code_spec(typ),
{
    if typ == LUA_TNIL {
        LuaType::Nil
    } else if typ == LUA_TBOOLEAN {
        LuaType::Boolean
    } else if typ == LUA_TLIGHTUSERDATA {
        LuaType::LightUserdata
    } else if typ == LUA_TNUMBER {
        LuaType::Number
    } else if typ == LUA_TSTRING {
        LuaType::String
    } else if typ == LUA_TTABLE {
        LuaType::Table
    } else if typ == LUA_TFUNCTION {
        LuaType::Function
    } else if typ == LUA_TUSERDATA {
        LuaType::Userdata
    } else {
        LuaType::Thread
    }
}

/// Translate a raw type tag to the typed enumeration, where the tag of a
/// non-valid position yields `None`.
pub fn lua_to_rust_type_checked(typ: i32) -> (r: Option<LuaType>)
    requires
        typ == LUA_TNONE || is_lua_type_code(typ),
    ensures
        typ == LUA_TNONE ==> r is None,
        is_lua_type_code(typ) ==> r == Some(lua_type_of_code_spec(typ)),
{
    if typ == LUA_TNONE {
        None
    } else {
        Some(lua_to_rust_type(typ))
    }
}

/// Interpret the status a load primitive returned. A status reporting
/// memory exhaustion or a failing error handler is a fatal condition and
/// may not be passed; the caller aborts on it instead, since the VM has no
/// reliable state left to represent it.
pub fn lua_to_rust_load_result(result: i32, syntax_message: String) -> (r: crate::LoadResult<()>)
    requires
        result == LUA_OK || result == LUA_ERRSYNTAX,
    ensures
        result == LUA_OK ==> r == Ok::<(), crate::LoadError>(()),
        result == LUA_ERRSYNTAX ==> r == Err::<(), crate::LoadError>(
            crate::LoadError::Syntax(syntax_message),
        ),
{
    if result == LUA_OK {
        Ok(())
    } else {
        Err(crate::LoadError::Syntax(syntax_message))
    }
}

} // verus!
