//! A typed binding layer over an embeddable scripting-language virtual
//! machine with a stack-based calling convention.
//!
//! The crate is organised around a verified core. The core owns the data
//! model of the binding: the native type and operator enumerations, the
//! stack addressing modes, the error taxonomy, the value-marshalling
//! contracts, and an executable model of the VM-visible state (the value
//! stack, the interned-string table and the userdata metatable cache)
//! on which the stack discipline of the calling convention is stated and
//! proved. A thin foreign-function shell can mirror each model operation
//! one-to-one against a real VM instance; every decision that shell has
//! to make is a verified function of this crate.

use vstd::prelude::*;

pub mod backtrace;
pub mod codes;
pub mod convert;
pub mod numeral;
pub mod protocol;
pub mod vm;

verus! {

/// Enum of native Lua types.
#[derive(Debug, PartialEq, Eq, Structural)]
pub enum LuaType {
    Nil,
    Boolean,
    Number,
    String,
    Function,
    LightUserdata,
    Userdata,
    Thread,
    Table,
}

/// Enum of Lua arithmetic operations.
pub enum LuaOperator {
    /// Addition (+)
    Add,
    /// Subtraction (-)
    Sub,
    /// Multiplication (*)
    Mul,
    /// Float division (/)
    Div,
    /// Floor division (//)
    IDiv,
    /// Modulo (%)
    Mod,
    /// Exponentiation (^)
    Pow,
    /// Mathematical negation (unary -)
    Unm,
    /// Bitwise NOT (~)
    BNot,
    /// Bitwise AND (&)
    BAnd,
    /// Bitwise OR (|)
    BOr,
    /// Bitwise exclusive OR (~)
    BXor,
    /// Left shift (<<)
    Shl,
    /// Right shift (>>)
    Shr,
}

/// Number of results requested from a call: `MultRet` is unbounded, while
/// `Num` adjusts the results left on the stack to exactly its value.
pub enum LuaCallResults {
    Num(u32),
    MultRet,
}

/// The Lua indexing modes accepted by functions with multiple indexing modes:
/// a signed stack offset (1-based from the bottom, negative from the top),
/// an upvalue of the running native closure, or the registry sentinel.
#[derive(Copy, Clone)]
pub enum LuaIndex {
    Stack(i32),
    Upvalue(u32),
    Registry,
}

impl LuaIndex {
    /// Convert the index to a stack index. Only a stack index may be passed.
    pub fn to_stack(&self) -> (r: i32)
        requires
            self is Stack,
        ensures
            *self == LuaIndex::Stack(r),
    {
        match *self {
            LuaIndex::Stack(val) => val,
            _ => unreached(),
        }
    }

    /// The raw index the C calling interface understands: a stack offset is
    /// passed through, an upvalue is encoded relative to the registry
    /// pseudo-index (skipping the first upvalue slot, which the closure
    /// trampoline reserves for itself), and the registry mode is the
    /// registry pseudo-index itself.
    pub fn to_ffi(&self) -> (r: i32)
        requires
            self matches LuaIndex::Upvalue(val) ==> val <= 254,
        ensures
            self matches LuaIndex::Stack(val) ==> r == val,
            self matches LuaIndex::Upvalue(val) ==> r == crate::codes::LUA_REGISTRYINDEX - (val
                + 1),
            self is Registry ==> r == crate::codes::LUA_REGISTRYINDEX,
    {
        match *self {
            LuaIndex::Stack(val) => val,
            LuaIndex::Upvalue(val) => crate::codes::LUA_REGISTRYINDEX - (val as i32 + 1),
            LuaIndex::Registry => crate::codes::LUA_REGISTRYINDEX,
        }
    }
}

/// The absolute position a relative stack offset resolves to on a stack of
/// height `top`: a positive offset or a pseudo-index stands for itself, a
/// non-positive one counts down from the top.
pub open spec fn abs_index_spec(top: int, val: int) -> int {
    if val > 0 || val <= crate::codes::LUA_REGISTRYINDEX {
        val
    } else {
        top + val + 1
    }
}

/// Convert an acceptable index into an equivalent absolute index, one that
/// does not depend on the stack top. Upvalue and registry modes are already
/// absolute and pass through unchanged.
pub fn abs_index_of(top: i32, idx: LuaIndex) -> (r: LuaIndex)
    requires
        0 <= top <= crate::codes::LUAI_MAXSTACK,
        idx matches LuaIndex::Stack(val) ==> crate::codes::LUA_REGISTRYINDEX <= val,
    ensures
        idx matches LuaIndex::Stack(val) ==> r == LuaIndex::Stack(
            abs_index_spec(top as int, val as int) as i32,
        ),
        !(idx is Stack) ==> r == idx,
{
    match idx {
        LuaIndex::Stack(val) => {
            if val > 0 || val <= crate::codes::LUA_REGISTRYINDEX {
                LuaIndex::Stack(val)
            } else {
                LuaIndex::Stack(top + val + 1)
            }
        },
        _ => idx,
    }
}

/// Resolving a relative offset to an absolute position is idempotent: once
/// an offset has been made absolute, resolving it again on any stack leaves
/// it unchanged.
pub proof fn lemma_abs_index_idempotent(top: int, later_top: int, val: int)
    requires
        1 <= abs_index_spec(top, val) || abs_index_spec(top, val) <= crate::codes::LUA_REGISTRYINDEX,
    ensures
        abs_index_spec(later_top, abs_index_spec(top, val)) == abs_index_spec(top, val),
{
}

/// An interned Lua string. Guaranteed not to be garbage collected, as a
/// reference to the string is permanently retained in the registry of the
/// owning VM instance.
#[derive(Copy, Clone, Eq, PartialEq, Hash, Structural)]
pub struct LuaString(pub(crate) usize);

impl LuaString {
    /// The identity of the retained string object the handle stands for.
    pub closed spec fn id(&self) -> int {
        self.0 as int
    }

    /// The raw identity, for a shell that keys its retained strings by the
    /// VM's own string identity.
    pub fn raw(&self) -> (r: usize)
        ensures
            r as int == self.id(),
    {
        self.0
    }

    /// Rebuild a handle from a raw identity previously obtained from the
    /// owning instance. A handle is only meaningful on the instance whose
    /// identity it carries.
    pub fn from_raw(id: usize) -> (r: LuaString)
        ensures
            r.id() == id as int,
    {
        LuaString(id)
    }
}

/// A result which may return a Lua load-time error.
pub type LoadResult<T> = Result<T, LoadError>;

/// Describes a Lua load-time error.
#[derive(Debug)]
pub enum LoadError {
    /// An IO error occurred; the payload describes it.
    Io(String),
    /// A UTF-8 conversion error occurred; the payload describes it.
    Utf8(String),
    /// A syntax error occurred.
    Syntax(String),
}

impl LoadError {
    /// The human-readable description of the error.
    pub fn message(&self) -> (r: &String)
        ensures
            *self == LoadError::Io(*r) || *self == LoadError::Utf8(*r) || *self
                == LoadError::Syntax(*r),
    {
        match self {
            LoadError::Io(msg) => msg,
            LoadError::Utf8(msg) => msg,
            LoadError::Syntax(msg) => msg,
        }
    }
}

/// A result which may return a Lua runtime error.
pub type RunResult<T> = Result<T, RunError>;

/// Describes a Lua run-time error: a message together with the call-stack
/// backtrace captured at the moment of failure, innermost frame first.
#[derive(Debug)]
pub struct RunError {
    pub message: String,
    pub backtrace: Vec<String>,
}

/// The variant name of a native Lua type, as its debug formatting prints it.
pub open spec fn lua_type_name_spec(ty: LuaType) -> Seq<char> {
    match ty {
        LuaType::Nil => "Nil"@,
        LuaType::Boolean => "Boolean"@,
        LuaType::Number => "Number"@,
        LuaType::String => "String"@,
        LuaType::Function => "Function"@,
        LuaType::LightUserdata => "LightUserdata"@,
        LuaType::Userdata => "Userdata"@,
        LuaType::Thread => "Thread"@,
        LuaType::Table => "Table"@,
    }
}

impl LuaType {
    /// The variant name, used when a type appears in an error message.
    pub fn name(&self) -> (r: &'static str)
        ensures
            r@ == lua_type_name_spec(*self),
    {
        match *self {
            LuaType::Nil => "Nil",
            LuaType::Boolean => "Boolean",
            LuaType::Number => "Number",
            LuaType::String => "String",
            LuaType::Function => "Function",
            LuaType::LightUserdata => "LightUserdata",
            LuaType::Userdata => "Userdata",
            LuaType::Thread => "Thread",
            LuaType::Table => "Table",
        }
    }
}

/// The message of a conversion error from a Lua value to a host value:
/// either the two type names, or a complaint about an invalid index when
/// the Lua-side type could not be determined.
pub open spec fn conversion_from_lua_message(
    src_type: Option<LuaType>,
    dst_type: Seq<char>,
) -> Seq<char> {
    match src_type {
        Some(ty) => "invalid conversion from Lua type `"@ + lua_type_name_spec(ty)
            + "` to Rust type `"@ + dst_type + "`"@,
        None => "invalid index"@,
    }
}

/// The message of a conversion error from a host value to a Lua value.
pub open spec fn conversion_to_lua_message(src_type: Seq<char>, dst_type: LuaType) -> Seq<char> {
    "invalid conversion from Rust type `"@ + src_type + "` to Lua type `"@ + lua_type_name_spec(
        dst_type,
    ) + "`"@
}

impl RunError {
    /// Generate an error with the given message and backtrace.
    pub fn new(message: String, backtrace: Vec<String>) -> (r: RunError)
        ensures
            r.message == message,
            r.backtrace == backtrace,
    {
        RunError { message, backtrace }
    }

    /// Generate a type conversion error message (Lua -> Rust).
    pub fn conversion_from_lua(
        src_type: Option<LuaType>,
        dst_type: &'static str,
        backtrace: Vec<String>,
    ) -> (r: RunError)
        ensures
            r.message@ == conversion_from_lua_message(src_type, dst_type@),
            r.backtrace == backtrace,
    {
        let message = match src_type {
            Some(ty) => {
                let mut msg = String::from_str("invalid conversion from Lua type `");
                msg.append(ty.name());
                msg.append("` to Rust type `");
                msg.append(dst_type);
                msg.append("`");
                msg
            },
            None => String::from_str("invalid index"),
        };
        RunError { message, backtrace }
    }

    /// Generate a type conversion error message (Rust -> Lua).
    pub fn conversion_to_lua(
        src_type: &'static str,
        dst_type: LuaType,
        backtrace: Vec<String>,
    ) -> (r: RunError)
        ensures
            r.message@ == conversion_to_lua_message(src_type@, dst_type),
            r.backtrace == backtrace,
    {
        let mut msg = String::from_str("invalid conversion from Rust type `");
        msg.append(src_type);
        msg.append("` to Lua type `");
        msg.append(dst_type.name());
        msg.append("`");
        RunError { message: msg, backtrace }
    }
}

} // verus!
