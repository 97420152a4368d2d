//! The value-marshalling interface: how host values cross the boundary
//! into VM values and back.
//!
//! `ToLua` pushes a host value as exactly one new VM value on top of the
//! stack. `FromLua` reads the value at a stack position into a host value
//! without any net change to the stack occupancy, reporting a typed
//! conversion error — naming the host type wanted and the VM type found —
//! where the position holds no suitable value. The reads keep the
//! coercions of the C interface: an integer read accepts an integer
//! numeral written as a string, and a string read accepts a number, whose
//! rendering replaces the value in its slot. Integer reads are
//! range-checked against the VM's native integer representation and error
//! on overflow rather than silently truncating; the unsigned widths of the
//! full native size wrap through the (signed) native integer, losslessly
//! in both directions, since the VM has no unsigned representation.
//!
//! One residue is outside the model: a float-represented number. The
//! crate refuses floating point, so a read that would render or convert
//! such a value reports a conversion error here, while the shell obtains
//! the rendering or conversion from the VM itself.

use vstd::prelude::*;

verus! {

use crate::backtrace::int_dec;
use crate::codes::LUAI_MAXSTACK;
use crate::numeral::str2int_spec;
use crate::vm::{resolve_spec, Value, Vm};
use crate::{LuaIndex, LuaString, RunError, RunResult};

/// True when `r` is the typed conversion error that a failed read at `idx`
/// into host type `dst` reports: the message names the VM-side type found
/// (when determinable) and the host type wanted. The model instance has no
/// activation records, so the backtrace captured at the failure is empty
/// here; on a real instance the capture walks the live frames.
pub open spec fn is_conversion_error<T>(vm: Vm, idx: LuaIndex, dst: Seq<char>, r: RunResult<
    T,
>) -> bool {
    &&& r matches Err(e)
    &&& e.message@ == crate::conversion_from_lua_message(vm.type_at_spec(idx), dst)
    &&& e.backtrace@.len() == 0
}

/// The integer a stack value reads as: an integer-represented number
/// itself, or the integer numeral a retained string holds. A
/// float-represented number stays unconverted here (the model's named
/// residue); the shell converts it through the VM.
pub open spec fn integer_of_value(v: Option<Value>, strings: Seq<Seq<char>>) -> Option<i64> {
    match v {
        Some(Value::Integer(n)) => Some(n),
        Some(Value::Str(id)) => str2int_spec(strings[id as int]),
        _ => None,
    }
}

/// A conversion of a host value into a VM value.
///
/// A push leaves exactly one new value on the top of the stack and touches
/// nothing below it; pushing a string may intern its content, so the string
/// pool can grow, but already retained objects are never disturbed.
pub trait ToLua {
    /// When the value can be pushed on this instance (a retained-string
    /// handle, for example, must belong to the instance).
    spec fn to_lua_ok(&self, vm: Vm) -> bool;

    /// How the value left on top relates to the host value, in the state
    /// after the push.
    spec fn pushed(&self, vm: Vm, v: Value) -> bool;

    /// Push the value as exactly one new VM value on top of the stack.
    fn to_lua(&self, vm: &mut Vm)
        requires
            old(vm).wf(),
            old(vm).stack_view().len() < LUAI_MAXSTACK as nat,
            self.to_lua_ok(*old(vm)),
        ensures
            final(vm).wf(),
            final(vm).stack_view().len() == old(vm).stack_view().len() + 1,
            final(vm).stack_view().take(old(vm).stack_view().len() as int) == old(vm).stack_view(),
            self.pushed(*final(vm), final(vm).stack_view().last()),
            old(vm).strings_view().len() <= final(vm).strings_view().len(),
            forall|i: int|
                0 <= i < old(vm).strings_view().len() ==> #[trigger] final(vm).strings_view()[i]
                    == old(vm).strings_view()[i],
            final(vm).userdata_view() == old(vm).userdata_view(),
            final(vm).metatables_view() == old(vm).metatables_view(),
    ;
}

/// A conversion of a VM value on the stack into a host value.
///
/// A read never changes the stack occupancy and does not remove the value
/// it reads; a string read of a number replaces that one slot with the
/// rendered string, as the C read does, and only the string pool may grow.
pub trait FromLua: Sized {
    /// The exact relation between the state at the read, the stack and
    /// string pool after it, the position read and the result: which
    /// values convert, to what, which slot (if any) is coerced in place,
    /// and which conversion error every other value reports.
    spec fn from_lua_post(
        pre: Vm,
        post_stack: Seq<Value>,
        post_strings: Seq<Seq<char>>,
        idx: LuaIndex,
        r: RunResult<Self>,
    ) -> bool;

    /// Read the value at `idx` into a host value.
    fn from_lua(vm: &mut Vm, idx: LuaIndex) -> (r: RunResult<Self>)
        requires
            old(vm).wf(),
            idx is Stack,
        ensures
            final(vm).wf(),
            final(vm).stack_view().len() == old(vm).stack_view().len(),
            Self::from_lua_post(
                *old(vm),
                final(vm).stack_view(),
                final(vm).strings_view(),
                idx,
                r,
            ),
            old(vm).strings_view().len() <= final(vm).strings_view().len(),
            forall|i: int|
                0 <= i < old(vm).strings_view().len() ==> #[trigger] final(vm).strings_view()[i]
                    == old(vm).strings_view()[i],
            final(vm).userdata_view() == old(vm).userdata_view(),
            final(vm).metatables_view() == old(vm).metatables_view(),
    ;
}

impl Vm {
    /// Push a host value on the top of the stack.
    pub fn push<T: ToLua>(&mut self, val: T)
        requires
            old(self).wf(),
            old(self).stack_view().len() < LUAI_MAXSTACK as nat,
            val.to_lua_ok(*old(self)),
        ensures
            final(self).wf(),
            final(self).stack_view().len() == old(self).stack_view().len() + 1,
            final(self).stack_view().take(old(self).stack_view().len() as int) == old(
                self,
            ).stack_view(),
            val.pushed(*final(self), final(self).stack_view().last()),
            old(self).strings_view().len() <= final(self).strings_view().len(),
            forall|i: int|
                0 <= i < old(self).strings_view().len() ==> #[trigger] final(self).strings_view()[i]
                    == old(self).strings_view()[i],
            final(self).userdata_view() == old(self).userdata_view(),
            final(self).metatables_view() == old(self).metatables_view(),
    {
        val.to_lua(self);
    }

    /// Read a host value from a place on the stack. The read saves the
    /// top first and restores it afterwards, so whatever the outcome the
    /// stack occupancy is exactly what it was before the call.
    pub fn at<T: FromLua>(&mut self, idx: LuaIndex) -> (r: RunResult<T>)
        requires
            old(self).wf(),
            idx is Stack,
        ensures
            final(self).wf(),
            final(self).stack_view().len() == old(self).stack_view().len(),
            T::from_lua_post(
                *old(self),
                final(self).stack_view(),
                final(self).strings_view(),
                idx,
                r,
            ),
            old(self).strings_view().len() <= final(self).strings_view().len(),
            forall|i: int|
                0 <= i < old(self).strings_view().len() ==> #[trigger] final(self).strings_view()[i]
                    == old(self).strings_view()[i],
            final(self).userdata_view() == old(self).userdata_view(),
            final(self).metatables_view() == old(self).metatables_view(),
    {
        let top = self.get_top();
        let r = T::from_lua(self, idx);
        let ghost mid = *self;
        self.set_top(top);
        proof {
            assert(self.stack_view() =~= mid.stack_view());
        }
        r
    }

    /// The integer the value at `idx` reads as, converting an integer
    /// numeral held by a string; `None` where no integer can be had.
    fn read_integer(&self, idx: LuaIndex) -> (r: Option<i64>)
        requires
            self.wf(),
            idx is Stack,
        ensures
            r == integer_of_value(self.value_at_opt(idx), self.strings_view()),
    {
        match self.value_at_offset(idx.to_stack()) {
            Some(Value::Integer(n)) => Some(n),
            Some(Value::Str(id)) => {
                proof {
                    let q = resolve_spec(self.stack_view().len(), idx->Stack_0 as int);
                    assert(self.value_wf(self.stack_view()[q]));
                }
                crate::numeral::str_to_integer(self.handle_content(&LuaString(id)).as_str())
            },
            _ => None,
        }
    }
}

impl ToLua for u8 {
    open spec fn to_lua_ok(&self, vm: Vm) -> bool {
        true
    }

    open spec fn pushed(&self, vm: Vm, v: Value) -> bool {
        v == Value::Integer(*self as i64)
    }

    fn to_lua(&self, vm: &mut Vm) {
        vm.push_raw(Value::Integer(*self as i64));
    }
}

impl ToLua for u16 {
    open spec fn to_lua_ok(&self, vm: Vm) -> bool {
        true
    }

    open spec fn pushed(&self, vm: Vm, v: Value) -> bool {
        v == Value::Integer(*self as i64)
    }

    fn to_lua(&self, vm: &mut Vm) {
        vm.push_raw(Value::Integer(*self as i64));
    }
}

impl ToLua for u32 {
    open spec fn to_lua_ok(&self, vm: Vm) -> bool {
        true
    }

    open spec fn pushed(&self, vm: Vm, v: Value) -> bool {
        v == Value::Integer(*self as i64)
    }

    fn to_lua(&self, vm: &mut Vm) {
        vm.push_raw(Value::Integer(*self as i64));
    }
}

impl ToLua for u64 {
    open spec fn to_lua_ok(&self, vm: Vm) -> bool {
        true
    }

    open spec fn pushed(&self, vm: Vm, v: Value) -> bool {
        v == Value::Integer(*self as i64)
    }

    fn to_lua(&self, vm: &mut Vm) {
        #[verifier::truncate]
        let n = *self as i64;
        vm.push_raw(Value::Integer(n));
    }
}

impl ToLua for usize {
    open spec fn to_lua_ok(&self, vm: Vm) -> bool {
        true
    }

    open spec fn pushed(&self, vm: Vm, v: Value) -> bool {
        v == Value::Integer(*self as u64 as i64)
    }

    fn to_lua(&self, vm: &mut Vm) {
        #[verifier::truncate]
        let n = (*self as u64) as i64;
        vm.push_raw(Value::Integer(n));
    }
}

impl ToLua for i8 {
    open spec fn to_lua_ok(&self, vm: Vm) -> bool {
        true
    }

    open spec fn pushed(&self, vm: Vm, v: Value) -> bool {
        v == Value::Integer(*self as i64)
    }

    fn to_lua(&self, vm: &mut Vm) {
        vm.push_raw(Value::Integer(*self as i64));
    }
}

impl ToLua for i16 {
    open spec fn to_lua_ok(&self, vm: Vm) -> bool {
        true
    }

    open spec fn pushed(&self, vm: Vm, v: Value) -> bool {
        v == Value::Integer(*self as i64)
    }

    fn to_lua(&self, vm: &mut Vm) {
        vm.push_raw(Value::Integer(*self as i64));
    }
}

impl ToLua for i32 {
    open spec fn to_lua_ok(&self, vm: Vm) -> bool {
        true
    }

    open spec fn pushed(&self, vm: Vm, v: Value) -> bool {
        v == Value::Integer(*self as i64)
    }

    fn to_lua(&self, vm: &mut Vm) {
        vm.push_raw(Value::Integer(*self as i64));
    }
}

impl ToLua for i64 {
    open spec fn to_lua_ok(&self, vm: Vm) -> bool {
        true
    }

    open spec fn pushed(&self, vm: Vm, v: Value) -> bool {
        v == Value::Integer(*self)
    }

    fn to_lua(&self, vm: &mut Vm) {
        vm.push_raw(Value::Integer(*self));
    }
}

impl ToLua for isize {
    open spec fn to_lua_ok(&self, vm: Vm) -> bool {
        true
    }

    open spec fn pushed(&self, vm: Vm, v: Value) -> bool {
        v == Value::Integer(*self as i64)
    }

    fn to_lua(&self, vm: &mut Vm) {
        vm.push_raw(Value::Integer(*self as i64));
    }
}

impl ToLua for bool {
    open spec fn to_lua_ok(&self, vm: Vm) -> bool {
        true
    }

    open spec fn pushed(&self, vm: Vm, v: Value) -> bool {
        v == Value::Boolean(*self)
    }

    fn to_lua(&self, vm: &mut Vm) {
        vm.push_raw(Value::Boolean(*self));
    }
}

impl ToLua for String {
    open spec fn to_lua_ok(&self, vm: Vm) -> bool {
        true
    }

    open spec fn pushed(&self, vm: Vm, v: Value) -> bool {
        v matches Value::Str(id) && id < vm.strings_view().len() && vm.strings_view()[id as int]
            == self@
    }

    fn to_lua(&self, vm: &mut Vm) {
        let ls = vm.intern(self.as_str());
        vm.push_raw(Value::Str(ls.0));
    }
}

impl<'a> ToLua for &'a str {
    open spec fn to_lua_ok(&self, vm: Vm) -> bool {
        true
    }

    open spec fn pushed(&self, vm: Vm, v: Value) -> bool {
        v matches Value::Str(id) && id < vm.strings_view().len() && vm.strings_view()[id as int]
            == (*self)@
    }

    fn to_lua(&self, vm: &mut Vm) {
        let ls = vm.intern(*self);
        vm.push_raw(Value::Str(ls.0));
    }
}

impl ToLua for LuaString {
    open spec fn to_lua_ok(&self, vm: Vm) -> bool {
        vm.valid_handle(*self)
    }

    open spec fn pushed(&self, vm: Vm, v: Value) -> bool {
        v matches Value::Str(id) && id as int == self.id()
    }

    fn to_lua(&self, vm: &mut Vm) {
        vm.push_raw(Value::Str(self.0));
    }
}

impl FromLua for u8 {
    open spec fn from_lua_post(
        pre: Vm,
        post_stack: Seq<Value>,
        post_strings: Seq<Seq<char>>,
        idx: LuaIndex,
        r: RunResult<u8>,
    ) -> bool {
        &&& post_stack == pre.stack_view()
        &&& match integer_of_value(pre.value_at_opt(idx), pre.strings_view()) {
            Some(n) => if 0 <= n <= u8::MAX {
                r == Ok::<u8, RunError>(n as u8)
            } else {
                is_conversion_error(pre, idx, "u8"@, r)
            },
            None => is_conversion_error(pre, idx, "u8"@, r),
        }
    }

    fn from_lua(vm: &mut Vm, idx: LuaIndex) -> (r: RunResult<u8>) {
        match vm.read_integer(idx) {
            Some(n) => {
                if 0 <= n && n <= u8::MAX as i64 {
                    Ok(n as u8)
                } else {
                    Err(RunError::conversion_from_lua(vm.type_at(idx), "u8", Vec::new()))
                }
            },
            None => Err(RunError::conversion_from_lua(vm.type_at(idx), "u8", Vec::new())),
        }
    }
}

impl FromLua for u16 {
    open spec fn from_lua_post(
        pre: Vm,
        post_stack: Seq<Value>,
        post_strings: Seq<Seq<char>>,
        idx: LuaIndex,
        r: RunResult<u16>,
    ) -> bool {
        &&& post_stack == pre.stack_view()
        &&& match integer_of_value(pre.value_at_opt(idx), pre.strings_view()) {
            Some(n) => if 0 <= n <= u16::MAX {
                r == Ok::<u16, RunError>(n as u16)
            } else {
                is_conversion_error(pre, idx, "u16"@, r)
            },
            None => is_conversion_error(pre, idx, "u16"@, r),
        }
    }

    fn from_lua(vm: &mut Vm, idx: LuaIndex) -> (r: RunResult<u16>) {
        match vm.read_integer(idx) {
            Some(n) => {
                if 0 <= n && n <= u16::MAX as i64 {
                    Ok(n as u16)
                } else {
                    Err(RunError::conversion_from_lua(vm.type_at(idx), "u16", Vec::new()))
                }
            },
            None => Err(RunError::conversion_from_lua(vm.type_at(idx), "u16", Vec::new())),
        }
    }
}

impl FromLua for u32 {
    open spec fn from_lua_post(
        pre: Vm,
        post_stack: Seq<Value>,
        post_strings: Seq<Seq<char>>,
        idx: LuaIndex,
        r: RunResult<u32>,
    ) -> bool {
        &&& post_stack == pre.stack_view()
        &&& match integer_of_value(pre.value_at_opt(idx), pre.strings_view()) {
            Some(n) => if 0 <= n <= u32::MAX {
                r == Ok::<u32, RunError>(n as u32)
            } else {
                is_conversion_error(pre, idx, "u32"@, r)
            },
            None => is_conversion_error(pre, idx, "u32"@, r),
        }
    }

    fn from_lua(vm: &mut Vm, idx: LuaIndex) -> (r: RunResult<u32>) {
        match vm.read_integer(idx) {
            Some(n) => {
                if 0 <= n && n <= u32::MAX as i64 {
                    Ok(n as u32)
                } else {
                    Err(RunError::conversion_from_lua(vm.type_at(idx), "u32", Vec::new()))
                }
            },
            None => Err(RunError::conversion_from_lua(vm.type_at(idx), "u32", Vec::new())),
        }
    }
}

impl FromLua for u64 {
    open spec fn from_lua_post(
        pre: Vm,
        post_stack: Seq<Value>,
        post_strings: Seq<Seq<char>>,
        idx: LuaIndex,
        r: RunResult<u64>,
    ) -> bool {
        &&& post_stack == pre.stack_view()
        &&& match integer_of_value(pre.value_at_opt(idx), pre.strings_view()) {
            Some(n) => r == Ok::<u64, RunError>(n as u64),
            None => is_conversion_error(pre, idx, "u64"@, r),
        }
    }

    fn from_lua(vm: &mut Vm, idx: LuaIndex) -> (r: RunResult<u64>) {
        match vm.read_integer(idx) {
            Some(n) => {
                #[verifier::truncate]
                let u = n as u64;
                Ok(u)
            },
            None => Err(RunError::conversion_from_lua(vm.type_at(idx), "u64", Vec::new())),
        }
    }
}

impl FromLua for usize {
    open spec fn from_lua_post(
        pre: Vm,
        post_stack: Seq<Value>,
        post_strings: Seq<Seq<char>>,
        idx: LuaIndex,
        r: RunResult<usize>,
    ) -> bool {
        &&& post_stack == pre.stack_view()
        &&& match integer_of_value(pre.value_at_opt(idx), pre.strings_view()) {
            Some(n) => if n as u64 <= usize::MAX as u64 {
                r == Ok::<usize, RunError>(n as u64 as usize)
            } else {
                is_conversion_error(pre, idx, "usize"@, r)
            },
            None => is_conversion_error(pre, idx, "usize"@, r),
        }
    }

    fn from_lua(vm: &mut Vm, idx: LuaIndex) -> (r: RunResult<usize>) {
        match vm.read_integer(idx) {
            Some(n) => {
                #[verifier::truncate]
                let u = n as u64;
                if u <= usize::MAX as u64 {
                    Ok(u as usize)
                } else {
                    Err(RunError::conversion_from_lua(vm.type_at(idx), "usize", Vec::new()))
                }
            },
            None => Err(RunError::conversion_from_lua(vm.type_at(idx), "usize", Vec::new())),
        }
    }
}

impl FromLua for i8 {
    open spec fn from_lua_post(
        pre: Vm,
        post_stack: Seq<Value>,
        post_strings: Seq<Seq<char>>,
        idx: LuaIndex,
        r: RunResult<i8>,
    ) -> bool {
        &&& post_stack == pre.stack_view()
        &&& match integer_of_value(pre.value_at_opt(idx), pre.strings_view()) {
            Some(n) => if i8::MIN <= n <= i8::MAX {
                r == Ok::<i8, RunError>(n as i8)
            } else {
                is_conversion_error(pre, idx, "i8"@, r)
            },
            None => is_conversion_error(pre, idx, "i8"@, r),
        }
    }

    fn from_lua(vm: &mut Vm, idx: LuaIndex) -> (r: RunResult<i8>) {
        match vm.read_integer(idx) {
            Some(n) => {
                if i8::MIN as i64 <= n && n <= i8::MAX as i64 {
                    Ok(n as i8)
                } else {
                    Err(RunError::conversion_from_lua(vm.type_at(idx), "i8", Vec::new()))
                }
            },
            None => Err(RunError::conversion_from_lua(vm.type_at(idx), "i8", Vec::new())),
        }
    }
}

impl FromLua for i16 {
    open spec fn from_lua_post(
        pre: Vm,
        post_stack: Seq<Value>,
        post_strings: Seq<Seq<char>>,
        idx: LuaIndex,
        r: RunResult<i16>,
    ) -> bool {
        &&& post_stack == pre.stack_view()
        &&& match integer_of_value(pre.value_at_opt(idx), pre.strings_view()) {
            Some(n) => if i16::MIN <= n <= i16::MAX {
                r == Ok::<i16, RunError>(n as i16)
            } else {
                is_conversion_error(pre, idx, "i16"@, r)
            },
            None => is_conversion_error(pre, idx, "i16"@, r),
        }
    }

    fn from_lua(vm: &mut Vm, idx: LuaIndex) -> (r: RunResult<i16>) {
        match vm.read_integer(idx) {
            Some(n) => {
                if i16::MIN as i64 <= n && n <= i16::MAX as i64 {
                    Ok(n as i16)
                } else {
                    Err(RunError::conversion_from_lua(vm.type_at(idx), "i16", Vec::new()))
                }
            },
            None => Err(RunError::conversion_from_lua(vm.type_at(idx), "i16", Vec::new())),
        }
    }
}

impl FromLua for i32 {
    open spec fn from_lua_post(
        pre: Vm,
        post_stack: Seq<Value>,
        post_strings: Seq<Seq<char>>,
        idx: LuaIndex,
        r: RunResult<i32>,
    ) -> bool {
        &&& post_stack == pre.stack_view()
        &&& match integer_of_value(pre.value_at_opt(idx), pre.strings_view()) {
            Some(n) => if i32::MIN <= n <= i32::MAX {
                r == Ok::<i32, RunError>(n as i32)
            } else {
                is_conversion_error(pre, idx, "i32"@, r)
            },
            None => is_conversion_error(pre, idx, "i32"@, r),
        }
    }

    fn from_lua(vm: &mut Vm, idx: LuaIndex) -> (r: RunResult<i32>) {
        match vm.read_integer(idx) {
            Some(n) => {
                if i32::MIN as i64 <= n && n <= i32::MAX as i64 {
                    Ok(n as i32)
                } else {
                    Err(RunError::conversion_from_lua(vm.type_at(idx), "i32", Vec::new()))
                }
            },
            None => Err(RunError::conversion_from_lua(vm.type_at(idx), "i32", Vec::new())),
        }
    }
}

impl FromLua for i64 {
    open spec fn from_lua_post(
        pre: Vm,
        post_stack: Seq<Value>,
        post_strings: Seq<Seq<char>>,
        idx: LuaIndex,
        r: RunResult<i64>,
    ) -> bool {
        &&& post_stack == pre.stack_view()
        &&& match integer_of_value(pre.value_at_opt(idx), pre.strings_view()) {
            Some(n) => r == Ok::<i64, RunError>(n),
            None => is_conversion_error(pre, idx, "i64"@, r),
        }
    }

    fn from_lua(vm: &mut Vm, idx: LuaIndex) -> (r: RunResult<i64>) {
        match vm.read_integer(idx) {
            Some(n) => Ok(n),
            None => Err(RunError::conversion_from_lua(vm.type_at(idx), "i64", Vec::new())),
        }
    }
}

impl FromLua for isize {
    open spec fn from_lua_post(
        pre: Vm,
        post_stack: Seq<Value>,
        post_strings: Seq<Seq<char>>,
        idx: LuaIndex,
        r: RunResult<isize>,
    ) -> bool {
        &&& post_stack == pre.stack_view()
        &&& match integer_of_value(pre.value_at_opt(idx), pre.strings_view()) {
            Some(n) => if isize::MIN <= n <= isize::MAX {
                r == Ok::<isize, RunError>(n as isize)
            } else {
                is_conversion_error(pre, idx, "isize"@, r)
            },
            None => is_conversion_error(pre, idx, "isize"@, r),
        }
    }

    fn from_lua(vm: &mut Vm, idx: LuaIndex) -> (r: RunResult<isize>) {
        match vm.read_integer(idx) {
            Some(n) => {
                if isize::MIN as i64 <= n && n <= isize::MAX as i64 {
                    Ok(n as isize)
                } else {
                    Err(RunError::conversion_from_lua(vm.type_at(idx), "isize", Vec::new()))
                }
            },
            None => Err(RunError::conversion_from_lua(vm.type_at(idx), "isize", Vec::new())),
        }
    }
}

/// Whether a VM value counts as true: everything but `nil` and `false`
/// does, and a non-valid index reads as `nil`.
pub open spec fn truthy(v: Option<Value>) -> bool {
    match v {
        Some(Value::Boolean(b)) => b,
        Some(Value::Nil) => false,
        None => false,
        Some(_) => true,
    }
}

impl FromLua for bool {
    open spec fn from_lua_post(
        pre: Vm,
        post_stack: Seq<Value>,
        post_strings: Seq<Seq<char>>,
        idx: LuaIndex,
        r: RunResult<bool>,
    ) -> bool {
        &&& post_stack == pre.stack_view()
        &&& r == Ok::<bool, RunError>(truthy(pre.value_at_opt(idx)))
    }

    fn from_lua(vm: &mut Vm, idx: LuaIndex) -> (r: RunResult<bool>) {
        match vm.value_at_offset(idx.to_stack()) {
            Some(Value::Boolean(b)) => Ok(b),
            Some(Value::Nil) => Ok(false),
            None => Ok(false),
            Some(_) => Ok(true),
        }
    }
}

impl FromLua for String {
    open spec fn from_lua_post(
        pre: Vm,
        post_stack: Seq<Value>,
        post_strings: Seq<Seq<char>>,
        idx: LuaIndex,
        r: RunResult<String>,
    ) -> bool {
        match pre.value_at_opt(idx) {
            Some(Value::Str(id)) => post_stack == pre.stack_view() && (r matches Ok(s) && s@
                == pre.strings_view()[id as int]),
            Some(Value::Integer(n)) => {
                // The read renders the number and the rendered string
                // replaces the value in its slot, as the C read does.
                &&& (r matches Ok(s) && s@ == int_dec(n as int))
                &&& post_stack.len() == pre.stack_view().len()
                &&& (forall|k: int|
                    0 <= k < pre.stack_view().len() && k != resolve_spec(
                        pre.stack_view().len(),
                        idx->Stack_0 as int,
                    ) ==> #[trigger] post_stack[k] == pre.stack_view()[k])
                &&& (post_stack[resolve_spec(pre.stack_view().len(), idx->Stack_0 as int)]
                    matches Value::Str(id2) && id2 < post_strings.len() && post_strings[id2 as int]
                    == int_dec(n as int))
            },
            _ => post_stack == pre.stack_view() && is_conversion_error(pre, idx, "String"@, r),
        }
    }

    fn from_lua(vm: &mut Vm, idx: LuaIndex) -> (r: RunResult<String>) {
        match vm.value_at_offset(idx.to_stack()) {
            Some(Value::Str(id)) => {
                proof {
                    let q = resolve_spec(vm.stack_view().len(), idx->Stack_0 as int);
                    assert(vm.value_wf(vm.stack_view()[q]));
                }
                Ok(vm.handle_content(&LuaString(id)).clone())
            },
            Some(Value::Integer(n)) => {
                let mut rendering = String::new();
                crate::backtrace::append_int_dec(n, &mut rendering);
                let ls = vm.intern(rendering.as_str());
                vm.replace_at(idx, Value::Str(ls.0));
                Ok(rendering)
            },
            _ => Err(RunError::conversion_from_lua(vm.type_at(idx), "String", Vec::new())),
        }
    }
}

impl FromLua for LuaString {
    open spec fn from_lua_post(
        pre: Vm,
        post_stack: Seq<Value>,
        post_strings: Seq<Seq<char>>,
        idx: LuaIndex,
        r: RunResult<LuaString>,
    ) -> bool {
        match pre.value_at_opt(idx) {
            Some(Value::Str(id)) => post_stack == pre.stack_view() && (r matches Ok(ls) && ls.id()
                == id),
            Some(Value::Integer(n)) => {
                // The read renders the number, interns the rendering, and
                // the rendered string replaces the value in its slot.
                &&& (r matches Ok(h) && 0 <= h.id() < post_strings.len() && post_strings[h.id()]
                    == int_dec(n as int))
                &&& post_stack.len() == pre.stack_view().len()
                &&& (forall|k: int|
                    0 <= k < pre.stack_view().len() && k != resolve_spec(
                        pre.stack_view().len(),
                        idx->Stack_0 as int,
                    ) ==> #[trigger] post_stack[k] == pre.stack_view()[k])
                &&& (post_stack[resolve_spec(pre.stack_view().len(), idx->Stack_0 as int)]
                    matches Value::Str(id2) && (r matches Ok(h) && id2 as int == h.id()))
            },
            _ => post_stack == pre.stack_view() && is_conversion_error(pre, idx, "LuaString"@, r),
        }
    }

    fn from_lua(vm: &mut Vm, idx: LuaIndex) -> (r: RunResult<LuaString>) {
        match vm.value_at_offset(idx.to_stack()) {
            Some(Value::Str(id)) => Ok(LuaString(id)),
            Some(Value::Integer(n)) => {
                let mut rendering = String::new();
                crate::backtrace::append_int_dec(n, &mut rendering);
                let ls = vm.intern(rendering.as_str());
                vm.replace_at(idx, Value::Str(ls.0));
                Ok(ls)
            },
            _ => Err(RunError::conversion_from_lua(vm.type_at(idx), "LuaString", Vec::new())),
        }
    }
}

/// Relies on `String::from_utf8`: it returns the string decoded from the
/// bytes exactly when they are a valid UTF-8 encoding, and rejects them
/// otherwise.
#[verifier::external_body]
fn utf8_to_string(bytes: Vec<u8>) -> (r: Option<String>)
    ensures
        r is Some <==> vstd::utf8::valid_utf8(bytes@),
        r matches Some(s) ==> s@ == vstd::utf8::decode_utf8(bytes@),
{
    String::from_utf8(bytes).ok()
}

/// Turn the raw bytes of a VM string into a host string, validating them
/// as UTF-8 on the way: an invalid byte sequence is a typed conversion
/// error naming the VM-side type they were read from, never a panic.
pub fn string_from_bytes(
    bytes: Vec<u8>,
    src_type: Option<crate::LuaType>,
    backtrace: Vec<String>,
) -> (r: RunResult<String>)
    ensures
        vstd::utf8::valid_utf8(bytes@) ==> (r matches Ok(s) && s@ == vstd::utf8::decode_utf8(
            bytes@,
        )),
        !vstd::utf8::valid_utf8(bytes@) ==> (r matches Err(e) && e.message@
            == crate::conversion_from_lua_message(src_type, "String"@) && e.backtrace
            == backtrace),
{
    match utf8_to_string(bytes) {
        Some(s) => Ok(s),
        None => Err(RunError::conversion_from_lua(src_type, "String", backtrace)),
    }
}

} // verus!
