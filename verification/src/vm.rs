//! An executable model of the VM-visible state of the binding layer.
//!
//! The model holds exactly what the host can observe of one VM instance
//! through the stack-based calling convention: the value stack, the pool of
//! interned string objects, the userdata records owned by the collector, and
//! the cache of per-type metatables. Values on the stack are plain tags;
//! collector-managed objects (strings, userdata) are referenced by index
//! into the pools, mirroring how the VM's own values reference heap objects.
//!
//! Every operation carries the exact contract of the corresponding stack
//! primitive of the C calling interface, so the stack discipline of the
//! calling convention — framing of call results, stack neutrality of failed
//! reads, containment of host faults — is stated and proved here once, and a
//! foreign-function shell can mirror each operation one-to-one against a
//! real instance.
//!
//! The model addresses the stack only: its index-accepting operations take
//! the stack mode of `LuaIndex`. The upvalue and registry pseudo-indices
//! address per-closure and registry storage that exists on a real instance
//! alone; their encoding is verified (`LuaIndex::to_ffi`), and the shell
//! accepts all three modes.

use vstd::prelude::*;

verus! {

use crate::codes::LUAI_MAXSTACK;
use crate::{LuaIndex, LuaString, LuaType};

/// The payload of a userdata record: a host value boxed with its
/// type-identity tag, an error value in flight through the VM's error
/// channel, a host fault in flight, or the tombstone left after the value
/// has been moved back to the host.
pub enum UserdataPayload {
    /// A host value, stored by its bytes together with the identity tag of
    /// its host type.
    Bytes { tag: u64, data: Vec<u8> },
    /// A run error transported through the VM's error channel.
    ErrorValue(crate::RunError),
    /// An opaque host fault transported through the VM's error channel.
    FaultValue(u64),
    /// The record has been moved back into the host and is permanently
    /// invalid; its finalizer must never run again.
    Moved,
}

/// One userdata record: a payload plus the flag telling whether the
/// record's metatable still carries a finalizer.
pub struct UserdataRecord {
    pub finalizable: bool,
    pub payload: UserdataPayload,
}

/// A VM value as the stack holds it. Strings and userdata reference
/// collector-managed objects by pool index; other object types carry an
/// opaque identity.
#[derive(Copy, Clone, PartialEq, Eq, Structural, Debug)]
pub enum Value {
    Nil,
    Boolean(bool),
    Integer(i64),
    /// A float, carried by its bit pattern; the model never computes with it.
    Number(u64),
    /// A string object, by index into the string pool.
    Str(usize),
    Table(u64),
    /// A function defined by loaded code.
    Function(u64),
    /// A native (host) function installed through the closure trampoline.
    Native(u64),
    LightUserdata(u64),
    /// A userdata record, by index into the userdata pool.
    Userdata(usize),
    Thread(u64),
}

/// The VM-level type of a value.
pub open spec fn lua_type_of_value(v: Value) -> LuaType {
    match v {
        Value::Nil => LuaType::Nil,
        Value::Boolean(_) => LuaType::Boolean,
        Value::Integer(_) => LuaType::Number,
        Value::Number(_) => LuaType::Number,
        Value::Str(_) => LuaType::String,
        Value::Table(_) => LuaType::Table,
        Value::Function(_) => LuaType::Function,
        Value::Native(_) => LuaType::Function,
        Value::LightUserdata(_) => LuaType::LightUserdata,
        Value::Userdata(_) => LuaType::Userdata,
        Value::Thread(_) => LuaType::Thread,
    }
}

/// The 0-based stack position a signed 1-based offset resolves to on a
/// stack of `len` values: positive offsets count from the bottom, negative
/// ones from the top.
pub open spec fn resolve_spec(len: nat, val: int) -> int {
    if val > 0 {
        val - 1
    } else {
        len + val
    }
}

/// True when the offset addresses an occupied stack position.
pub open spec fn valid_offset(len: nat, val: int) -> bool {
    0 <= resolve_spec(len, val) < len
}

/// A model VM instance: the value stack, the string pool, the userdata
/// pool and the metatable cache.
pub struct Vm {
    stack: Vec<Value>,
    strings: Vec<String>,
    userdata: Vec<UserdataRecord>,
    metatables: Vec<u64>,
}

impl Vm {
    /// The stack, bottom first.
    pub closed spec fn stack_view(&self) -> Seq<Value> {
        self.stack@
    }

    /// The contents of the interned string objects, in pool order.
    pub closed spec fn strings_view(&self) -> Seq<Seq<char>> {
        self.strings@.map_values(|s: String| s@)
    }

    /// The userdata records, in pool order.
    pub closed spec fn userdata_view(&self) -> Seq<UserdataRecord> {
        self.userdata@
    }

    /// The type-identity tags that own a cached metatable, in creation order.
    pub closed spec fn metatables_view(&self) -> Seq<u64> {
        self.metatables@
    }

    /// True when a value's object references point into the pools.
    pub open spec fn value_wf(&self, v: Value) -> bool {
        match v {
            Value::Str(id) => id < self.strings_view().len(),
            Value::Userdata(id) => id < self.userdata_view().len(),
            _ => true,
        }
    }

    /// Well-formedness: the stack fits the VM's stack bound, every stack
    /// value references existing pool objects, and the string pool is
    /// deduplicated (the VM interns equal string contents to one object).
    pub open spec fn wf(&self) -> bool {
        &&& self.stack_view().len() <= LUAI_MAXSTACK as nat
        &&& forall|i: int|
            0 <= i < self.stack_view().len() ==> self.value_wf(#[trigger] self.stack_view()[i])
        &&& forall|i: int, j: int|
            0 <= i < j < self.strings_view().len() ==> self.strings_view()[i]
                != self.strings_view()[j]
    }

    /// Well-formedness survives any reshuffling of the stack that keeps its
    /// values drawn from the old stack (or fresh values known well-formed),
    /// as long as the pools did not shrink.
    proof fn wf_frame(pre: Vm, post: Vm)
        requires
            pre.wf(),
            post.strings_view() == pre.strings_view(),
            post.userdata_view() == pre.userdata_view(),
            post.stack_view().len() <= LUAI_MAXSTACK as nat,
            forall|i: int|
                0 <= i < post.stack_view().len() ==> pre.value_wf(#[trigger] post.stack_view()[i]),
        ensures
            post.wf(),
    {
        assert forall|i: int| 0 <= i < post.stack_view().len() implies post.value_wf(
            #[trigger] post.stack_view()[i],
        ) by {
            assert(pre.value_wf(post.stack_view()[i]));
        }
        assert forall|i: int, j: int|
            0 <= i < j < post.strings_view().len() implies post.strings_view()[i]
            != post.strings_view()[j] by {
            assert(pre.strings_view()[i] != pre.strings_view()[j]);
        }
        assert(post.wf());
    }

    /// Well-formedness survives growth or in-place update of the pools
    /// while the stack stands still: object references can only become
    /// "more valid" when the pools do not shrink.
    proof fn wf_grow(pre: Vm, post: Vm)
        requires
            pre.wf(),
            post.stack_view() == pre.stack_view(),
            post.strings_view() == pre.strings_view(),
            pre.userdata_view().len() <= post.userdata_view().len(),
        ensures
            post.wf(),
    {
        assert forall|i: int| 0 <= i < post.stack_view().len() implies post.value_wf(
            #[trigger] post.stack_view()[i],
        ) by {
            assert(pre.value_wf(pre.stack_view()[i]));
        }
        assert forall|i: int, j: int|
            0 <= i < j < post.strings_view().len() implies post.strings_view()[i]
            != post.strings_view()[j] by {
            assert(pre.strings_view()[i] != pre.strings_view()[j]);
        }
        assert(post.wf());
    }

    /// Create a fresh instance: empty stack and empty registries.
    pub fn new() -> (r: Vm)
        ensures
            r.wf(),
            r.stack_view() == Seq::<Value>::empty(),
            r.strings_view() == Seq::<Seq<char>>::empty(),
            r.userdata_view() == Seq::<UserdataRecord>::empty(),
            r.metatables_view() == Seq::<u64>::empty(),
    {
        let r = Vm { stack: Vec::new(), strings: Vec::new(), userdata: Vec::new(), metatables: Vec::new() };
        proof {
            assert(r.strings_view() =~= Seq::<Seq<char>>::empty());
        }
        r
    }

    /// The index of the top element: the number of values on the stack.
    pub fn get_top(&self) -> (r: i32)
        requires
            self.wf(),
        ensures
            r == self.stack_view().len(),
    {
        self.stack.len() as i32
    }

    /// Resolve a signed stack offset to a 0-based position, or `None` for
    /// an offset that addresses no occupied position.
    fn resolve_offset(&self, val: i32) -> (r: Option<usize>)
        requires
            self.wf(),
        ensures
            valid_offset(self.stack_view().len(), val as int) ==> r == Some(
                resolve_spec(self.stack_view().len(), val as int) as usize,
            ),
            !valid_offset(self.stack_view().len(), val as int) ==> r is None,
    {
        let len = self.stack.len() as i32;
        if val > 0 {
            if val <= len {
                Some((val - 1) as usize)
            } else {
                None
            }
        } else {
            let pos = len + val;
            if 0 <= pos && pos < len {
                Some(pos as usize)
            } else {
                None
            }
        }
    }

    /// The value an offset resolves to, or `None` for a non-valid offset.
    pub fn value_at_offset(&self, val: i32) -> (r: Option<Value>)
        requires
            self.wf(),
        ensures
            valid_offset(self.stack_view().len(), val as int) ==> r == Some(
                self.stack_view()[resolve_spec(self.stack_view().len(), val as int)],
            ),
            !valid_offset(self.stack_view().len(), val as int) ==> r is None,
    {
        match self.resolve_offset(val) {
            Some(q) => Some(self.stack[q]),
            None => None,
        }
    }

    /// Push one value. The caller must have ensured space for it, as the
    /// real stack primitive does not check.
    pub fn push_raw(&mut self, v: Value)
        requires
            old(self).wf(),
            old(self).value_wf(v),
            old(self).stack_view().len() < LUAI_MAXSTACK as nat,
        ensures
            final(self).wf(),
            final(self).stack_view() == old(self).stack_view().push(v),
            final(self).strings_view() == old(self).strings_view(),
            final(self).userdata_view() == old(self).userdata_view(),
            final(self).metatables_view() == old(self).metatables_view(),
    {
        self.stack.push(v);
        proof {
            assert forall|i: int| 0 <= i < self.stack_view().len() implies self.value_wf(
                #[trigger] self.stack_view()[i],
            ) by {
                if i < old(self).stack_view().len() {
                    assert(old(self).value_wf(old(self).stack_view()[i]));
                }
            }
        }
    }

    /// Pushes a `nil` value onto the stack.
    pub fn push_nil(&mut self)
        requires
            old(self).wf(),
            old(self).stack_view().len() < LUAI_MAXSTACK as nat,
        ensures
            final(self).wf(),
            final(self).stack_view() == old(self).stack_view().push(Value::Nil),
            final(self).strings_view() == old(self).strings_view(),
            final(self).userdata_view() == old(self).userdata_view(),
            final(self).metatables_view() == old(self).metatables_view(),
    {
        self.push_raw(Value::Nil);
    }

    /// Pop `n` elements from the stack.
    pub fn pop(&mut self, n: i32)
        requires
            old(self).wf(),
            0 <= n <= old(self).stack_view().len(),
        ensures
            final(self).wf(),
            final(self).stack_view() == old(self).stack_view().take(
                old(self).stack_view().len() - n,
            ),
            final(self).strings_view() == old(self).strings_view(),
            final(self).userdata_view() == old(self).userdata_view(),
            final(self).metatables_view() == old(self).metatables_view(),
    {
        let new_len = self.stack.len() - n as usize;
        self.stack.truncate(new_len);
        proof {
            assert forall|i: int| 0 <= i < self.stack_view().len() implies self.value_wf(
                #[trigger] self.stack_view()[i],
            ) by {
                assert(old(self).value_wf(old(self).stack_view()[i]));
            }
        }
    }

    /// Sets the stack top to `idx`: values above it are discarded, and new
    /// positions up to a larger `idx` are filled with `nil`.
    pub fn set_top(&mut self, idx: i32)
        requires
            old(self).wf(),
            0 <= idx <= LUAI_MAXSTACK,
        ensures
            final(self).wf(),
            final(self).stack_view().len() == idx,
            idx <= old(self).stack_view().len() ==> final(self).stack_view() == old(
                self,
            ).stack_view().take(idx as int),
            idx > old(self).stack_view().len() ==> final(self).stack_view() == old(
                self,
            ).stack_view() + Seq::new(
                (idx - old(self).stack_view().len()) as nat,
                |i: int| Value::Nil,
            ),
            final(self).strings_view() == old(self).strings_view(),
            final(self).userdata_view() == old(self).userdata_view(),
            final(self).metatables_view() == old(self).metatables_view(),
    {
        if (idx as usize) <= self.stack.len() {
            self.stack.truncate(idx as usize);
            proof {
                assert(self.stack_view().len() <= LUAI_MAXSTACK as nat);
                assert forall|i: int| 0 <= i < self.stack_view().len() implies self.value_wf(
                    #[trigger] self.stack_view()[i],
                ) by {
                    assert(self.stack_view()[i] == old(self).stack_view()[i]);
                    assert(old(self).value_wf(old(self).stack_view()[i]));
                    assert(self.strings_view() == old(self).strings_view());
                    assert(self.userdata_view() == old(self).userdata_view());
                }
                assert forall|i: int, j: int|
                    0 <= i < j < self.strings_view().len() implies self.strings_view()[i]
                    != self.strings_view()[j] by {
                    assert(old(self).strings_view()[i] != old(self).strings_view()[j]);
                }
                assert(self.wf());
            }
        } else {
            while self.stack.len() < idx as usize
                invariant
                    self.wf(),
                    old(self).stack_view().len() <= self.stack_view().len() <= idx,
                    self.stack_view() =~= old(self).stack_view() + Seq::new(
                        (self.stack_view().len() - old(self).stack_view().len()) as nat,
                        |i: int| Value::Nil,
                    ),
                    self.strings_view() == old(self).strings_view(),
                    self.userdata_view() == old(self).userdata_view(),
                    self.metatables_view() == old(self).metatables_view(),
                    idx <= LUAI_MAXSTACK,
                decreases idx - self.stack_view().len(),
            {
                let ghost pre = self.stack_view();
                self.stack.push(Value::Nil);
                proof {
                    assert forall|i: int| 0 <= i < self.stack_view().len() implies self.value_wf(
                        #[trigger] self.stack_view()[i],
                    ) by {
                        if i < pre.len() {
                            assert(self.stack_view()[i] == pre[i]);
                        }
                    }
                }
            }
        }
    }

    /// Pushes a copy of the element at the given index onto the stack.
    pub fn push_value(&mut self, idx: LuaIndex)
        requires
            old(self).wf(),
            idx matches LuaIndex::Stack(val) && valid_offset(
                old(self).stack_view().len(),
                val as int,
            ),
            old(self).stack_view().len() < LUAI_MAXSTACK as nat,
        ensures
            final(self).wf(),
            final(self).stack_view() == old(self).stack_view().push(
                old(self).stack_view()[resolve_spec(
                    old(self).stack_view().len(),
                    idx->Stack_0 as int,
                )],
            ),
            final(self).strings_view() == old(self).strings_view(),
            final(self).userdata_view() == old(self).userdata_view(),
            final(self).metatables_view() == old(self).metatables_view(),
    {
        let val = idx.to_stack();
        let q = match self.resolve_offset(val) {
            Some(q) => q,
            None => unreached(),
        };
        let v = self.stack[q];
        proof {
            assert(old(self).value_wf(old(self).stack_view()[q as int]));
        }
        self.push_raw(v);
    }

    /// Moves the top element into the given position, shifting up the
    /// elements above it to open space.
    pub fn insert(&mut self, idx: i32)
        requires
            old(self).wf(),
            valid_offset(old(self).stack_view().len(), idx as int),
        ensures
            final(self).wf(),
            final(self).stack_view() == old(self).stack_view().take(
                old(self).stack_view().len() - 1,
            ).insert(
                resolve_spec(old(self).stack_view().len(), idx as int),
                old(self).stack_view().last(),
            ),
            final(self).strings_view() == old(self).strings_view(),
            final(self).userdata_view() == old(self).userdata_view(),
            final(self).metatables_view() == old(self).metatables_view(),
    {
        let q = match self.resolve_offset(idx) {
            Some(q) => q,
            None => unreached(),
        };
        let v = match self.stack.pop() {
            Some(v) => v,
            None => unreached(),
        };
        self.stack.insert(q, v);
        proof {
            assert forall|i: int| 0 <= i < self.stack_view().len() implies old(self).value_wf(
                #[trigger] self.stack_view()[i],
            ) by {
                let pre = old(self).stack_view();
                if i < q {
                    assert(self.stack_view()[i] == pre[i]);
                } else if i == q {
                    assert(self.stack_view()[i] == pre.last());
                } else {
                    assert(self.stack_view()[i] == pre[i - 1]);
                }
            }
            Self::wf_frame(*old(self), *self);
        }
    }

    /// Removes the element at the given position, shifting down the
    /// elements above it to fill the gap.
    pub fn remove(&mut self, idx: i32)
        requires
            old(self).wf(),
            valid_offset(old(self).stack_view().len(), idx as int),
        ensures
            final(self).wf(),
            final(self).stack_view() == old(self).stack_view().remove(
                resolve_spec(old(self).stack_view().len(), idx as int),
            ),
            final(self).strings_view() == old(self).strings_view(),
            final(self).userdata_view() == old(self).userdata_view(),
            final(self).metatables_view() == old(self).metatables_view(),
    {
        let q = match self.resolve_offset(idx) {
            Some(q) => q,
            None => unreached(),
        };
        self.stack.remove(q);
        proof {
            assert forall|i: int| 0 <= i < self.stack_view().len() implies old(self).value_wf(
                #[trigger] self.stack_view()[i],
            ) by {
                let pre = old(self).stack_view();
                if i < q {
                    assert(self.stack_view()[i] == pre[i]);
                } else {
                    assert(self.stack_view()[i] == pre[i + 1]);
                }
            }
            Self::wf_frame(*old(self), *self);
        }
    }

    /// Moves the top element into the given position without shifting
    /// (replacing the value there), then pops the top.
    pub fn replace(&mut self, idx: i32)
        requires
            old(self).wf(),
            valid_offset(old(self).stack_view().len(), idx as int),
        ensures
            final(self).wf(),
            final(self).stack_view() == old(self).stack_view().update(
                resolve_spec(old(self).stack_view().len(), idx as int),
                old(self).stack_view().last(),
            ).take(old(self).stack_view().len() - 1),
            final(self).strings_view() == old(self).strings_view(),
            final(self).userdata_view() == old(self).userdata_view(),
            final(self).metatables_view() == old(self).metatables_view(),
    {
        let q = match self.resolve_offset(idx) {
            Some(q) => q,
            None => unreached(),
        };
        let v = match self.stack.pop() {
            Some(v) => v,
            None => unreached(),
        };
        if q < self.stack.len() {
            self.stack.set(q, v);
        }
        proof {
            let pre = old(self).stack_view();
            let target = pre.update(q as int, pre.last()).take(pre.len() - 1);
            assert(self.stack_view() =~= target);
            assert forall|i: int| 0 <= i < self.stack_view().len() implies old(self).value_wf(
                #[trigger] self.stack_view()[i],
            ) by {
                if i == q {
                    assert(self.stack_view()[i] == pre.last());
                } else {
                    assert(self.stack_view()[i] == pre[i]);
                }
            }
            Self::wf_frame(*old(self), *self);
        }
    }

    /// Copies the element at `fromidx` into position `toidx`, replacing the
    /// value there; no other position is affected.
    pub fn copy(&mut self, fromidx: i32, toidx: i32)
        requires
            old(self).wf(),
            valid_offset(old(self).stack_view().len(), fromidx as int),
            valid_offset(old(self).stack_view().len(), toidx as int),
        ensures
            final(self).wf(),
            final(self).stack_view() == old(self).stack_view().update(
                resolve_spec(old(self).stack_view().len(), toidx as int),
                old(self).stack_view()[resolve_spec(
                    old(self).stack_view().len(),
                    fromidx as int,
                )],
            ),
            final(self).strings_view() == old(self).strings_view(),
            final(self).userdata_view() == old(self).userdata_view(),
            final(self).metatables_view() == old(self).metatables_view(),
    {
        let qf = match self.resolve_offset(fromidx) {
            Some(q) => q,
            None => unreached(),
        };
        let qt = match self.resolve_offset(toidx) {
            Some(q) => q,
            None => unreached(),
        };
        let v = self.stack[qf];
        self.stack.set(qt, v);
        proof {
            assert forall|i: int| 0 <= i < self.stack_view().len() implies old(self).value_wf(
                #[trigger] self.stack_view()[i],
            ) by {
                let pre = old(self).stack_view();
                if i == qt {
                    assert(self.stack_view()[i] == pre[qf as int]);
                } else {
                    assert(self.stack_view()[i] == pre[i]);
                }
            }
            Self::wf_frame(*old(self), *self);
        }
    }

    /// Replace the value at a valid position in place, leaving every other
    /// slot untouched. The string reads of the C interface do this when
    /// they coerce a number: the slot itself becomes the rendered string.
    pub(crate) fn replace_at(&mut self, idx: LuaIndex, v: Value)
        requires
            old(self).wf(),
            idx matches LuaIndex::Stack(val) && valid_offset(
                old(self).stack_view().len(),
                val as int,
            ),
            old(self).value_wf(v),
        ensures
            final(self).wf(),
            final(self).stack_view() == old(self).stack_view().update(
                resolve_spec(old(self).stack_view().len(), idx->Stack_0 as int),
                v,
            ),
            final(self).strings_view() == old(self).strings_view(),
            final(self).userdata_view() == old(self).userdata_view(),
            final(self).metatables_view() == old(self).metatables_view(),
    {
        let q = match self.resolve_offset(idx.to_stack()) {
            Some(q) => q,
            None => unreached(),
        };
        self.stack.set(q, v);
        proof {
            assert forall|i: int| 0 <= i < self.stack_view().len() implies old(self).value_wf(
                #[trigger] self.stack_view()[i],
            ) by {
                if i != q {
                    assert(self.stack_view()[i] == old(self).stack_view()[i]);
                }
            }
            Self::wf_frame(*old(self), *self);
        }
    }

    /// Rotates the elements between the valid position `idx` and the top by
    /// `n` positions in the direction of the top for a positive `n`, or by
    /// `-n` positions in the direction of the bottom for a negative `n`.
    pub fn rotate(&mut self, idx: i32, n: i32)
        requires
            old(self).wf(),
            valid_offset(old(self).stack_view().len(), idx as int),
            -(old(self).stack_view().len() - resolve_spec(
                old(self).stack_view().len(),
                idx as int,
            )) <= n <= old(self).stack_view().len() - resolve_spec(
                old(self).stack_view().len(),
                idx as int,
            ),
        ensures
            final(self).wf(),
            final(self).stack_view() == rotate_spec(
                old(self).stack_view(),
                resolve_spec(old(self).stack_view().len(), idx as int),
                n as int,
            ),
            final(self).strings_view() == old(self).strings_view(),
            final(self).userdata_view() == old(self).userdata_view(),
            final(self).metatables_view() == old(self).metatables_view(),
    {
        let q = match self.resolve_offset(idx) {
            Some(q) => q,
            None => unreached(),
        };
        let seg_len = self.stack.len() - q;
        let m: usize = if n >= 0 {
            n as usize
        } else {
            seg_len - ((-n) as usize)
        };
        let mut tail = self.stack.split_off(q);
        let mut back = tail.split_off(seg_len - m);
        self.stack.append(&mut back);
        self.stack.append(&mut tail);
        proof {
            let pre = old(self).stack_view();
            assert(self.stack_view() =~= rotate_spec(pre, q as int, n as int));
            assert forall|i: int| 0 <= i < self.stack_view().len() implies old(self).value_wf(
                #[trigger] self.stack_view()[i],
            ) by {
                let post = self.stack_view();
                if i < q {
                    assert(post[i] == pre[i]);
                } else if i < q + m {
                    assert(post[i] == pre[i + (pre.len() - q - m)]);
                } else {
                    assert(post[i] == pre[i - m]);
                }
            }
            Self::wf_frame(*old(self), *self);
        }
    }

    /// Ensures the stack has room for `n` more slots. The model refuses
    /// exactly when growing would pass the VM's fixed stack bound.
    pub fn check_stack(&self, n: i32) -> (r: bool)
        requires
            self.wf(),
            n >= 0,
        ensures
            r == (self.stack_view().len() + n <= LUAI_MAXSTACK as nat),
    {
        let top = self.stack.len() as i32;
        n <= LUAI_MAXSTACK - top
    }

    /// Converts the acceptable index `idx` into an equivalent absolute
    /// index, one that does not depend on the stack top.
    pub fn abs_index(&self, idx: LuaIndex) -> (r: LuaIndex)
        requires
            self.wf(),
            idx matches LuaIndex::Stack(val) ==> crate::codes::LUA_REGISTRYINDEX <= val,
        ensures
            idx matches LuaIndex::Stack(val) ==> r == LuaIndex::Stack(
                crate::abs_index_spec(self.stack_view().len() as int, val as int) as i32,
            ),
            !(idx is Stack) ==> r == idx,
    {
        let top = self.stack.len() as i32;
        crate::abs_index_of(top, idx)
    }

    /// The `LuaType` of the value at the given valid position, or `None`
    /// for a non-valid (but acceptable) position.
    pub fn type_at(&self, idx: LuaIndex) -> (r: Option<LuaType>)
        requires
            self.wf(),
            idx is Stack,
        ensures
            r == self.type_at_spec(idx),
    {
        match self.value_at_offset(idx.to_stack()) {
            Some(v) => Some(
                crate::codes::lua_to_rust_type(self.type_code_of(&v)),
            ),
            None => None,
        }
    }

    /// The value a stack-mode index resolves to, or `None` for a non-valid
    /// (but acceptable) index.
    pub open spec fn value_at_opt(&self, idx: LuaIndex) -> Option<Value> {
        match idx {
            LuaIndex::Stack(val) => if valid_offset(self.stack_view().len(), val as int) {
                Some(self.stack_view()[resolve_spec(self.stack_view().len(), val as int)])
            } else {
                None
            },
            _ => None,
        }
    }

    /// What `type_at` reports for a stack position.
    pub open spec fn type_at_spec(&self, idx: LuaIndex) -> Option<LuaType>
        recommends
            idx is Stack,
    {
        match self.value_at_opt(idx) {
            Some(v) => Some(lua_type_of_value(v)),
            None => None,
        }
    }

    /// Look the string content up in the pool, interning it if it is new,
    /// and return the identity of the retained object. The VM deduplicates
    /// equal string contents to one object, so equal contents always yield
    /// equal identities.
    fn intern_object(&mut self, s: &str) -> (id: usize)
        requires
            old(self).wf(),
        ensures
            final(self).wf(),
            id < final(self).strings_view().len(),
            final(self).strings_view()[id as int] == s@,
            old(self).strings_view().contains(s@) ==> final(self).strings_view() == old(
                self,
            ).strings_view(),
            !old(self).strings_view().contains(s@) ==> final(self).strings_view() == old(
                self,
            ).strings_view().push(s@),
            final(self).stack_view() == old(self).stack_view(),
            final(self).userdata_view() == old(self).userdata_view(),
            final(self).metatables_view() == old(self).metatables_view(),
    {
        let needle = String::from_str(s);
        let n = self.strings.len();
        let mut i: usize = 0;
        while i < n
            invariant
                *self == *old(self),
                self.wf(),
                n == self.strings_view().len(),
                i <= n,
                needle@ == s@,
                forall|j: int| 0 <= j < i ==> self.strings_view()[j] != s@,
            decreases n - i,
        {
            if needle.eq(&self.strings[i]) {
                proof {
                    assert(self.strings_view()[i as int] == s@);
                    assert(old(self).strings_view().contains(s@));
                }
                return i;
            }
            i += 1;
        }
        proof {
            assert forall|j: int|
                0 <= j < old(self).strings_view().len() implies old(self).strings_view()[j]
                != s@ by {}
            assert(!old(self).strings_view().contains(s@));
        }
        let id = self.strings.len();
        self.strings.push(needle);
        proof {
            assert(self.strings_view() =~= old(self).strings_view().push(s@));
            assert forall|i2: int| 0 <= i2 < self.stack_view().len() implies self.value_wf(
                #[trigger] self.stack_view()[i2],
            ) by {
                assert(old(self).value_wf(old(self).stack_view()[i2]));
            }
            assert forall|a: int, b: int|
                0 <= a < b < self.strings_view().len() implies self.strings_view()[a]
                != self.strings_view()[b] by {
                if b < id {
                    assert(old(self).strings_view()[a] != old(self).strings_view()[b]);
                } else {
                    assert(self.strings_view()[b] == s@);
                    assert(self.strings_view()[a] == old(self).strings_view()[a]);
                }
            }
            assert(self.wf());
        }
        id
    }

    /// Creates a `LuaString` handle from the passed value. The string is
    /// interned and retained in the registry for the lifetime of this
    /// instance, so the handle stays valid as long as the instance lives.
    pub fn intern(&mut self, s: &str) -> (r: LuaString)
        requires
            old(self).wf(),
        ensures
            final(self).wf(),
            final(self).valid_handle(r),
            final(self).strings_view()[r.id()] == s@,
            old(self).strings_view().contains(s@) ==> final(self).strings_view() == old(
                self,
            ).strings_view(),
            !old(self).strings_view().contains(s@) ==> final(self).strings_view() == old(
                self,
            ).strings_view().push(s@),
            final(self).stack_view() == old(self).stack_view(),
            final(self).userdata_view() == old(self).userdata_view(),
            final(self).metatables_view() == old(self).metatables_view(),
    {
        let id = self.intern_object(s);
        LuaString(id)
    }

    /// True when the handle names a string object retained by this
    /// instance. Handles of one instance are valid only for that instance.
    pub open spec fn valid_handle(&self, ls: LuaString) -> bool {
        0 <= ls.id() < self.strings_view().len()
    }

    /// Read the retained content a handle stands for.
    pub fn handle_content(&self, ls: &LuaString) -> (r: &String)
        requires
            self.wf(),
            self.valid_handle(*ls),
        ensures
            r@ == self.strings_view()[ls.id()],
    {
        &self.strings[ls.0]
    }

    /// Record a tag in the metatable cache if it is not there yet.
    fn ensure_metatable(&mut self, tag: u64)
        requires
            old(self).wf(),
        ensures
            final(self).wf(),
            old(self).metatables_view().contains(tag) ==> final(self).metatables_view() == old(
                self,
            ).metatables_view(),
            !old(self).metatables_view().contains(tag) ==> final(self).metatables_view() == old(
                self,
            ).metatables_view().push(tag),
            final(self).metatables_view().contains(tag),
            final(self).stack_view() == old(self).stack_view(),
            final(self).strings_view() == old(self).strings_view(),
            final(self).userdata_view() == old(self).userdata_view(),
    {
        let n = self.metatables.len();
        let mut i: usize = 0;
        while i < n
            invariant
                *self == *old(self),
                self.wf(),
                n == self.metatables_view().len(),
                i <= n,
                forall|j: int| 0 <= j < i ==> self.metatables_view()[j] != tag,
            decreases n - i,
        {
            if self.metatables[i] == tag {
                proof {
                    assert(old(self).metatables_view().contains(tag));
                }
                return ;
            }
            i += 1;
        }
        proof {
            assert(!old(self).metatables_view().contains(tag));
        }
        self.metatables.push(tag);
        proof {
            assert(self.metatables_view().last() == tag);
            assert(self.metatables_view().contains(tag));
            assert forall|i2: int| 0 <= i2 < self.stack_view().len() implies old(self).value_wf(
                #[trigger] self.stack_view()[i2],
            ) by {
                assert(old(self).value_wf(old(self).stack_view()[i2]));
            }
            Self::wf_frame(*old(self), *self);
        }
    }

    /// Gets (or creates) the metatable associated with the given type
    /// identity and pushes it onto the top of the stack. The table is
    /// created once per type per instance and reused thereafter, so
    /// repeated pushes of one host type share one finalizer-bearing table.
    pub fn get_or_create_metatable(&mut self, tag: u64)
        requires
            old(self).wf(),
            old(self).stack_view().len() < LUAI_MAXSTACK as nat,
        ensures
            final(self).wf(),
            final(self).stack_view() == old(self).stack_view().push(Value::Table(tag)),
            old(self).metatables_view().contains(tag) ==> final(self).metatables_view() == old(
                self,
            ).metatables_view(),
            !old(self).metatables_view().contains(tag) ==> final(self).metatables_view() == old(
                self,
            ).metatables_view().push(tag),
            final(self).metatables_view().contains(tag),
            final(self).strings_view() == old(self).strings_view(),
            final(self).userdata_view() == old(self).userdata_view(),
    {
        self.ensure_metatable(tag);
        self.push_raw(Value::Table(tag));
    }

    /// The bytes stored at `idx` for host type `tag`: `Some` exactly when
    /// the position holds a userdata record boxing a host value of that
    /// type identity.
    pub open spec fn userdata_bytes_at(&self, idx: LuaIndex, tag: u64) -> Option<Seq<u8>> {
        match self.value_at_opt(idx) {
            Some(Value::Userdata(id)) => match self.userdata_view()[id as int].payload {
                UserdataPayload::Bytes { tag: t, data } => if t == tag {
                    Some(data@)
                } else {
                    None
                },
                _ => None,
            },
            _ => None,
        }
    }

    /// Transfers a host value (its bytes, boxed with the identity tag of
    /// its host type) into a userdata record owned by the collector, and
    /// associates the cached metatable for that type, creating the table on
    /// first use so its finalizer can destruct exactly that type.
    pub fn push_userdata(&mut self, tag: u64, data: Vec<u8>)
        requires
            old(self).wf(),
            old(self).stack_view().len() < LUAI_MAXSTACK as nat,
        ensures
            final(self).wf(),
            final(self).userdata_view() == old(self).userdata_view().push(
                UserdataRecord {
                    finalizable: true,
                    payload: UserdataPayload::Bytes { tag, data },
                },
            ),
            final(self).stack_view() == old(self).stack_view().push(
                Value::Userdata(old(self).userdata_view().len() as usize),
            ),
            old(self).metatables_view().contains(tag) ==> final(self).metatables_view() == old(
                self,
            ).metatables_view(),
            !old(self).metatables_view().contains(tag) ==> final(self).metatables_view() == old(
                self,
            ).metatables_view().push(tag),
            final(self).metatables_view().contains(tag),
            final(self).strings_view() == old(self).strings_view(),
    {
        let id = self.userdata.len();
        self.userdata.push(
            UserdataRecord { finalizable: true, payload: UserdataPayload::Bytes { tag, data } },
        );
        proof {
            Self::wf_grow(*old(self), *self);
        }
        self.ensure_metatable(tag);
        self.push_raw(Value::Userdata(id));
    }

    /// Wraps a run error for transport through the VM's error channel: the
    /// error value is boxed as a userdata record so it survives the
    /// transport unchanged.
    pub fn push_error_userdata(&mut self, e: crate::RunError)
        requires
            old(self).wf(),
            old(self).stack_view().len() < LUAI_MAXSTACK as nat,
        ensures
            final(self).wf(),
            old(self).userdata_view().len() < usize::MAX as nat,
            final(self).userdata_view() == old(self).userdata_view().push(
                UserdataRecord { finalizable: true, payload: UserdataPayload::ErrorValue(e) },
            ),
            final(self).stack_view() == old(self).stack_view().push(
                Value::Userdata(old(self).userdata_view().len() as usize),
            ),
            final(self).error_in_flight_at(LuaIndex::Stack(-1i32)) == Some(e),
            final(self).strings_view() == old(self).strings_view(),
            final(self).metatables_view() == old(self).metatables_view(),
    {
        self.userdata.push(
            UserdataRecord { finalizable: true, payload: UserdataPayload::ErrorValue(e) },
        );
        let id = self.userdata.len() - 1;
        proof {
            Self::wf_grow(*old(self), *self);
        }
        self.push_raw(Value::Userdata(id));
        proof {
            assert(self.stack_view().last() == Value::Userdata(id));
            assert(self.value_at_opt(LuaIndex::Stack(-1i32)) == Some(Value::Userdata(id)));
        }
    }

    /// Wraps an opaque host fault for transport through the VM's error
    /// channel, boxed as a userdata record like a run error.
    pub fn push_fault_userdata(&mut self, payload: u64)
        requires
            old(self).wf(),
            old(self).stack_view().len() < LUAI_MAXSTACK as nat,
        ensures
            final(self).wf(),
            old(self).userdata_view().len() < usize::MAX as nat,
            final(self).userdata_view() == old(self).userdata_view().push(
                UserdataRecord { finalizable: true, payload: UserdataPayload::FaultValue(payload) },
            ),
            final(self).stack_view() == old(self).stack_view().push(
                Value::Userdata(old(self).userdata_view().len() as usize),
            ),
            final(self).fault_in_flight_at(LuaIndex::Stack(-1i32)) == Some(payload),
            final(self).strings_view() == old(self).strings_view(),
            final(self).metatables_view() == old(self).metatables_view(),
    {
        self.userdata.push(
            UserdataRecord { finalizable: true, payload: UserdataPayload::FaultValue(payload) },
        );
        let id = self.userdata.len() - 1;
        proof {
            Self::wf_grow(*old(self), *self);
        }
        self.push_raw(Value::Userdata(id));
        proof {
            assert(self.stack_view().last() == Value::Userdata(id));
            assert(self.value_at_opt(LuaIndex::Stack(-1i32)) == Some(Value::Userdata(id)));
        }
    }

    /// Returns a reference to the bytes stored in the userdata record at
    /// the given index, provided the position holds a userdata record and
    /// its embedded type tag matches. A mismatch is a typed conversion
    /// error naming the host type, never a crash.
    pub fn userdata_at(&self, idx: LuaIndex, tag: u64, host_type: &'static str) -> (r: crate::RunResult<
        &Vec<u8>,
    >)
        requires
            self.wf(),
            idx is Stack,
        ensures
            self.userdata_bytes_at(idx, tag) matches Some(bytes) ==> r matches Ok(d) && d@
                == bytes,
            self.userdata_bytes_at(idx, tag) is None ==> (r matches Err(e) && e.message@
                == crate::conversion_from_lua_message(self.type_at_spec(idx), host_type@)
                && e.backtrace@.len() == 0),
    {
        match self.value_at_offset(idx.to_stack()) {
            Some(Value::Userdata(id)) => {
                proof {
                    let q = resolve_spec(self.stack_view().len(), idx->Stack_0 as int);
                    assert(self.value_wf(self.stack_view()[q]));
                }
                match &self.userdata[id].payload {
                    UserdataPayload::Bytes { tag: t, data } => {
                        if *t == tag {
                            Ok(data)
                        } else {
                            Err(
                                crate::RunError::conversion_from_lua(
                                    Some(LuaType::Userdata),
                                    host_type,
                                    Vec::new(),
                                ),
                            )
                        }
                    },
                    _ => Err(
                        crate::RunError::conversion_from_lua(
                            Some(LuaType::Userdata),
                            host_type,
                            Vec::new(),
                        ),
                    ),
                }
            },
            _ => Err(
                crate::RunError::conversion_from_lua(self.type_at(idx), host_type, Vec::new()),
            ),
        }
    }

    /// Moves a host value out of the VM back into the host. The record
    /// stays with the collector but is rendered permanently inert: its
    /// metatable is stripped first, so the finalizer can never run, and the
    /// payload is marked moved so this can happen at most once.
    pub fn userdata_move(&mut self, idx: LuaIndex, tag: u64, host_type: &'static str) -> (r: crate::RunResult<
        Vec<u8>,
    >)
        requires
            old(self).wf(),
            idx is Stack,
        ensures
            final(self).wf(),
            final(self).stack_view() == old(self).stack_view(),
            final(self).strings_view() == old(self).strings_view(),
            final(self).metatables_view() == old(self).metatables_view(),
            old(self).userdata_bytes_at(idx, tag) matches Some(bytes) ==> r matches Ok(d) && d@
                == bytes,
            old(self).userdata_bytes_at(idx, tag) is None ==> (r matches Err(e) && e.message@
                == crate::conversion_from_lua_message(old(self).type_at_spec(idx), host_type@)
                && e.backtrace@.len() == 0),
            old(self).value_at_opt(idx) matches Some(Value::Userdata(id))
                ==> final(self).userdata_view()[id as int].finalizable == false
                && (old(self).userdata_bytes_at(idx, tag) is Some
                ==> final(self).userdata_view()[id as int].payload is Moved),
            old(self).value_at_opt(idx) matches Some(v) && !(v is Userdata)
                ==> final(self).userdata_view() == old(self).userdata_view(),
            old(self).value_at_opt(idx) is None
                ==> final(self).userdata_view() == old(self).userdata_view(),
            final(self).userdata_view().len() == old(self).userdata_view().len(),
    {
        match self.value_at_offset(idx.to_stack()) {
            Some(Value::Userdata(id)) => {
                proof {
                    let q = resolve_spec(self.stack_view().len(), idx->Stack_0 as int);
                    assert(self.value_wf(self.stack_view()[q]));
                }
                let mut rec = UserdataRecord { finalizable: false, payload: UserdataPayload::Moved };
                self.userdata.set_and_swap(id, &mut rec);
                let r = match rec.payload {
                    UserdataPayload::Bytes { tag: t, data } => {
                        if t == tag {
                            Ok(data)
                        } else {
                            self.userdata.set(
                                id,
                                UserdataRecord {
                                    finalizable: false,
                                    payload: UserdataPayload::Bytes { tag: t, data },
                                },
                            );
                            Err(
                                crate::RunError::conversion_from_lua(
                                    Some(LuaType::Userdata),
                                    host_type,
                                    Vec::new(),
                                ),
                            )
                        }
                    },
                    other => {
                        self.userdata.set(
                            id,
                            UserdataRecord { finalizable: false, payload: other },
                        );
                        Err(
                            crate::RunError::conversion_from_lua(
                                Some(LuaType::Userdata),
                                host_type,
                                Vec::new(),
                            ),
                        )
                    },
                };
                proof {
                    Self::wf_grow(*old(self), *self);
                }
                r
            },
            _ => Err(
                crate::RunError::conversion_from_lua(self.type_at(idx), host_type, Vec::new()),
            ),
        }
    }

    /// Returns `true` if the value at the given index is a number. The
    /// model reports values by their actual type and does not mirror the
    /// string-to-number coercion of the C interface.
    pub fn is_number(&self, idx: LuaIndex) -> (r: bool)
        requires
            self.wf(),
            idx is Stack,
        ensures
            r == (self.value_at_opt(idx) matches Some(v) && (v is Integer || v is Number)),
    {
        match self.value_at_offset(idx.to_stack()) {
            Some(Value::Integer(_)) => true,
            Some(Value::Number(_)) => true,
            _ => false,
        }
    }

    /// Returns `true` if the value at the given index is a string. The
    /// model reports values by their actual type and does not mirror the
    /// number-to-string coercion of the C interface.
    pub fn is_string(&self, idx: LuaIndex) -> (r: bool)
        requires
            self.wf(),
            idx is Stack,
        ensures
            r == (self.value_at_opt(idx) matches Some(v) && v is Str),
    {
        match self.value_at_offset(idx.to_stack()) {
            Some(Value::Str(_)) => true,
            _ => false,
        }
    }

    /// Returns `true` if the value at the given index is a native function.
    pub fn is_native_function(&self, idx: LuaIndex) -> (r: bool)
        requires
            self.wf(),
            idx is Stack,
        ensures
            r == (self.value_at_opt(idx) matches Some(v) && v is Native),
    {
        match self.value_at_offset(idx.to_stack()) {
            Some(Value::Native(_)) => true,
            _ => false,
        }
    }

    /// Returns `true` if the value at the given index is a number
    /// represented as an integer.
    pub fn is_integer(&self, idx: LuaIndex) -> (r: bool)
        requires
            self.wf(),
            idx is Stack,
        ensures
            r == (self.value_at_opt(idx) matches Some(v) && v is Integer),
    {
        match self.value_at_offset(idx.to_stack()) {
            Some(Value::Integer(_)) => true,
            _ => false,
        }
    }

    /// Returns `true` if the value at the given index is a userdata
    /// (either full or light).
    pub fn is_userdata(&self, idx: LuaIndex) -> (r: bool)
        requires
            self.wf(),
            idx is Stack,
        ensures
            r == (self.value_at_opt(idx) matches Some(v) && (v is Userdata || v is LightUserdata)),
    {
        match self.value_at_offset(idx.to_stack()) {
            Some(Value::Userdata(_)) => true,
            Some(Value::LightUserdata(_)) => true,
            _ => false,
        }
    }

    /// Returns `true` if the given index holds a userdata record boxing a
    /// host value of the given type identity.
    pub fn is_userdata_of_type(&self, idx: LuaIndex, tag: u64) -> (r: bool)
        requires
            self.wf(),
            idx is Stack,
        ensures
            r == (self.userdata_bytes_at(idx, tag) is Some),
    {
        match self.value_at_offset(idx.to_stack()) {
            Some(Value::Userdata(id)) => {
                proof {
                    let q = resolve_spec(self.stack_view().len(), idx->Stack_0 as int);
                    assert(self.value_wf(self.stack_view()[q]));
                }
                match &self.userdata[id].payload {
                    UserdataPayload::Bytes { tag: t, data: _ } => *t == tag,
                    _ => false,
                }
            },
            _ => false,
        }
    }

    /// Returns `true` if the value at the given index is a function
    /// (either native or defined by loaded code).
    pub fn is_function(&self, idx: LuaIndex) -> (r: bool)
        requires
            self.wf(),
            idx is Stack,
        ensures
            r == (self.value_at_opt(idx) matches Some(v) && (v is Function || v is Native)),
    {
        match self.value_at_offset(idx.to_stack()) {
            Some(Value::Function(_)) => true,
            Some(Value::Native(_)) => true,
            _ => false,
        }
    }

    /// Returns `true` if the value at the given index is a table.
    pub fn is_table(&self, idx: LuaIndex) -> (r: bool)
        requires
            self.wf(),
            idx is Stack,
        ensures
            r == (self.value_at_opt(idx) matches Some(v) && v is Table),
    {
        match self.value_at_offset(idx.to_stack()) {
            Some(Value::Table(_)) => true,
            _ => false,
        }
    }

    /// Returns `true` if the value at the given index is a light userdata.
    pub fn is_light_userdata(&self, idx: LuaIndex) -> (r: bool)
        requires
            self.wf(),
            idx is Stack,
        ensures
            r == (self.value_at_opt(idx) matches Some(v) && v is LightUserdata),
    {
        match self.value_at_offset(idx.to_stack()) {
            Some(Value::LightUserdata(_)) => true,
            _ => false,
        }
    }

    /// Returns `true` if the value at the given index is `nil`.
    pub fn is_nil(&self, idx: LuaIndex) -> (r: bool)
        requires
            self.wf(),
            idx is Stack,
        ensures
            r == (self.value_at_opt(idx) matches Some(v) && v is Nil),
    {
        match self.value_at_offset(idx.to_stack()) {
            Some(Value::Nil) => true,
            _ => false,
        }
    }

    /// Returns `true` if the value at the given index is a boolean.
    pub fn is_boolean(&self, idx: LuaIndex) -> (r: bool)
        requires
            self.wf(),
            idx is Stack,
        ensures
            r == (self.value_at_opt(idx) matches Some(v) && v is Boolean),
    {
        match self.value_at_offset(idx.to_stack()) {
            Some(Value::Boolean(_)) => true,
            _ => false,
        }
    }

    /// Returns `true` if the value at the given index is a thread.
    pub fn is_thread(&self, idx: LuaIndex) -> (r: bool)
        requires
            self.wf(),
            idx is Stack,
        ensures
            r == (self.value_at_opt(idx) matches Some(v) && v is Thread),
    {
        match self.value_at_offset(idx.to_stack()) {
            Some(Value::Thread(_)) => true,
            _ => false,
        }
    }

    /// Returns `true` if the given index is not valid.
    pub fn is_none(&self, idx: LuaIndex) -> (r: bool)
        requires
            self.wf(),
            idx is Stack,
        ensures
            r == (self.value_at_opt(idx) is None),
    {
        match self.value_at_offset(idx.to_stack()) {
            Some(_) => false,
            None => true,
        }
    }

    /// Returns `true` if the given index is not valid or holds `nil`.
    pub fn is_none_or_nil(&self, idx: LuaIndex) -> (r: bool)
        requires
            self.wf(),
            idx is Stack,
        ensures
            r == (self.value_at_opt(idx) is None || self.value_at_opt(idx) == Some(Value::Nil)),
    {
        match self.value_at_offset(idx.to_stack()) {
            Some(Value::Nil) => true,
            Some(_) => false,
            None => true,
        }
    }

    /// Pushes a native closure: the trampoline consumes the `n` associated
    /// upvalues below the top and leaves one function value that dispatches
    /// to the host function named by `fref`. At most 254 values can be
    /// associated, as the trampoline reserves the first upvalue slot for
    /// itself.
    pub fn push_closure(&mut self, fref: u64, n: u32)
        requires
            old(self).wf(),
            n <= 254,
            n <= old(self).stack_view().len(),
            old(self).stack_view().len() < LUAI_MAXSTACK as nat,
        ensures
            final(self).wf(),
            final(self).stack_view() == old(self).stack_view().take(
                old(self).stack_view().len() - n,
            ).push(Value::Native(fref)),
            final(self).strings_view() == old(self).strings_view(),
            final(self).userdata_view() == old(self).userdata_view(),
            final(self).metatables_view() == old(self).metatables_view(),
    {
        self.pop(n as i32);
        self.push_raw(Value::Native(fref));
    }

    /// Pushes a native function: a closure with no associated upvalues.
    pub fn push_function(&mut self, fref: u64)
        requires
            old(self).wf(),
            old(self).stack_view().len() < LUAI_MAXSTACK as nat,
        ensures
            final(self).wf(),
            final(self).stack_view() == old(self).stack_view().push(Value::Native(fref)),
            final(self).strings_view() == old(self).strings_view(),
            final(self).userdata_view() == old(self).userdata_view(),
            final(self).metatables_view() == old(self).metatables_view(),
    {
        self.push_closure(fref, 0);
        proof {
            assert(old(self).stack_view().take(old(self).stack_view().len() as int) =~= old(
                self,
            ).stack_view());
        }
    }

    /// The run error in flight at `idx`, if that position holds the
    /// userdata boxing of one.
    pub open spec fn error_in_flight_at(&self, idx: LuaIndex) -> Option<crate::RunError> {
        match self.value_at_opt(idx) {
            Some(Value::Userdata(id)) => match self.userdata_view()[id as int].payload {
                UserdataPayload::ErrorValue(e) => Some(e),
                _ => None,
            },
            _ => None,
        }
    }

    /// The host fault in flight at `idx`, if that position holds the
    /// userdata boxing of one.
    pub open spec fn fault_in_flight_at(&self, idx: LuaIndex) -> Option<u64> {
        match self.value_at_opt(idx) {
            Some(Value::Userdata(id)) => match self.userdata_view()[id as int].payload {
                UserdataPayload::FaultValue(p) => Some(p),
                _ => None,
            },
            _ => None,
        }
    }

    /// Extracts a run error back out of the VM's error channel: the boxed
    /// error is moved into the host and its record is rendered inert, so
    /// the extraction can happen at most once.
    pub fn take_error_userdata(&mut self, idx: LuaIndex) -> (r: crate::RunError)
        requires
            old(self).wf(),
            idx is Stack,
            old(self).error_in_flight_at(idx) is Some,
        ensures
            final(self).wf(),
            Some(r) == old(self).error_in_flight_at(idx),
            old(self).value_at_opt(idx) matches Some(Value::Userdata(id))
                ==> final(self).userdata_view() == old(self).userdata_view().update(
                id as int,
                UserdataRecord { finalizable: false, payload: UserdataPayload::Moved },
            ),
            final(self).stack_view() == old(self).stack_view(),
            final(self).strings_view() == old(self).strings_view(),
            final(self).metatables_view() == old(self).metatables_view(),
    {
        match self.value_at_offset(idx.to_stack()) {
            Some(Value::Userdata(id)) => {
                proof {
                    let q = resolve_spec(self.stack_view().len(), idx->Stack_0 as int);
                    assert(self.value_wf(self.stack_view()[q]));
                }
                let mut rec = UserdataRecord { finalizable: false, payload: UserdataPayload::Moved };
                self.userdata.set_and_swap(id, &mut rec);
                proof {
                    Self::wf_grow(*old(self), *self);
                }
                match rec.payload {
                    UserdataPayload::ErrorValue(e) => e,
                    _ => unreached(),
                }
            },
            _ => unreached(),
        }
    }

    /// Extracts a host fault back out of the VM's error channel, like
    /// `take_error_userdata`.
    pub fn take_fault_userdata(&mut self, idx: LuaIndex) -> (r: u64)
        requires
            old(self).wf(),
            idx is Stack,
            old(self).fault_in_flight_at(idx) is Some,
        ensures
            final(self).wf(),
            Some(r) == old(self).fault_in_flight_at(idx),
            old(self).value_at_opt(idx) matches Some(Value::Userdata(id))
                ==> final(self).userdata_view() == old(self).userdata_view().update(
                id as int,
                UserdataRecord { finalizable: false, payload: UserdataPayload::Moved },
            ),
            final(self).stack_view() == old(self).stack_view(),
            final(self).strings_view() == old(self).strings_view(),
            final(self).metatables_view() == old(self).metatables_view(),
    {
        match self.value_at_offset(idx.to_stack()) {
            Some(Value::Userdata(id)) => {
                proof {
                    let q = resolve_spec(self.stack_view().len(), idx->Stack_0 as int);
                    assert(self.value_wf(self.stack_view()[q]));
                }
                let mut rec = UserdataRecord { finalizable: false, payload: UserdataPayload::Moved };
                self.userdata.set_and_swap(id, &mut rec);
                proof {
                    Self::wf_grow(*old(self), *self);
                }
                match rec.payload {
                    UserdataPayload::FaultValue(p) => p,
                    _ => unreached(),
                }
            },
            _ => unreached(),
        }
    }

    /// The raw type tag of a value, as the C interface reports it.
    fn type_code_of(&self, v: &Value) -> (r: i32)
        ensures
            crate::codes::is_lua_type_code(r),
            crate::codes::lua_type_of_code_spec(r) == lua_type_of_value(*v),
    {
        match *v {
            Value::Nil => crate::codes::LUA_TNIL,
            Value::Boolean(_) => crate::codes::LUA_TBOOLEAN,
            Value::Integer(_) => crate::codes::LUA_TNUMBER,
            Value::Number(_) => crate::codes::LUA_TNUMBER,
            Value::Str(_) => crate::codes::LUA_TSTRING,
            Value::Table(_) => crate::codes::LUA_TTABLE,
            Value::Function(_) => crate::codes::LUA_TFUNCTION,
            Value::Native(_) => crate::codes::LUA_TFUNCTION,
            Value::LightUserdata(_) => crate::codes::LUA_TLIGHTUSERDATA,
            Value::Userdata(_) => crate::codes::LUA_TUSERDATA,
            Value::Thread(_) => crate::codes::LUA_TTHREAD,
        }
    }
}

/// Interning is deterministic: two handles of one instance that stand for
/// equal string content are the same handle, because the instance retains
/// one string object per distinct content. In particular, interning the
/// same string twice yields handles that compare equal.
pub proof fn lemma_intern_deterministic(vm: Vm, s: Seq<char>, h1: LuaString, h2: LuaString)
    requires
        vm.wf(),
        vm.valid_handle(h1),
        vm.strings_view()[h1.id()] == s,
        vm.valid_handle(h2),
        vm.strings_view()[h2.id()] == s,
    ensures
        h1 == h2,
{
    if h1.id() < h2.id() {
        assert(vm.strings_view()[h1.id()] != vm.strings_view()[h2.id()]);
    } else if h2.id() < h1.id() {
        assert(vm.strings_view()[h2.id()] != vm.strings_view()[h1.id()]);
    }
}

/// The interning round trip: a handle obtained for a string `s`, pushed on
/// the stack of any later state of the instance that still retains the
/// same object for it, reads back as exactly `s`.
pub proof fn lemma_intern_round_trip(
    vm: Vm,
    s: Seq<char>,
    h: LuaString,
    post_stack: Seq<Value>,
    post_strings: Seq<Seq<char>>,
    read: crate::RunResult<String>,
)
    requires
        vm.stack_view().len() > 0,
        vm.stack_view().last() matches Value::Str(id) && id as int == h.id(),
        vm.valid_handle(h),
        vm.strings_view()[h.id()] == s,
        <String as crate::convert::FromLua>::from_lua_post(
            vm,
            post_stack,
            post_strings,
            LuaIndex::Stack(-1i32),
            read,
        ),
    ensures
        read matches Ok(rs) && rs@ == s,
{
    assert(vm.value_at_opt(LuaIndex::Stack(-1i32)) == Some(vm.stack_view().last()));
}

/// Userdata identity: a host value just transferred into a userdata record
/// reads back, through the typed accessor keyed by its own type identity,
/// as exactly the bytes that went in; keyed by any other type identity the
/// accessor finds nothing and reports a conversion error instead, never an
/// unchecked reinterpretation.
pub proof fn lemma_userdata_identity(
    pre: Vm,
    vm: Vm,
    id: usize,
    tag: u64,
    other_tag: u64,
    data: Vec<u8>,
)
    requires
        id == pre.userdata_view().len(),
        vm.stack_view() == pre.stack_view().push(Value::Userdata(id)),
        vm.userdata_view() == pre.userdata_view().push(
            UserdataRecord { finalizable: true, payload: UserdataPayload::Bytes { tag, data } },
        ),
    ensures
        vm.userdata_bytes_at(LuaIndex::Stack(-1i32), tag) == Some(data@),
        other_tag != tag ==> vm.userdata_bytes_at(LuaIndex::Stack(-1i32), other_tag) is None,
{
    assert(vm.value_at_opt(LuaIndex::Stack(-1i32)) == Some(Value::Userdata(id)));
    assert(vm.userdata_view()[id as int] == UserdataRecord {
        finalizable: true,
        payload: UserdataPayload::Bytes { tag, data },
    });
}

/// The stack after rotating the segment from 0-based position `q` to the
/// top by `n` toward the top (negative `n`: by `-n` toward the bottom).
pub open spec fn rotate_spec(s: Seq<Value>, q: int, n: int) -> Seq<Value> {
    let seg = s.subrange(q, s.len() as int);
    let m = if n >= 0 {
        n
    } else {
        seg.len() + n
    };
    s.subrange(0, q) + seg.subrange(seg.len() - m, seg.len() as int) + seg.subrange(
        0,
        seg.len() - m,
    )
}

} // verus!
