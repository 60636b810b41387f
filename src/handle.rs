//! Handles to register blocks: every register access is checked against the
//! block's derived definition and resolved to an address.
//!
//! A handle decides whether an access is allowed and where it goes; the
//! access itself is made on a memory. [`RegisterMemory`] is a simulated one,
//! a run of 32-bit words starting at address zero.
use crate::access::{AccessModifiers, ReadAccess};
use crate::block::{kind_bytes, FieldKind, KindView, WrapperDef};
use crate::{OutOfBoundsError, SharedInnerMmio};
use vstd::prelude::*;

verus! {

/// Why an access through a handle was refused.
#[derive(Debug, PartialEq, Eq, Structural, Clone, Copy)]
pub enum AccessError {
    /// There is no field of the required shape at that position.
    NoSuchField,
    /// The field does not have the capability the access needs.
    NotPermitted,
    /// The read has side effects and needs the handle exclusively.
    NeedsExclusive,
    /// The register is not an aligned 32-bit register.
    Unsupported,
    /// The definition given for a nested block does not have its size.
    SizeMismatch,
    /// The index is past the end of the array.
    OutOfBounds(OutOfBoundsError),
}

/// What an access does to a register.
#[derive(Debug, PartialEq, Eq, Structural, Clone, Copy)]
pub enum Capability {
    Read,
    Write,
    Modify,
}

/// Whether a capability set allows an access.
pub open spec fn permits(a: AccessModifiers, c: Capability) -> bool {
    match c {
        Capability::Read => a.read is Some,
        Capability::Write => a.write,
        Capability::Modify => a.modify,
    }
}

fn permits_exec(a: AccessModifiers, c: Capability) -> (r: bool)
    ensures
        r == permits(a, c),
{
    match c {
        Capability::Read => a.read.is_some(),
        Capability::Write => a.write,
        Capability::Modify => a.modify,
    }
}

/// A simulated register memory: 32-bit words, the word at byte address
/// `a` being the one at position `a / 4`.
#[derive(Debug, Clone)]
pub struct RegisterMemory {
    words: Vec<u32>,
}

impl View for RegisterMemory {
    type V = Seq<u32>;

    closed spec fn view(&self) -> Seq<u32> {
        self.words@
    }
}

/// Whether `addr` is the address of a whole word of a memory of `n` words.
pub open spec fn is_word_address(n: int, addr: int) -> bool {
    0 <= addr && addr % 4 == 0 && addr / 4 < n
}

impl RegisterMemory {
    /// A memory holding the given words.
    pub fn from_words(words: Vec<u32>) -> (r: RegisterMemory)
        ensures
            r@ == words@,
    {
        RegisterMemory { words }
    }

    /// A memory of `n` words, all zero.
    pub fn zeroed(n: usize) -> (r: RegisterMemory)
        ensures
            r@ == Seq::new(n as nat, |i: int| 0u32),
    {
        let mut words: Vec<u32> = Vec::new();
        let mut i: usize = 0;
        while i < n
            invariant
                i <= n,
                words@ == Seq::new(i as nat, |k: int| 0u32),
            decreases n - i,
        {
            words.push(0);
            i = i + 1;
            assert(words@ =~= Seq::new(i as nat, |k: int| 0u32));
        }
        RegisterMemory { words }
    }

    /// The number of words.
    pub fn len(&self) -> (r: usize)
        ensures
            r == self@.len(),
    {
        self.words.len()
    }

    /// The word at byte address `addr`.
    pub fn load(&self, addr: u64) -> (r: u32)
        requires
            is_word_address(self@.len() as int, addr as int),
        ensures
            r == self@[addr as int / 4],
    {
        let w = addr / 4;
        let n = self.words.len();
        assert(w as int == addr as int / 4 && w < n);
        self.words[w as usize]
    }

    /// Stores `v` at byte address `addr`.
    pub fn store(&mut self, addr: u64, v: u32)
        requires
            is_word_address(old(self)@.len() as int, addr as int),
        ensures
            final(self)@ == old(self)@.update(addr as int / 4, v),
    {
        let w = addr / 4;
        let n = self.words.len();
        assert(w as int == addr as int / 4 && w < n);
        self.words.set(w as usize, v);
    }
}


/// Whether an access with capability `c`, made through a shared reference
/// to the handle unless `exclusive`, is allowed on registers with `a`.
pub open spec fn access_check(a: AccessModifiers, c: Capability, exclusive: bool) -> Option<AccessError> {
    if !permits(a, c) {
        Some(AccessError::NotPermitted)
    } else if c == Capability::Read && !exclusive && a.read != Some(ReadAccess::Pure) {
        Some(AccessError::NeedsExclusive)
    } else {
        None
    }
}

fn access_check_exec(a: AccessModifiers, c: Capability, exclusive: bool) -> (r: Option<AccessError>)
    ensures
        r == access_check(a, c, exclusive),
{
    if !permits_exec(a, c) {
        Some(AccessError::NotPermitted)
    } else if matches!(c, Capability::Read) && !exclusive && !matches!(a.read, Some(ReadAccess::Pure)) {
        Some(AccessError::NeedsExclusive)
    } else {
        None
    }
}

/// A handle to one register block: its definition and its base address.
#[derive(Debug)]
pub struct MmioHandle<'a> {
    pub def: &'a WrapperDef,
    pub base: u64,
}

impl<'a> MmioHandle<'a> {
    /// The definition is sound and the block fits below the end of the
    /// address space.
    pub open spec fn wf(self) -> bool {
        self.def.wf() && self.base as int + self.def.size as int <= u64::MAX
    }

    /// The memory holds the whole block.
    pub open spec fn backed_by(self, mem: Seq<u32>) -> bool {
        self.base as int + self.def.size as int <= mem.len() * 4
    }

    /// The address of field `field` from the base of the handle.
    pub open spec fn field_address(self, field: int) -> int {
        self.base as int + self.def.fields@[field].offset as int
    }

    /// Where a single-register access goes, or why it is refused.
    pub open spec fn register_spec(self, field: int, c: Capability, exclusive: bool) -> Result<int, AccessError> {
        if !(0 <= field < self.def.fields@.len()) {
            Err(AccessError::NoSuchField)
        } else {
            let a = self.field_address(field);
            match self.def.fields@[field].kind@ {
                KindView::Register { access, size } => match access_check(access, c, exclusive) {
                    Some(e) => Err(e),
                    None => if size != 4 || a % 4 != 0 {
                        Err(AccessError::Unsupported)
                    } else {
                        Ok(a)
                    },
                },
                _ => Err(AccessError::NoSuchField),
            }
        }
    }

    /// Where an access to element `index` of a register array goes, or why
    /// it is refused: an index past the end is reported with the index.
    pub open spec fn element_spec(self, field: int, index: usize, c: Capability, exclusive: bool) -> Result<int, AccessError> {
        if !(0 <= field < self.def.fields@.len()) {
            Err(AccessError::NoSuchField)
        } else {
            let a = self.field_address(field);
            match self.def.fields@[field].kind@ {
                KindView::RegisterArray { access, len, elem_size } => match access_check(access, c, exclusive) {
                    Some(e) => Err(e),
                    None => if elem_size != 4 || a % 4 != 0 {
                        Err(AccessError::Unsupported)
                    } else if index >= len {
                        Err(AccessError::OutOfBounds(OutOfBoundsError(index)))
                    } else {
                        Ok(a + 4 * index)
                    },
                },
                _ => Err(AccessError::NoSuchField),
            }
        }
    }

    /// A handle to the block `def` at address `addr`.
    pub fn new_mmio_at(def: &'a WrapperDef, addr: u64) -> (r: MmioHandle<'a>)
        requires
            def.wf(),
            addr as int + def.size as int <= u64::MAX,
        ensures
            r.def == def,
            r.base == addr,
            r.wf(),
    {
        MmioHandle { def, base: addr }
    }

    /// A second handle to the same block. Both may be used independently:
    /// keeping their uses apart is up to the caller.
    pub fn duplicate(&self) -> (r: MmioHandle<'a>)
        ensures
            r == *self,
    {
        MmioHandle { def: self.def, base: self.base }
    }

    /// Resolves a single-register access to the address of the register,
    /// for a caller that makes the access itself.
    pub fn register_address(&self, field: usize, c: Capability, exclusive: bool) -> (r: Result<u64, AccessError>)
        requires
            self.wf(),
        ensures
            match self.register_spec(field as int, c, exclusive) {
                Ok(a) => r == Ok::<u64, AccessError>(a as u64) && a + 4 <= self.base + self.def.size,
                Err(e) => r == Err::<u64, AccessError>(e),
            },
    {
        if field >= self.def.fields.len() {
            return Err(AccessError::NoSuchField);
        }
        let p = &self.def.fields[field];
        assert(p.offset as int + kind_bytes(p.kind@) <= self.def.size as int);
        match &p.kind {
            FieldKind::Register { access, size } => {
                if let Some(e) = access_check_exec(*access, c, exclusive) {
                    return Err(e);
                }
                let a = self.base + p.offset;
                if *size != 4 || a % 4 != 0 {
                    return Err(AccessError::Unsupported);
                }
                Ok(a)
            },
            _ => Err(AccessError::NoSuchField),
        }
    }

    /// Resolves an access to an element of a register array to the address
    /// of the element, for a caller that makes the access itself.
    pub fn element_address(&self, field: usize, index: usize, c: Capability, exclusive: bool) -> (r: Result<u64, AccessError>)
        requires
            self.wf(),
        ensures
            match self.element_spec(field as int, index, c, exclusive) {
                Ok(a) => r == Ok::<u64, AccessError>(a as u64) && a + 4 <= self.base + self.def.size,
                Err(e) => r == Err::<u64, AccessError>(e),
            },
    {
        if field >= self.def.fields.len() {
            return Err(AccessError::NoSuchField);
        }
        let p = &self.def.fields[field];
        assert(p.offset as int + kind_bytes(p.kind@) <= self.def.size as int);
        match &p.kind {
            FieldKind::RegisterArray { access, len, elem_size } => {
                if let Some(e) = access_check_exec(*access, c, exclusive) {
                    return Err(e);
                }
                let a = self.base + p.offset;
                if *elem_size != 4 || a % 4 != 0 {
                    return Err(AccessError::Unsupported);
                }
                if index >= *len {
                    return Err(AccessError::OutOfBounds(OutOfBoundsError(index)));
                }
                assert(4 * index + 4 <= *len as int * 4) by (nonlinear_arith)
                    requires
                        index < *len,
                {
                }
                Ok(a + 4 * index as u64)
            },
            _ => Err(AccessError::NoSuchField),
        }
    }

    /// The address of a register (`pointer_to_<field>`), whatever its
    /// capabilities.
    pub fn pointer_to(&self, field: usize) -> (r: Result<u64, AccessError>)
        requires
            self.wf(),
        ensures
            0 <= field < self.def.fields@.len() && self.def.fields@[field as int].kind@ is Register
                ==> r == Ok::<u64, AccessError>(self.field_address(field as int) as u64),
            !(0 <= field < self.def.fields@.len() && self.def.fields@[field as int].kind@ is Register)
                ==> r == Err::<u64, AccessError>(AccessError::NoSuchField),
    {
        if field >= self.def.fields.len() {
            return Err(AccessError::NoSuchField);
        }
        let p = &self.def.fields[field];
        assert(p.offset as int + kind_bytes(p.kind@) <= self.def.size as int);
        match &p.kind {
            FieldKind::Register { .. } => Ok(self.base + p.offset),
            _ => Err(AccessError::NoSuchField),
        }
    }

    /// Reads a register whose read has no side effect (`read_<field>`).
    pub fn read(&self, mem: &RegisterMemory, field: usize) -> (r: Result<u32, AccessError>)
        requires
            self.wf(),
            self.backed_by(mem@),
        ensures
            match self.register_spec(field as int, Capability::Read, false) {
                Ok(a) => r == Ok::<u32, AccessError>(mem@[a / 4]),
                Err(e) => r == Err::<u32, AccessError>(e),
            },
    {
        let a = self.register_address(field, Capability::Read, false)?;
        Ok(mem.load(a))
    }

    /// Reads a register, side effects allowed: the handle is taken exclusively.
    pub fn read_exclusive(&mut self, mem: &RegisterMemory, field: usize) -> (r: Result<u32, AccessError>)
        requires
            old(self).wf(),
            old(self).backed_by(mem@),
        ensures
            *final(self) == *old(self),
            match old(self).register_spec(field as int, Capability::Read, true) {
                Ok(a) => r == Ok::<u32, AccessError>(mem@[a / 4]),
                Err(e) => r == Err::<u32, AccessError>(e),
            },
    {
        let a = self.register_address(field, Capability::Read, true)?;
        Ok(mem.load(a))
    }

    /// Writes a register (`write_<field>`).
    pub fn write(&mut self, mem: &mut RegisterMemory, field: usize, value: u32) -> (r: Result<(), AccessError>)
        requires
            old(self).wf(),
            old(self).backed_by(old(mem)@),
        ensures
            *final(self) == *old(self),
            match old(self).register_spec(field as int, Capability::Write, true) {
                Ok(a) => r is Ok && final(mem)@ == old(mem)@.update(a / 4, value),
                Err(e) => r == Err::<(), AccessError>(e) && final(mem)@ == old(mem)@,
            },
    {
        let a = self.register_address(field, Capability::Write, true)?;
        mem.store(a, value);
        Ok(())
    }

    /// Reads a register, applies `f`, and writes the result back
    /// (`modify_<field>`). The two accesses are not atomic.
    pub fn modify<F: FnOnce(u32) -> u32>(&mut self, mem: &mut RegisterMemory, field: usize, f: F) -> (r: Result<(), AccessError>)
        requires
            old(self).wf(),
            old(self).backed_by(old(mem)@),
            forall|v: u32| f.requires((v,)),
        ensures
            *final(self) == *old(self),
            match old(self).register_spec(field as int, Capability::Modify, true) {
                Ok(a) => r is Ok && exists|w: u32|
                    #[trigger] f.ensures((old(mem)@[a / 4],), w) && final(mem)@ == old(mem)@.update(a / 4, w),
                Err(e) => r == Err::<(), AccessError>(e) && final(mem)@ == old(mem)@,
            },
    {
        let a = self.register_address(field, Capability::Modify, true)?;
        let v = mem.load(a);
        let w = f(v);
        mem.store(a, w);
        Ok(())
    }

    /// The address of the first register of an array (`pointer_to_<field>_start`).
    pub fn pointer_to_start(&self, field: usize) -> (r: Result<u64, AccessError>)
        requires
            self.wf(),
        ensures
            0 <= field < self.def.fields@.len() && self.def.fields@[field as int].kind@ is RegisterArray
                ==> r == Ok::<u64, AccessError>(self.field_address(field as int) as u64),
            !(0 <= field < self.def.fields@.len() && self.def.fields@[field as int].kind@ is RegisterArray)
                ==> r == Err::<u64, AccessError>(AccessError::NoSuchField),
    {
        if field >= self.def.fields.len() {
            return Err(AccessError::NoSuchField);
        }
        let p = &self.def.fields[field];
        assert(p.offset as int + kind_bytes(p.kind@) <= self.def.size as int);
        proof {
            if p.kind@ is RegisterArray {
                assert(kind_bytes(p.kind@) >= 0) by (nonlinear_arith)
                    requires
                        kind_bytes(p.kind@) == p.kind@->RegisterArray_len as int * p.kind@->RegisterArray_elem_size as int,
                {
                }
            }
        }
        match &p.kind {
            FieldKind::RegisterArray { .. } => Ok(self.base + p.offset),
            _ => Err(AccessError::NoSuchField),
        }
    }

    /// Reads element `index` of a register array whose read has no side
    /// effect, checking the index (`read_<field>`).
    pub fn read_element(&self, mem: &RegisterMemory, field: usize, index: usize) -> (r: Result<u32, AccessError>)
        requires
            self.wf(),
            self.backed_by(mem@),
        ensures
            match self.element_spec(field as int, index, Capability::Read, false) {
                Ok(a) => r == Ok::<u32, AccessError>(mem@[a / 4]),
                Err(e) => r == Err::<u32, AccessError>(e),
            },
    {
        let a = self.element_address(field, index, Capability::Read, false)?;
        Ok(mem.load(a))
    }

    /// Reads element `index` of a register array, side effects allowed.
    pub fn read_element_exclusive(&mut self, mem: &RegisterMemory, field: usize, index: usize) -> (r: Result<u32, AccessError>)
        requires
            old(self).wf(),
            old(self).backed_by(mem@),
        ensures
            *final(self) == *old(self),
            match old(self).element_spec(field as int, index, Capability::Read, true) {
                Ok(a) => r == Ok::<u32, AccessError>(mem@[a / 4]),
                Err(e) => r == Err::<u32, AccessError>(e),
            },
    {
        let a = self.element_address(field, index, Capability::Read, true)?;
        Ok(mem.load(a))
    }

    /// Writes element `index` of a register array, checking the index
    /// (`write_<field>`).
    pub fn write_element(&mut self, mem: &mut RegisterMemory, field: usize, index: usize, value: u32) -> (r: Result<(), AccessError>)
        requires
            old(self).wf(),
            old(self).backed_by(old(mem)@),
        ensures
            *final(self) == *old(self),
            match old(self).element_spec(field as int, index, Capability::Write, true) {
                Ok(a) => r is Ok && final(mem)@ == old(mem)@.update(a / 4, value),
                Err(e) => r == Err::<(), AccessError>(e) && final(mem)@ == old(mem)@,
            },
    {
        let a = self.element_address(field, index, Capability::Write, true)?;
        mem.store(a, value);
        Ok(())
    }

    /// Reads element `index` of a register array, applies `f`, and writes
    /// the result back, checking the index once (`modify_<field>`).
    pub fn modify_element<F: FnOnce(u32) -> u32>(&mut self, mem: &mut RegisterMemory, field: usize, index: usize, f: F) -> (r: Result<(), AccessError>)
        requires
            old(self).wf(),
            old(self).backed_by(old(mem)@),
            forall|v: u32| f.requires((v,)),
        ensures
            *final(self) == *old(self),
            match old(self).element_spec(field as int, index, Capability::Modify, true) {
                Ok(a) => r is Ok && exists|w: u32|
                    #[trigger] f.ensures((old(mem)@[a / 4],), w) && final(mem)@ == old(mem)@.update(a / 4, w),
                Err(e) => r == Err::<(), AccessError>(e) && final(mem)@ == old(mem)@,
            },
    {
        let a = self.element_address(field, index, Capability::Modify, true)?;
        let v = mem.load(a);
        let w = f(v);
        mem.store(a, w);
        Ok(())
    }

    /// The number of blocks in an array of nested blocks (`<field>_array_len`).
    pub fn block_array_len(&self, field: usize) -> (r: Result<usize, AccessError>)
        ensures
            match (0 <= field < self.def.fields@.len(), r) {
                (true, _) => match self.def.fields@[field as int].kind@ {
                    KindView::BlockArray { len, .. } => r == Ok::<usize, AccessError>(len),
                    _ => r == Err::<usize, AccessError>(AccessError::NoSuchField),
                },
                (false, _) => r == Err::<usize, AccessError>(AccessError::NoSuchField),
            },
    {
        if field >= self.def.fields.len() {
            return Err(AccessError::NoSuchField);
        }
        match &self.def.fields[field].kind {
            FieldKind::BlockArray { len, .. } => Ok(*len),
            _ => Err(AccessError::NoSuchField),
        }
    }

    /// Where the nested block of field `field` starts, or why there is none;
    /// `inner_size` is the size of the definition offered for it.
    pub open spec fn block_spec(self, field: int, inner_size: u64) -> Result<int, AccessError> {
        if !(0 <= field < self.def.fields@.len()) {
            Err(AccessError::NoSuchField)
        } else {
            match self.def.fields@[field].kind@ {
                KindView::Block { size, .. } => if size != inner_size {
                    Err(AccessError::SizeMismatch)
                } else {
                    Ok(self.field_address(field))
                },
                _ => Err(AccessError::NoSuchField),
            }
        }
    }

    /// Where element `index` of an array of nested blocks starts, or why
    /// there is none.
    pub open spec fn block_element_spec(self, field: int, index: usize, inner_size: u64) -> Result<int, AccessError> {
        if !(0 <= field < self.def.fields@.len()) {
            Err(AccessError::NoSuchField)
        } else {
            match self.def.fields@[field].kind@ {
                KindView::BlockArray { len, elem_size, .. } => if elem_size != inner_size {
                    Err(AccessError::SizeMismatch)
                } else if index >= len {
                    Err(AccessError::OutOfBounds(OutOfBoundsError(index)))
                } else {
                    Ok(self.field_address(field) + index * elem_size)
                },
                _ => Err(AccessError::NoSuchField),
            }
        }
    }

    /// A handle to the nested block of field `field`, whose definition is
    /// `inner` (`steal_<field>`). The handle is independent of this one:
    /// any number may be made, and keeping their uses apart is up to the
    /// caller.
    pub fn steal<'b>(&self, field: usize, inner: &'b WrapperDef) -> (r: Result<MmioHandle<'b>, AccessError>)
        requires
            self.wf(),
            inner.wf(),
        ensures
            match self.block_spec(field as int, inner.size) {
                Ok(a) => r matches Ok(h) && h.def == inner && h.base == a && h.wf(),
                Err(e) => r matches Err(d) && d == e,
            },
    {
        if field >= self.def.fields.len() {
            return Err(AccessError::NoSuchField);
        }
        let p = &self.def.fields[field];
        assert(p.offset as int + kind_bytes(p.kind@) <= self.def.size as int);
        match &p.kind {
            FieldKind::Block { size, .. } => {
                if *size != inner.size {
                    return Err(AccessError::SizeMismatch);
                }
                Ok(MmioHandle { def: inner, base: self.base + p.offset })
            },
            _ => Err(AccessError::NoSuchField),
        }
    }

    /// A handle to element `index` of an array of nested blocks, checking
    /// the index (`steal_<field>`).
    pub fn steal_element<'b>(&self, field: usize, index: usize, inner: &'b WrapperDef) -> (r: Result<MmioHandle<'b>, AccessError>)
        requires
            self.wf(),
            inner.wf(),
        ensures
            match self.block_element_spec(field as int, index, inner.size) {
                Ok(a) => r matches Ok(h) && h.def == inner && h.base == a && h.wf(),
                Err(e) => r matches Err(d) && d == e,
            },
    {
        if field >= self.def.fields.len() {
            return Err(AccessError::NoSuchField);
        }
        let p = &self.def.fields[field];
        assert(p.offset as int + kind_bytes(p.kind@) <= self.def.size as int);
        match &p.kind {
            FieldKind::BlockArray { len, elem_size, .. } => {
                if *elem_size != inner.size {
                    return Err(AccessError::SizeMismatch);
                }
                if index >= *len {
                    return Err(AccessError::OutOfBounds(OutOfBoundsError(index)));
                }
                assert(index * *elem_size + *elem_size <= *len as int * *elem_size) by (nonlinear_arith)
                    requires
                        index < *len,
                {
                }
                assert(index * *elem_size >= 0) by (nonlinear_arith);
                let off = index as u64 * *elem_size;
                Ok(MmioHandle { def: inner, base: self.base + p.offset + off })
            },
            _ => Err(AccessError::NoSuchField),
        }
    }

    /// A handle to the nested block of field `field`, whose definition is
    /// `inner` (`<field>`). It borrows this handle exclusively for as long
    /// as it is used, so no other accessor of this handle, and no second
    /// such handle, can be used meanwhile.
    pub fn nested<'s>(&'s mut self, field: usize, inner: &'s WrapperDef) -> (r: Result<MmioHandle<'s>, AccessError>)
        requires
            old(self).wf(),
            inner.wf(),
        ensures
            *final(self) == *old(self),
            match old(self).block_spec(field as int, inner.size) {
                Ok(a) => r matches Ok(h) && h.def == inner && h.base == a && h.wf(),
                Err(e) => r matches Err(d) && d == e,
            },
    {
        self.steal(field, inner)
    }

    /// A handle to element `index` of an array of nested blocks, checking
    /// the index (`<field>`); it borrows this handle exclusively.
    pub fn nested_element<'s>(&'s mut self, field: usize, index: usize, inner: &'s WrapperDef) -> (r: Result<MmioHandle<'s>, AccessError>)
        requires
            old(self).wf(),
            inner.wf(),
        ensures
            *final(self) == *old(self),
            match old(self).block_element_spec(field as int, index, inner.size) {
                Ok(a) => r matches Ok(h) && h.def == inner && h.base == a && h.wf(),
                Err(e) => r matches Err(d) && d == e,
            },
    {
        self.steal_element(field, index, inner)
    }

    /// The read-only projection of the nested block of field `field`
    /// (`<field>_shared`): only a shared reference to its handle is handed
    /// out, so only non-mutating accessors can be used through it.
    pub fn nested_shared<'s>(&'s self, field: usize, inner: &'s WrapperDef) -> (r: Result<SharedInnerMmio<MmioHandle<'s>>, AccessError>)
        requires
            self.wf(),
            inner.wf(),
        ensures
            match self.block_spec(field as int, inner.size) {
                Ok(a) => r matches Ok(s) && s.value().def == inner && s.value().base == a && s.value().wf(),
                Err(e) => r matches Err(d) && d == e,
            },
    {
        match self.steal(field, inner) {
            Ok(h) => Ok(SharedInnerMmio::__new_internal(h)),
            Err(e) => Err(e),
        }
    }

    /// The read-only projection of element `index` of an array of nested
    /// blocks, checking the index (`<field>_shared`).
    pub fn nested_element_shared<'s>(&'s self, field: usize, index: usize, inner: &'s WrapperDef) -> (r: Result<SharedInnerMmio<MmioHandle<'s>>, AccessError>)
        requires
            self.wf(),
            inner.wf(),
        ensures
            match self.block_element_spec(field as int, index, inner.size) {
                Ok(a) => r matches Ok(s) && s.value().def == inner && s.value().base == a && s.value().wf(),
                Err(e) => r matches Err(d) && d == e,
            },
    {
        match self.steal_element(field, index, inner) {
            Ok(h) => Ok(SharedInnerMmio::__new_internal(h)),
            Err(e) => Err(e),
        }
    }
}

} // verus!
