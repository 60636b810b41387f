//! Properties of the analysis and of handles that hold for all inputs.
use crate::access::{
    field_access_spec, initial_state, keyword_of, scan_tokens, AccessModifiers, AnnotationToken,
    FieldAccess, Keyword, ParseState, ReadAccess,
};
use crate::block::{check_spec, field_kind_spec, methods_spec, BlockDecl, BlockOptions, KindView};
use crate::error::GenError;
use crate::handle::{access_check, AccessError, Capability, MmioHandle};
use crate::layout::{is_reserved_name, total_bytes, FieldDecl, FieldType};
use crate::synth::{
    array_methods_spec, mv, nested_array_methods_spec, nested_methods_spec, read_receiver,
    scalar_methods_spec, MethodView, Operation, Receiver,
};
use crate::OutOfBoundsError;
use vstd::prelude::*;

verus! {

/// A register field given without any access token can be read (through a
/// shared reference), written and modified.
pub proof fn lemma_default_capabilities(f: FieldDecl, i: usize, o: BlockOptions)
    requires
        f.annotations@.len() == 0,
        !is_reserved_name(f.name@),
        f.ty is Path,
    ensures
        field_kind_spec(f, i) == Ok::<KindView, GenError>(
            KindView::Register { access: AccessModifiers::read_write(), size: f.ty->Path_size },
        ),
        methods_spec(f.name@, field_kind_spec(f, i)->Ok_0, o).contains(
            mv("read_"@ + f.name@, Operation::Read, Receiver::Shared, false, false, false, false),
        ),
        methods_spec(f.name@, field_kind_spec(f, i)->Ok_0, o).contains(
            mv("write_"@ + f.name@, Operation::Write, Receiver::Exclusive, false, false, false, false),
        ),
        methods_spec(f.name@, field_kind_spec(f, i)->Ok_0, o).contains(
            mv("modify_"@ + f.name@, Operation::Modify, Receiver::Exclusive, false, false, false, false),
        ),
{
    let ms = methods_spec(f.name@, field_kind_spec(f, i)->Ok_0, o);
    assert(ms[1] == mv("read_"@ + f.name@, Operation::Read, Receiver::Shared, false, false, false, false));
    assert(ms[2] == mv("write_"@ + f.name@, Operation::Write, Receiver::Exclusive, false, false, false, false));
    assert(ms[3] == mv("modify_"@ + f.name@, Operation::Modify, Receiver::Exclusive, false, false, false, false));
}

/// A field annotated `PureRead` alone is read-only: none of its accessors
/// writes or modifies.
pub proof fn lemma_pure_read_only(toks: Seq<AnnotationToken>, f: FieldDecl, i: usize, o: BlockOptions)
    requires
        toks.len() == 1,
        toks[0] matches AnnotationToken::Word(w) && w@ == "PureRead"@,
        f.annotations@ == toks,
        !is_reserved_name(f.name@),
    ensures
        field_access_spec(toks, i) == Ok::<FieldAccess, GenError>(
            FieldAccess::Plain(AccessModifiers { read: Some(ReadAccess::Pure), write: false, modify: false }),
        ),
        forall|k: int|
            0 <= k < methods_spec(f.name@, field_kind_spec(f, i)->Ok_0, o).len() ==> {
                let m = #[trigger] methods_spec(f.name@, field_kind_spec(f, i)->Ok_0, o)[k];
                m.op != Operation::Write && m.op != Operation::Modify
            },
{
    reveal_strlit("PureRead");
    reveal_strlit("Read");
    reveal_strlit("Write");
    reveal_strlit("Modify");
    reveal_strlit("inner");
    reveal_strlit("Inner");
    let w = toks[0]->Word_0;
    assert(w@ == "PureRead"@);
    assert("PureRead"@.len() == 8 && "Read"@.len() == 4);
    assert("PureRead"@ != "Read"@);
    assert(keyword_of(w@) == Some(Keyword::PureRead));
    assert(toks.drop_last() =~= seq![]);
    assert(scan_tokens(toks.drop_last(), i) == Ok::<ParseState, GenError>(initial_state()));
    let a = AccessModifiers { read: Some(ReadAccess::Pure), write: false, modify: false };
    assert(scan_tokens(toks, i) == Ok::<ParseState, GenError>(ParseState { inner: false, access: a }));
    let ms = methods_spec(f.name@, field_kind_spec(f, i)->Ok_0, o);
    match f.ty {
        FieldType::Path { .. } => {
            assert(ms =~= seq![
                mv("pointer_to_"@ + f.name@, Operation::Pointer, Receiver::Shared, false, false, false, o.const_ptr),
                mv("read_"@ + f.name@, Operation::Read, Receiver::Shared, false, false, false, false),
            ]);
        },
        FieldType::Array { .. } => {
            assert(ms =~= seq![
                mv("pointer_to_"@ + f.name@ + "_start"@, Operation::Pointer, Receiver::Shared, false, false, false, o.const_ptr),
                mv("read_"@ + f.name@ + "_unchecked"@, Operation::Read, Receiver::Shared, true, false, true, false),
                mv("read_"@ + f.name@, Operation::Read, Receiver::Shared, true, true, false, false),
            ]);
        },
        FieldType::Other { .. } => {},
    }
}

/// No accessor usable through a shared reference mutates, and every
/// read-only projection is usable through a shared reference.
pub open spec fn shared_safe(ms: Seq<MethodView>) -> bool {
    forall|j: int|
        0 <= j < ms.len() ==> {
            &&& (#[trigger] ms[j]).receiver == Receiver::Shared ==> !ms[j].op.is_mutating()
            &&& (ms[j].op == Operation::NestedShared || ms[j].op == Operation::StealShared)
                ==> ms[j].receiver == Receiver::Shared
        }
}

proof fn lemma_shared_safe_concat(a: Seq<MethodView>, b: Seq<MethodView>)
    requires
        shared_safe(a),
        shared_safe(b),
    ensures
        shared_safe(a + b),
{
    assert forall|j: int| 0 <= j < (a + b).len() implies {
        &&& (#[trigger] (a + b)[j]).receiver == Receiver::Shared ==> !(a + b)[j].op.is_mutating()
        &&& ((a + b)[j].op == Operation::NestedShared || (a + b)[j].op == Operation::StealShared)
            ==> (a + b)[j].receiver == Receiver::Shared
    } by {
        if j < a.len() {
            assert((a + b)[j] == a[j]);
        } else {
            assert((a + b)[j] == b[j - a.len()]);
        }
    }
}

/// Every accessor usable through a shared reference to a handle leaves the
/// registers unchanged; the read-only projections of nested blocks in
/// particular hand out nothing that mutates.
pub proof fn lemma_shared_accessors_do_not_mutate(name: Seq<char>, k: KindView, o: BlockOptions)
    ensures
        shared_safe(methods_spec(name, k, o)),
{
    let e: Seq<MethodView> = seq![];
    assert(shared_safe(e));
    match k {
        KindView::Register { access, .. } => {
            let s = scalar_methods_spec(name, access, o.const_ptr);
            let p = seq![mv("pointer_to_"@ + name, Operation::Pointer, Receiver::Shared, false, false, false, o.const_ptr)];
            let r = if access.read is Some {
                seq![mv("read_"@ + name, Operation::Read, read_receiver(access.read->0), false, false, false, false)]
            } else {
                e
            };
            let w = if access.write {
                seq![mv("write_"@ + name, Operation::Write, Receiver::Exclusive, false, false, false, false)]
            } else {
                e
            };
            let m = if access.modify {
                seq![mv("modify_"@ + name, Operation::Modify, Receiver::Exclusive, false, false, false, false)]
            } else {
                e
            };
            assert(shared_safe(p));
            assert(shared_safe(r));
            assert(shared_safe(w));
            assert(shared_safe(m));
            lemma_shared_safe_concat(p, r);
            lemma_shared_safe_concat(p + r, w);
            lemma_shared_safe_concat(p + r + w, m);
            assert(s == p + r + w + m);
        },
        KindView::RegisterArray { access, .. } => {
            let s = array_methods_spec(name, access, o.const_ptr);
            let p = seq![
                mv("pointer_to_"@ + name + "_start"@, Operation::Pointer, Receiver::Shared, false, false, false, o.const_ptr),
            ];
            let r = if access.read is Some {
                seq![
                    mv("read_"@ + name + "_unchecked"@, Operation::Read, read_receiver(access.read->0), true, false, true, false),
                    mv("read_"@ + name, Operation::Read, read_receiver(access.read->0), true, true, false, false),
                ]
            } else {
                e
            };
            let w = if access.write {
                seq![
                    mv("write_"@ + name + "_unchecked"@, Operation::Write, Receiver::Exclusive, true, false, true, false),
                    mv("write_"@ + name, Operation::Write, Receiver::Exclusive, true, true, false, false),
                ]
            } else {
                e
            };
            let m = if access.modify {
                seq![
                    mv("modify_"@ + name + "_unchecked"@, Operation::Modify, Receiver::Exclusive, true, false, true, false),
                    mv("modify_"@ + name, Operation::Modify, Receiver::Exclusive, true, true, false, false),
                ]
            } else {
                e
            };
            assert(shared_safe(p));
            assert(shared_safe(r));
            assert(shared_safe(w));
            assert(shared_safe(m));
            lemma_shared_safe_concat(p, r);
            lemma_shared_safe_concat(p + r, w);
            lemma_shared_safe_concat(p + r + w, m);
            assert(s == p + r + w + m);
        },
        KindView::Block { .. } => {
            assert(shared_safe(nested_methods_spec(name, o.const_inner)));
        },
        KindView::BlockArray { .. } => {
            assert(shared_safe(nested_array_methods_spec(name, o.const_inner)));
        },
        _ => {},
    }
}

/// A nested handle tied to the borrow of the outer handle needs that
/// handle exclusively, so two of them cannot be held at once; a handle
/// that escapes the borrow can only be had by an unsafe accessor.
pub proof fn lemma_borrowed_nested_handles_exclusive(name: Seq<char>, c: bool)
    ensures
        forall|j: int|
            0 <= j < nested_methods_spec(name, c).len() && (#[trigger] nested_methods_spec(name, c)[j]).op
                == Operation::Nested ==> nested_methods_spec(name, c)[j].receiver == Receiver::Exclusive,
        forall|j: int|
            0 <= j < nested_array_methods_spec(name, c).len() && (#[trigger] nested_array_methods_spec(
                name,
                c,
            )[j]).op == Operation::Nested ==> nested_array_methods_spec(name, c)[j].receiver
                == Receiver::Exclusive,
        forall|j: int|
            0 <= j < nested_methods_spec(name, c).len() && ((#[trigger] nested_methods_spec(name, c)[j]).op
                == Operation::Steal || nested_methods_spec(name, c)[j].op == Operation::StealShared)
                ==> nested_methods_spec(name, c)[j].is_unsafe,
        forall|j: int|
            0 <= j < nested_array_methods_spec(name, c).len() && ((#[trigger] nested_array_methods_spec(
                name,
                c,
            )[j]).op == Operation::Steal || nested_array_methods_spec(name, c)[j].op
                == Operation::StealShared) ==> nested_array_methods_spec(name, c)[j].is_unsafe,
{
}

/// A declaration whose field sizes do not add up to its size is refused.
pub proof fn lemma_size_mismatch_refused(d: BlockDecl)
    requires
        total_bytes(d.fields@) != d.size as int,
    ensures
        check_spec(d) is Err,
{
}

/// On an array of `len` registers that allows the access, every index
/// below `len` is accepted, and every other one is refused with exactly
/// that index.
pub proof fn lemma_array_bounds(h: MmioHandle, field: int, index: usize, c: Capability, exclusive: bool)
    requires
        0 <= field < h.def.fields@.len(),
        h.def.fields@[field].kind@ matches KindView::RegisterArray { access, elem_size, .. } && access_check(
            access,
            c,
            exclusive,
        ) is None && elem_size == 4,
        h.field_address(field) % 4 == 0,
    ensures
        index < h.def.fields@[field].kind@->RegisterArray_len ==> h.element_spec(field, index, c, exclusive)
            == Ok::<int, AccessError>(h.field_address(field) + 4 * index),
        index >= h.def.fields@[field].kind@->RegisterArray_len ==> h.element_spec(field, index, c, exclusive)
            == Err::<int, AccessError>(AccessError::OutOfBounds(OutOfBoundsError(index))),
{
}

/// Where a modify of a register-array element is allowed, the read and the
/// write it stands for are allowed on the same register: a modify is a
/// write of `f` of what a read returns.
pub proof fn lemma_modify_element_is_read_then_write(h: MmioHandle, field: int, index: usize)
    requires
        h.wf(),
        h.element_spec(field, index, Capability::Modify, true) is Ok,
    ensures
        h.element_spec(field, index, Capability::Read, true) == h.element_spec(field, index, Capability::Modify, true),
        h.element_spec(field, index, Capability::Write, true) == h.element_spec(field, index, Capability::Modify, true),
{
    assert(crate::block::kind_consistent(h.def.fields@[field].kind@));
}

/// The same for a single register.
pub proof fn lemma_modify_is_read_then_write(h: MmioHandle, field: int)
    requires
        h.wf(),
        h.register_spec(field, Capability::Modify, true) is Ok,
    ensures
        h.register_spec(field, Capability::Read, true) == h.register_spec(field, Capability::Modify, true),
        h.register_spec(field, Capability::Write, true) == h.register_spec(field, Capability::Modify, true),
{
    assert(crate::block::kind_consistent(h.def.fields@[field].kind@));
}

/// A register that can be written and read reads back what was written.
pub proof fn lemma_write_read_round_trip(h: MmioHandle, mem: Seq<u32>, field: int, v: u32)
    requires
        h.register_spec(field, Capability::Write, true) is Ok,
        h.register_spec(field, Capability::Read, true) is Ok,
        h.register_spec(field, Capability::Write, true)->Ok_0 / 4 < mem.len(),
    ensures
        h.register_spec(field, Capability::Read, true) == h.register_spec(field, Capability::Write, true),
        mem.update(h.register_spec(field, Capability::Write, true)->Ok_0 / 4, v)[h.register_spec(
            field,
            Capability::Read,
            true,
        )->Ok_0 / 4] == v,
{
}

/// The same for an element of a register array.
pub proof fn lemma_write_read_element_round_trip(h: MmioHandle, mem: Seq<u32>, field: int, index: usize, v: u32)
    requires
        h.element_spec(field, index, Capability::Write, true) is Ok,
        h.element_spec(field, index, Capability::Read, true) is Ok,
        h.element_spec(field, index, Capability::Write, true)->Ok_0 / 4 < mem.len(),
    ensures
        h.element_spec(field, index, Capability::Read, true) == h.element_spec(field, index, Capability::Write, true),
        mem.update(h.element_spec(field, index, Capability::Write, true)->Ok_0 / 4, v)[h.element_spec(
            field,
            index,
            Capability::Read,
            true,
        )->Ok_0 / 4] == v,
{
}

/// Two handles to the same block at the same address, such as two handles
/// escaped from one outer handle, resolve every access to the same
/// register: each sees what the other writes.
pub proof fn lemma_escaped_handles_agree(
    a: MmioHandle,
    b: MmioHandle,
    field: int,
    index: usize,
    c: Capability,
    exclusive: bool,
)
    requires
        a.def == b.def,
        a.base == b.base,
    ensures
        a.register_spec(field, c, exclusive) == b.register_spec(field, c, exclusive),
        a.element_spec(field, index, c, exclusive) == b.element_spec(field, index, c, exclusive),
{
}

} // verus!
