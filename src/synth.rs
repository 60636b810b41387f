//! The accessor set a handle offers for each field, by the field's shape.
use crate::access::{AccessModifiers, ReadAccess};
use crate::block::{BlockDecl, BlockOptions, DeclShape};
use crate::error::GenError;
use crate::layout::FieldDecl;
use vstd::prelude::*;
use vstd::string::*;

verus! {

/// The reference to the handle that an accessor takes.
#[derive(Debug, PartialEq, Eq, Structural, Clone, Copy)]
pub enum Receiver {
    /// `&self`: may be used while other shared accessors are in use.
    Shared,
    /// `&mut self`: excludes every other use of the handle meanwhile.
    Exclusive,
}

/// What an accessor does.
#[derive(Debug, PartialEq, Eq, Structural, Clone, Copy)]
pub enum Operation {
    /// Hands out a raw pointer to the register (or to an array's first one).
    Pointer,
    Read,
    Write,
    /// Reads, applies a function, writes the result back.
    Modify,
    /// A handle to a nested block whose lifetime is that of the borrow of
    /// the outer handle.
    Nested,
    /// The read-only projection of `Nested`.
    NestedShared,
    /// A handle to a nested block with an unconstrained lifetime.
    Steal,
    /// The read-only projection of `Steal`.
    StealShared,
    /// The length of an array of nested blocks.
    ArrayLen,
}

impl Operation {
    /// Operations that change registers, or hand out a handle that can.
    pub open spec fn is_mutating(self) -> bool {
        self == Operation::Write || self == Operation::Modify || self == Operation::Nested
            || self == Operation::Steal
    }
}

/// One synthesized accessor.
#[derive(Debug, Clone)]
pub struct MethodSpec {
    pub name: String,
    pub op: Operation,
    pub receiver: Receiver,
    /// Takes an array index.
    pub indexed: bool,
    /// Validates its index and reports an out-of-bounds index as an error.
    pub checked: bool,
    /// The caller must uphold a safety contract.
    pub is_unsafe: bool,
    /// Usable in constant context.
    pub is_const: bool,
}

/// The mathematical value of an accessor.
pub struct MethodView {
    pub name: Seq<char>,
    pub op: Operation,
    pub receiver: Receiver,
    pub indexed: bool,
    pub checked: bool,
    pub is_unsafe: bool,
    pub is_const: bool,
}

impl View for MethodSpec {
    type V = MethodView;

    open spec fn view(&self) -> MethodView {
        MethodView {
            name: self.name@,
            op: self.op,
            receiver: self.receiver,
            indexed: self.indexed,
            checked: self.checked,
            is_unsafe: self.is_unsafe,
            is_const: self.is_const,
        }
    }
}

/// The views of a list of accessors.
pub open spec fn views(ms: Seq<MethodSpec>) -> Seq<MethodView> {
    ms.map_values(|m: MethodSpec| m@)
}

pub open spec fn mv(
    name: Seq<char>,
    op: Operation,
    receiver: Receiver,
    indexed: bool,
    checked: bool,
    is_unsafe: bool,
    is_const: bool,
) -> MethodView {
    MethodView { name, op, receiver, indexed, checked, is_unsafe, is_const }
}

/// A side-effect-free read may be shared; any other read is exclusive.
pub open spec fn read_receiver(r: ReadAccess) -> Receiver {
    if r == ReadAccess::Pure {
        Receiver::Shared
    } else {
        Receiver::Exclusive
    }
}

/// The accessors of a scalar register `f`.
pub open spec fn scalar_methods_spec(f: Seq<char>, a: AccessModifiers, const_ptr: bool) -> Seq<
    MethodView,
> {
    seq![mv("pointer_to_"@ + f, Operation::Pointer, Receiver::Shared, false, false, false, const_ptr)]
        + (if a.read is Some {
        seq![mv("read_"@ + f, Operation::Read, read_receiver(a.read->0), false, false, false, false)]
    } else {
        seq![]
    }) + (if a.write {
        seq![mv("write_"@ + f, Operation::Write, Receiver::Exclusive, false, false, false, false)]
    } else {
        seq![]
    }) + (if a.modify {
        seq![mv("modify_"@ + f, Operation::Modify, Receiver::Exclusive, false, false, false, false)]
    } else {
        seq![]
    })
}

/// The accessors of an array of registers `f`: each operation comes as an
/// unsafe unchecked variant and a bounds-checked one.
pub open spec fn array_methods_spec(f: Seq<char>, a: AccessModifiers, const_ptr: bool) -> Seq<
    MethodView,
> {
    seq![
        mv("pointer_to_"@ + f + "_start"@, Operation::Pointer, Receiver::Shared, false, false, false, const_ptr),
    ] + (if a.read is Some {
        seq![
            mv("read_"@ + f + "_unchecked"@, Operation::Read, read_receiver(a.read->0), true, false, true, false),
            mv("read_"@ + f, Operation::Read, read_receiver(a.read->0), true, true, false, false),
        ]
    } else {
        seq![]
    }) + (if a.write {
        seq![
            mv("write_"@ + f + "_unchecked"@, Operation::Write, Receiver::Exclusive, true, false, true, false),
            mv("write_"@ + f, Operation::Write, Receiver::Exclusive, true, true, false, false),
        ]
    } else {
        seq![]
    }) + (if a.modify {
        seq![
            mv("modify_"@ + f + "_unchecked"@, Operation::Modify, Receiver::Exclusive, true, false, true, false),
            mv("modify_"@ + f, Operation::Modify, Receiver::Exclusive, true, true, false, false),
        ]
    } else {
        seq![]
    })
}

/// The accessors of a nested block `f`.
pub open spec fn nested_methods_spec(f: Seq<char>, const_inner: bool) -> Seq<MethodView> {
    seq![
        mv(f, Operation::Nested, Receiver::Exclusive, false, false, false, const_inner),
        mv(f + "_shared"@, Operation::NestedShared, Receiver::Shared, false, false, false, const_inner),
        mv("steal_"@ + f, Operation::Steal, Receiver::Exclusive, false, false, true, const_inner),
        mv("steal_"@ + f + "_shared"@, Operation::StealShared, Receiver::Shared, false, false, true, const_inner),
    ]
}

/// The accessors of an array of nested blocks `f`.
pub open spec fn nested_array_methods_spec(f: Seq<char>, const_inner: bool) -> Seq<MethodView> {
    seq![
        mv(f, Operation::Nested, Receiver::Exclusive, true, true, false, false),
        mv(f + "_unchecked"@, Operation::Nested, Receiver::Exclusive, true, false, true, false),
        mv(f + "_shared"@, Operation::NestedShared, Receiver::Shared, true, true, false, false),
        mv(f + "_shared_unchecked"@, Operation::NestedShared, Receiver::Shared, true, false, true, const_inner),
        mv("steal_"@ + f, Operation::Steal, Receiver::Exclusive, true, true, true, false),
        mv("steal_"@ + f + "_unchecked"@, Operation::Steal, Receiver::Exclusive, true, false, true, const_inner),
        mv("steal_"@ + f + "_shared"@, Operation::StealShared, Receiver::Shared, true, true, true, false),
        mv("steal_"@ + f + "_shared_unchecked"@, Operation::StealShared, Receiver::Shared, true, false, true, const_inner),
        mv(f + "_array_len"@, Operation::ArrayLen, Receiver::Shared, false, false, false, true),
    ]
}

/// `prefix`, then `f`.
fn prefixed(prefix: &str, f: &String) -> (r: String)
    ensures
        r@ == prefix@ + f@,
{
    String::from_str(prefix).concat(f.as_str())
}

/// `f`, then `suffix`.
fn suffixed(f: &String, suffix: &str) -> (r: String)
    ensures
        r@ == f@ + suffix@,
{
    f.clone().concat(suffix)
}

/// `prefix`, then `f`, then `suffix`.
fn compose(prefix: &str, f: &String, suffix: &str) -> (r: String)
    ensures
        r@ == prefix@ + f@ + suffix@,
{
    String::from_str(prefix).concat(f.as_str()).concat(suffix)
}

fn method(
    name: String,
    op: Operation,
    receiver: Receiver,
    indexed: bool,
    checked: bool,
    is_unsafe: bool,
    is_const: bool,
) -> (r: MethodSpec)
    ensures
        r@ == mv(name@, op, receiver, indexed, checked, is_unsafe, is_const),
{
    MethodSpec { name, op, receiver, indexed, checked, is_unsafe, is_const }
}

fn receiver_for_read(r: ReadAccess) -> (v: Receiver)
    ensures
        v == read_receiver(r),
{
    match r {
        ReadAccess::Pure => Receiver::Shared,
        ReadAccess::Normal => Receiver::Exclusive,
    }
}

proof fn lemma_views_push(ms: Seq<MethodSpec>, m: MethodSpec)
    ensures
        views(ms.push(m)) == views(ms).push(m@),
{
    assert(views(ms.push(m)) =~= views(ms).push(m@));
}

/// Appends an accessor to a list.
fn append_method(ms: &mut Vec<MethodSpec>, m: MethodSpec)
    ensures
        views(final(ms)@) == views(old(ms)@).push(m@),
{
    proof {
        lemma_views_push(ms@, m);
    }
    ms.push(m);
}

/// The synthesis of a block's accessors: the block options, and the handle
/// types of the nested blocks met so far, each of which must carry the
/// marker of a derived handle.
pub struct FieldParser {
    pub bound_checks: Vec<String>,
    pub config: BlockOptions,
}

impl FieldParser {
    /// A synthesis that has met no field yet.
    pub fn new(config: BlockOptions) -> (r: FieldParser)
        ensures
            r.bound_checks@.len() == 0,
            r.config == config,
    {
        FieldParser { bound_checks: Vec::new(), config }
    }

    /// Records a nested block's handle type.
    fn record_bound(&mut self, wrapper: String)
        ensures
            final(self).config == old(self).config,
            final(self).bound_checks@ == old(self).bound_checks@.push(wrapper),
    {
        self.bound_checks.push(wrapper);
    }

    /// The accessors of the scalar register `field`.
    pub fn generate_field_access_methods(&self, field: &String, access: AccessModifiers) -> (r: Vec<
        MethodSpec,
    >)
        ensures
            views(r@) == scalar_methods_spec(field@, access, self.config.const_ptr),
    {
        let const_ptr = self.config.const_ptr;
        let mut ms: Vec<MethodSpec> = Vec::new();
        assert(views(ms@) =~= seq![]);
        append_method(&mut ms, method(prefixed("pointer_to_", field), Operation::Pointer, Receiver::Shared, false, false, false, const_ptr));
        if let Some(r) = access.read {
            append_method(&mut ms, method(prefixed("read_", field), Operation::Read, receiver_for_read(r), false, false, false, false));
        }
        if access.write {
            append_method(&mut ms, method(prefixed("write_", field), Operation::Write, Receiver::Exclusive, false, false, false, false));
        }
        if access.modify {
            append_method(&mut ms, method(prefixed("modify_", field), Operation::Modify, Receiver::Exclusive, false, false, false, false));
        }
        assert(views(ms@) =~= scalar_methods_spec(field@, access, const_ptr));
        ms
    }

    /// The accessors of the register array `field`.
    pub fn generate_array_access_methods(&self, field: &String, access: AccessModifiers) -> (r: Vec<
        MethodSpec,
    >)
        ensures
            views(r@) == array_methods_spec(field@, access, self.config.const_ptr),
    {
        let const_ptr = self.config.const_ptr;
        let mut ms: Vec<MethodSpec> = Vec::new();
        assert(views(ms@) =~= seq![]);
        append_method(&mut ms, method(compose("pointer_to_", field, "_start"), Operation::Pointer, Receiver::Shared, false, false, false, const_ptr));
        if let Some(r) = access.read {
            let rcv = receiver_for_read(r);
            append_method(&mut ms, method(compose("read_", field, "_unchecked"), Operation::Read, rcv, true, false, true, false));
            append_method(&mut ms, method(prefixed("read_", field), Operation::Read, rcv, true, true, false, false));
        }
        if access.write {
            append_method(&mut ms, method(compose("write_", field, "_unchecked"), Operation::Write, Receiver::Exclusive, true, false, true, false));
            append_method(&mut ms, method(prefixed("write_", field), Operation::Write, Receiver::Exclusive, true, true, false, false));
        }
        if access.modify {
            append_method(&mut ms, method(compose("modify_", field, "_unchecked"), Operation::Modify, Receiver::Exclusive, true, false, true, false));
            append_method(&mut ms, method(prefixed("modify_", field), Operation::Modify, Receiver::Exclusive, true, true, false, false));
        }
        assert(views(ms@) =~= array_methods_spec(field@, access, const_ptr));
        ms
    }

    /// The accessors of the nested block `field`, whose handle type is
    /// `wrapper`; the handle type is recorded for the marker check.
    pub fn generate_access_method_for_single_inner_mmio(&mut self, field: &String, wrapper: String) -> (r: Vec<
        MethodSpec,
    >)
        ensures
            views(r@) == nested_methods_spec(field@, old(self).config.const_inner),
            final(self).config == old(self).config,
            final(self).bound_checks@ == old(self).bound_checks@.push(wrapper),
    {
        self.record_bound(wrapper);
        let const_inner = self.config.const_inner;
        let mut ms: Vec<MethodSpec> = Vec::new();
        assert(views(ms@) =~= seq![]);
        append_method(&mut ms, method(field.clone(), Operation::Nested, Receiver::Exclusive, false, false, false, const_inner));
        append_method(&mut ms, method(suffixed(field, "_shared"), Operation::NestedShared, Receiver::Shared, false, false, false, const_inner));
        append_method(&mut ms, method(prefixed("steal_", field), Operation::Steal, Receiver::Exclusive, false, false, true, const_inner));
        append_method(&mut ms, method(compose("steal_", field, "_shared"), Operation::StealShared, Receiver::Shared, false, false, true, const_inner));
        assert(views(ms@) =~= nested_methods_spec(field@, const_inner));
        ms
    }

    /// The accessors of the array of nested blocks `field`, whose handle
    /// type is `wrapper`; the handle type is recorded for the marker check.
    pub fn generate_access_method_for_inner_mmio_array(&mut self, field: &String, wrapper: String) -> (r: Vec<
        MethodSpec,
    >)
        ensures
            views(r@) == nested_array_methods_spec(field@, old(self).config.const_inner),
            final(self).config == old(self).config,
            final(self).bound_checks@ == old(self).bound_checks@.push(wrapper),
    {
        self.record_bound(wrapper);
        let const_inner = self.config.const_inner;
        let mut ms: Vec<MethodSpec> = Vec::new();
        assert(views(ms@) =~= seq![]);
        append_method(&mut ms, method(field.clone(), Operation::Nested, Receiver::Exclusive, true, true, false, false));
        append_method(&mut ms, method(suffixed(field, "_unchecked"), Operation::Nested, Receiver::Exclusive, true, false, true, false));
        append_method(&mut ms, method(suffixed(field, "_shared"), Operation::NestedShared, Receiver::Shared, true, true, false, false));
        append_method(&mut ms, method(suffixed(field, "_shared_unchecked"), Operation::NestedShared, Receiver::Shared, true, false, true, const_inner));
        append_method(&mut ms, method(prefixed("steal_", field), Operation::Steal, Receiver::Exclusive, true, true, true, false));
        append_method(&mut ms, method(compose("steal_", field, "_unchecked"), Operation::Steal, Receiver::Exclusive, true, false, true, const_inner));
        append_method(&mut ms, method(compose("steal_", field, "_shared"), Operation::StealShared, Receiver::Shared, true, true, true, false));
        append_method(&mut ms, method(compose("steal_", field, "_shared_unchecked"), Operation::StealShared, Receiver::Shared, true, false, true, const_inner));
        append_method(&mut ms, method(suffixed(field, "_array_len"), Operation::ArrayLen, Receiver::Shared, false, false, false, true));
        assert(views(ms@) =~= nested_array_methods_spec(field@, const_inner));
        ms
    }
}

/// The accessors of field `f` in the minimal derivation: read, write and
/// modify, each taking the handle exclusively.
pub open spec fn minimal_methods_spec(f: Seq<char>) -> Seq<MethodView> {
    seq![
        mv("read_"@ + f, Operation::Read, Receiver::Exclusive, false, false, false, false),
        mv("write_"@ + f, Operation::Write, Receiver::Exclusive, false, false, false, false),
        mv("modify_"@ + f, Operation::Modify, Receiver::Exclusive, false, false, false, false),
    ]
}

/// The accessors of the first `n` fields in the minimal derivation.
pub open spec fn minimal_all_spec(fields: Seq<FieldDecl>, n: int) -> Seq<MethodView>
    decreases n,
{
    if n <= 0 {
        seq![]
    } else {
        minimal_all_spec(fields, n - 1) + minimal_methods_spec(fields[n - 1].name@)
    }
}

/// The minimal derivation of a handle: the name of the handle type, and for
/// every field, in order, a read, a write and a modify that take the handle
/// exclusively. Only the shape of the declaration is checked.
pub fn derive_answer_fn(d: &BlockDecl) -> (r: Result<(String, Vec<MethodSpec>), GenError>)
    ensures
        d.shape == DeclShape::NotAStruct ==> (r matches Err(e) && e == GenError::NotAStruct),
        d.shape == DeclShape::UnnamedFields ==> (r matches Err(e) && e == GenError::UnnamedFields),
        d.shape == DeclShape::NamedFields ==> (r matches Ok((name, ms)) && name@ == "Mmio"@ + d.name@
            && views(ms@) == minimal_all_spec(d.fields@, d.fields@.len() as int)),
{
    match d.shape {
        DeclShape::NotAStruct => return Err(GenError::NotAStruct),
        DeclShape::UnnamedFields => return Err(GenError::UnnamedFields),
        DeclShape::NamedFields => {},
    }
    let mut ms: Vec<MethodSpec> = Vec::new();
    assert(views(ms@) =~= seq![]);
    let mut i: usize = 0;
    while i < d.fields.len()
        invariant
            i <= d.fields@.len(),
            views(ms@) == minimal_all_spec(d.fields@, i as int),
        decreases d.fields.len() - i,
    {
        let f = &d.fields[i].name;
        let ghost before = views(ms@);
        append_method(&mut ms, method(prefixed("read_", f), Operation::Read, Receiver::Exclusive, false, false, false, false));
        append_method(&mut ms, method(prefixed("write_", f), Operation::Write, Receiver::Exclusive, false, false, false, false));
        append_method(&mut ms, method(prefixed("modify_", f), Operation::Modify, Receiver::Exclusive, false, false, false, false));
        assert(views(ms@) =~= before + minimal_methods_spec(f@));
        i = i + 1;
    }
    let name = String::from_str("Mmio").concat(d.name.as_str());
    Ok((name, ms))
}

} // verus!
