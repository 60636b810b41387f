//! The analysis of a whole register block: from its declaration to the
//! definition of its handle type.
use crate::access::{field_access_spec, parse_field_access, AccessModifiers, AnnotationToken, FieldAccess};
use crate::error::GenError;
use crate::layout::{bytes_before, field_offsets, lemma_bytes_before_monotonic, lemma_field_bytes_nonneg, is_reserved, is_reserved_name, total_bytes, FieldDecl, FieldType};
use crate::synth::{
    array_methods_spec, nested_array_methods_spec, nested_methods_spec, scalar_methods_spec, views,
    FieldParser, MethodSpec, MethodView,
};
use vstd::prelude::*;
use vstd::string::*;

verus! {

/// The block-level options.
#[derive(Debug, PartialEq, Eq, Structural, Clone, Copy)]
pub struct BlockOptions {
    /// Leave out the constructors, so that the block can offer its own.
    pub no_ctors: bool,
    /// Make the pointer accessors usable in constant context.
    pub const_ptr: bool,
    /// Make the nested-block accessors usable in constant context.
    pub const_inner: bool,
}

/// The option that a word spells, added to `o`; `None` for any other word.
pub open spec fn add_option(o: BlockOptions, w: Seq<char>) -> Option<BlockOptions> {
    if w == "no_ctors"@ {
        Some(BlockOptions { no_ctors: true, ..o })
    } else if w == "const_ptr"@ {
        Some(BlockOptions { const_ptr: true, ..o })
    } else if w == "const_inner"@ {
        Some(BlockOptions { const_inner: true, ..o })
    } else {
        None
    }
}

/// The options given by a list of block-level tokens, in order.
pub open spec fn options_spec(toks: Seq<AnnotationToken>) -> Result<BlockOptions, GenError>
    decreases toks.len(),
{
    if toks.len() == 0 {
        Ok(BlockOptions { no_ctors: false, const_ptr: false, const_inner: false })
    } else {
        match options_spec(toks.drop_last()) {
            Err(e) => Err(e),
            Ok(o) => match toks.last() {
                AnnotationToken::Word(w) => match add_option(o, w@) {
                    Some(n) => Ok(n),
                    None => Err(GenError::UnknownBlockOption),
                },
                _ => Err(GenError::UnknownBlockOption),
            },
        }
    }
}

/// Parses the block-level options.
pub fn parse_options(toks: &Vec<AnnotationToken>) -> (r: Result<BlockOptions, GenError>)
    ensures
        r == options_spec(toks@),
{
    let mut o = BlockOptions { no_ctors: false, const_ptr: false, const_inner: false };
    let mut i: usize = 0;
    while i < toks.len()
        invariant
            i <= toks@.len(),
            options_spec(toks@.subrange(0, i as int)) == Ok::<BlockOptions, GenError>(o),
        decreases toks.len() - i,
    {
        assert(toks@.subrange(0, i + 1).drop_last() == toks@.subrange(0, i as int));
        let ok = match &toks[i] {
            AnnotationToken::Word(w) => {
                if *w == String::from_str("no_ctors") {
                    o.no_ctors = true;
                    true
                } else if *w == String::from_str("const_ptr") {
                    o.const_ptr = true;
                    true
                } else if *w == String::from_str("const_inner") {
                    o.const_inner = true;
                    true
                } else {
                    false
                }
            },
            _ => false,
        };
        if !ok {
            proof {
                lemma_options_stop(toks@, i as int);
            }
            return Err(GenError::UnknownBlockOption);
        }
        i = i + 1;
    }
    assert(toks@.subrange(0, i as int) == toks@);
    Ok(o)
}

proof fn lemma_options_stop(toks: Seq<AnnotationToken>, i: int)
    requires
        0 <= i < toks.len(),
        options_spec(toks.subrange(0, i + 1)) is Err,
    ensures
        options_spec(toks) == options_spec(toks.subrange(0, i + 1)),
    decreases toks.len() - i,
{
    if i + 1 < toks.len() {
        let j = toks.len() - 1;
        assert(toks.drop_last() == toks.subrange(0, j));
        assert(toks.subrange(0, j).subrange(0, i + 1) == toks.subrange(0, i + 1));
        lemma_options_stop(toks.subrange(0, j), i);
    } else {
        assert(toks.subrange(0, i + 1) == toks);
    }
}

/// The index of the last `:` among the first `n` characters, or -1.
pub open spec fn last_separator(p: Seq<char>, n: int) -> int
    decreases n,
{
    if n <= 0 {
        -1
    } else if p[n - 1] == ':' {
        n - 1
    } else {
        last_separator(p, n - 1)
    }
}

/// The handle type of a block type path: `Mmio` before its last segment.
pub open spec fn wrapper_path_spec(p: Seq<char>) -> Seq<char> {
    let k = last_separator(p, p.len() as int);
    p.subrange(0, k + 1) + "Mmio"@ + p.subrange(k + 1, p.len() as int)
}

proof fn lemma_last_separator_range(p: Seq<char>, n: int)
    requires
        0 <= n <= p.len(),
    ensures
        -1 <= last_separator(p, n) < n,
    decreases n,
{
    if n > 0 && p[n - 1] != ':' {
        lemma_last_separator_range(p, n - 1);
    }
}

/// The handle type of the block type named by `path`.
pub fn wrapper_path(path: &String) -> (r: String)
    ensures
        r@ == wrapper_path_spec(path@),
{
    let s = path.as_str();
    let n = s.unicode_len();
    let mut k: usize = n;
    while k > 0 && s.get_char(k - 1) != ':'
        invariant
            k <= n,
            n == path@.len(),
            s@ == path@,
            last_separator(path@, n as int) == last_separator(path@, k as int),
        decreases k,
    {
        k = k - 1;
    }
    proof {
        lemma_last_separator_range(path@, n as int);
    }
    let head = s.substring_char(0, k);
    let tail = s.substring_char(k, n);
    String::from_str(head).concat("Mmio").concat(tail)
}

} // verus!

verus! {

/// What a field is, once its annotation has been read.
#[derive(Debug, Clone)]
pub enum FieldKind {
    /// A reserved field: it takes its bytes and has no accessor.
    Reserved,
    /// A field of a type that is neither a path nor an array: no accessor.
    Opaque,
    /// One register of `size` bytes.
    Register { access: AccessModifiers, size: u64 },
    /// An array of `len` registers of `elem_size` bytes each.
    RegisterArray { access: AccessModifiers, len: usize, elem_size: u64 },
    /// A nested block of `size` bytes whose handle type is `wrapper`.
    Block { wrapper: String, size: u64 },
    /// An array of `len` nested blocks of `elem_size` bytes each.
    BlockArray { wrapper: String, len: usize, elem_size: u64 },
}

/// The mathematical value of a field kind.
pub enum KindView {
    Reserved,
    Opaque,
    Register { access: AccessModifiers, size: u64 },
    RegisterArray { access: AccessModifiers, len: usize, elem_size: u64 },
    Block { wrapper: Seq<char>, size: u64 },
    BlockArray { wrapper: Seq<char>, len: usize, elem_size: u64 },
}

impl View for FieldKind {
    type V = KindView;

    open spec fn view(&self) -> KindView {
        match self {
            FieldKind::Reserved => KindView::Reserved,
            FieldKind::Opaque => KindView::Opaque,
            FieldKind::Register { access, size } => KindView::Register { access: *access, size: *size },
            FieldKind::RegisterArray { access, len, elem_size } => KindView::RegisterArray {
                access: *access,
                len: *len,
                elem_size: *elem_size,
            },
            FieldKind::Block { wrapper, size } => KindView::Block { wrapper: wrapper@, size: *size },
            FieldKind::BlockArray { wrapper, len, elem_size } => KindView::BlockArray {
                wrapper: wrapper@,
                len: *len,
                elem_size: *elem_size,
            },
        }
    }
}

/// The bytes that a field's accessors reach.
pub open spec fn kind_bytes(k: KindView) -> int {
    match k {
        KindView::Register { size, .. } => size as int,
        KindView::RegisterArray { len, elem_size, .. } => len as int * elem_size as int,
        KindView::Block { size, .. } => size as int,
        KindView::BlockArray { len, elem_size, .. } => len as int * elem_size as int,
        _ => 0,
    }
}

/// The capabilities of a register field are consistent.
pub open spec fn kind_consistent(k: KindView) -> bool {
    match k {
        KindView::Register { access, .. } => access.is_consistent(),
        KindView::RegisterArray { access, .. } => access.is_consistent(),
        _ => true,
    }
}

/// The kind of a field annotated as a nested block: it must be named by a
/// path, or be an array of elements named by a path.
pub open spec fn inner_kind_spec(ty: FieldType, i: usize) -> Result<KindView, GenError> {
    match ty {
        FieldType::Path { path, size } => Ok(KindView::Block { wrapper: wrapper_path_spec(path@), size }),
        FieldType::Array { elem: Some(p), elem_size, len } => Ok(
            KindView::BlockArray { wrapper: wrapper_path_spec(p@), len, elem_size },
        ),
        _ => Err(GenError::InvalidInnerType { field: i }),
    }
}

/// The kind of the field at position `i`; reserved fields are not read
/// further.
pub open spec fn field_kind_spec(f: FieldDecl, i: usize) -> Result<KindView, GenError> {
    if is_reserved_name(f.name@) {
        Ok(KindView::Reserved)
    } else {
        match field_access_spec(f.annotations@, i) {
            Err(e) => Err(e),
            Ok(FieldAccess::Inner) => inner_kind_spec(f.ty, i),
            Ok(FieldAccess::Plain(a)) => match f.ty {
                FieldType::Path { size, .. } => Ok(KindView::Register { access: a, size }),
                FieldType::Array { elem_size, len, .. } => Ok(
                    KindView::RegisterArray { access: a, len, elem_size },
                ),
                FieldType::Other { .. } => Ok(KindView::Opaque),
            },
        }
    }
}

/// The handle type a field of kind `k` adds to the marker checks.
pub open spec fn bound_check_of(k: KindView) -> Seq<Seq<char>> {
    match k {
        KindView::Block { wrapper, .. } => seq![wrapper],
        KindView::BlockArray { wrapper, .. } => seq![wrapper],
        _ => seq![],
    }
}

/// The accessors of a field named `name` of kind `k`.
pub open spec fn methods_spec(name: Seq<char>, k: KindView, o: BlockOptions) -> Seq<MethodView> {
    match k {
        KindView::Register { access, .. } => scalar_methods_spec(name, access, o.const_ptr),
        KindView::RegisterArray { access, .. } => array_methods_spec(name, access, o.const_ptr),
        KindView::Block { .. } => nested_methods_spec(name, o.const_inner),
        KindView::BlockArray { .. } => nested_array_methods_spec(name, o.const_inner),
        _ => seq![],
    }
}

proof fn lemma_texts_push(v: Seq<String>, w: String)
    ensures
        texts(v.push(w)) == texts(v) + seq![w@],
{
    assert(texts(v.push(w)) =~= texts(v) + seq![w@]);
}

impl FieldParser {
    /// The kind and the accessors of a field annotated as a nested block.
    pub fn generate_access_method_for_inner_mmio_field(&mut self, f: &FieldDecl, i: usize) -> (r: Result<
        (FieldKind, Vec<MethodSpec>),
        GenError,
    >)
        ensures
            final(self).config == old(self).config,
            match inner_kind_spec(f.ty, i) {
                Ok(k) => r matches Ok((fk, ms)) && fk@ == k && views(ms@) == methods_spec(f.name@, k, old(self).config)
                    && texts(final(self).bound_checks@) == texts(old(self).bound_checks@) + bound_check_of(k),
                Err(e) => r matches Err(d) && d == e && final(self).bound_checks@ == old(self).bound_checks@,
            },
    {
        match &f.ty {
            FieldType::Path { path, size } => {
                let w = wrapper_path(path);
                proof {
                    lemma_texts_push(self.bound_checks@, w);
                }
                let ms = self.generate_access_method_for_single_inner_mmio(&f.name, w.clone());
                Ok((FieldKind::Block { wrapper: w, size: *size }, ms))
            },
            FieldType::Array { elem: Some(p), elem_size, len } => {
                let w = wrapper_path(p);
                proof {
                    lemma_texts_push(self.bound_checks@, w);
                }
                let ms = self.generate_access_method_for_inner_mmio_array(&f.name, w.clone());
                Ok((FieldKind::BlockArray { wrapper: w, len: *len, elem_size: *elem_size }, ms))
            },
            _ => Err(GenError::InvalidInnerType { field: i }),
        }
    }

    /// The kind and the accessors of the field at position `i`.
    pub fn generate_access_methods(&mut self, f: &FieldDecl, i: usize) -> (r: Result<
        (FieldKind, Vec<MethodSpec>),
        GenError,
    >)
        ensures
            final(self).config == old(self).config,
            match field_kind_spec(*f, i) {
                Ok(k) => r matches Ok((fk, ms)) && fk@ == k && views(ms@) == methods_spec(f.name@, k, old(self).config)
                    && texts(final(self).bound_checks@) == texts(old(self).bound_checks@) + bound_check_of(k),
                Err(e) => r matches Err(d) && d == e,
            },
    {
        let ghost before = texts(self.bound_checks@);
        assert(before + seq![] == before);
        if is_reserved(&f.name) {
            let ms: Vec<MethodSpec> = Vec::new();
            assert(views(ms@) =~= seq![]);
            return Ok((FieldKind::Reserved, ms));
        }
        match parse_field_access(&f.annotations, i) {
            Err(e) => Err(e),
            Ok(FieldAccess::Inner) => self.generate_access_method_for_inner_mmio_field(f, i),
            Ok(FieldAccess::Plain(a)) => match &f.ty {
                FieldType::Path { size, .. } => {
                    let ms = self.generate_field_access_methods(&f.name, a);
                    Ok((FieldKind::Register { access: a, size: *size }, ms))
                },
                FieldType::Array { elem_size, len, .. } => {
                    let ms = self.generate_array_access_methods(&f.name, a);
                    Ok((FieldKind::RegisterArray { access: a, len: *len, elem_size: *elem_size }, ms))
                },
                FieldType::Other { .. } => {
                    let ms: Vec<MethodSpec> = Vec::new();
                    assert(views(ms@) =~= seq![]);
                    Ok((FieldKind::Opaque, ms))
                },
            },
        }
    }
}

} // verus!

verus! {

/// The shape of the declaration the handle is derived from.
#[derive(Debug, PartialEq, Eq, Structural, Clone, Copy)]
pub enum DeclShape {
    /// A struct with named fields: the one shape a register block may have.
    NamedFields,
    /// A tuple struct or a unit struct.
    UnnamedFields,
    /// An enum or a union.
    NotAStruct,
}

/// The declaration of a register block.
#[derive(Debug, Clone)]
pub struct BlockDecl {
    pub name: String,
    /// The struct has a fixed, sequential, C-compatible layout.
    pub repr_c: bool,
    pub shape: DeclShape,
    /// The arguments of the block-level annotation, in order.
    pub options: Vec<AnnotationToken>,
    pub fields: Vec<FieldDecl>,
    /// The size of the struct in bytes.
    pub size: u64,
}

/// The kinds of the first `n` fields; the first refused field decides the error.
pub open spec fn kinds_spec(fields: Seq<FieldDecl>, n: int) -> Result<Seq<KindView>, GenError>
    decreases n,
{
    if n <= 0 {
        Ok(seq![])
    } else {
        match kinds_spec(fields, n - 1) {
            Err(e) => Err(e),
            Ok(ks) => match field_kind_spec(fields[n - 1], (n - 1) as usize) {
                Err(e) => Err(e),
                Ok(k) => Ok(ks.push(k)),
            },
        }
    }
}

/// The checks of a declaration, in the order in which they are made: the
/// options, the layout, the shape, each field, and the size accounting.
pub open spec fn check_spec(d: BlockDecl) -> Result<(BlockOptions, Seq<KindView>), GenError> {
    match options_spec(d.options@) {
        Err(e) => Err(e),
        Ok(o) => if !d.repr_c {
            Err(GenError::NotReprC)
        } else if d.shape == DeclShape::NotAStruct {
            Err(GenError::NotAStruct)
        } else if d.shape == DeclShape::UnnamedFields {
            Err(GenError::UnnamedFields)
        } else {
            match kinds_spec(d.fields@, d.fields@.len() as int) {
                Err(e) => Err(e),
                Ok(ks) => if total_bytes(d.fields@) != d.size as int {
                    Err(GenError::SizeMismatch)
                } else {
                    Ok((o, ks))
                },
            }
        },
    }
}

/// The handle types of the nested blocks among the first `n` kinds: each
/// must carry the marker of a derived handle.
pub open spec fn bound_checks_spec(ks: Seq<KindView>, n: int) -> Seq<Seq<char>>
    decreases n,
{
    if n <= 0 {
        seq![]
    } else {
        bound_checks_spec(ks, n - 1) + bound_check_of(ks[n - 1])
    }
}

/// One field of a handle type: where it lies and what accessors it has.
#[derive(Debug, Clone)]
pub struct FieldPlan {
    pub name: String,
    /// The byte offset of the field from the start of the block.
    pub offset: u64,
    pub kind: FieldKind,
    pub methods: Vec<MethodSpec>,
}

/// The definition of a handle type.
#[derive(Debug, Clone)]
pub struct WrapperDef {
    /// The name of the handle type: `Mmio` followed by the block's name.
    pub name: String,
    pub options: BlockOptions,
    /// The size of the block in bytes.
    pub size: u64,
    pub fields: Vec<FieldPlan>,
    /// The handle types of the nested blocks, which must carry the marker.
    pub bound_checks: Vec<String>,
}

/// The texts of a list of strings.
pub open spec fn texts(v: Seq<String>) -> Seq<Seq<char>> {
    v.map_values(|s: String| s@)
}

impl WrapperDef {
    /// The definition is the one derived from `d`, whose options are `o`
    /// and whose field kinds are `ks`.
    pub open spec fn describes(self, d: BlockDecl, o: BlockOptions, ks: Seq<KindView>) -> bool {
        &&& self.name@ == "Mmio"@ + d.name@
        &&& self.options == o
        &&& self.size == d.size
        &&& ks.len() == d.fields@.len()
        &&& self.fields@.len() == d.fields@.len()
        &&& forall|i: int|
            0 <= i < self.fields@.len() ==> {
                let p = #[trigger] self.fields@[i];
                &&& p.name@ == d.fields@[i].name@
                &&& p.offset as int == bytes_before(d.fields@, i)
                &&& p.kind@ == ks[i]
                &&& views(p.methods@) == methods_spec(p.name@, ks[i], o)
            }
        &&& texts(self.bound_checks@) == bound_checks_spec(ks, ks.len() as int)
    }

    /// Every accessor stays within the block, and every capability set
    /// that allows `Modify` allows reading and writing too.
    pub open spec fn wf(self) -> bool {
        forall|i: int|
            0 <= i < self.fields@.len() ==> {
                let k = (#[trigger] self.fields@[i]).kind@;
                &&& self.fields@[i].offset as int + kind_bytes(k) <= self.size as int
                &&& kind_consistent(k)
            }
    }

    /// Whether the handle has the constructors from a pointer and from an
    /// address.
    pub fn has_constructors(&self) -> (r: bool)
        ensures
            r == !self.options.no_ctors,
    {
        !self.options.no_ctors
    }
}

proof fn lemma_kinds_stop(fields: Seq<FieldDecl>, i: int, n: int)
    requires
        0 <= i < n <= fields.len(),
        kinds_spec(fields, i + 1) is Err,
    ensures
        kinds_spec(fields, n) == kinds_spec(fields, i + 1),
    decreases n - i,
{
    if i + 1 < n {
        lemma_kinds_stop(fields, i, n - 1);
    }
}

/// Analyses a register-block declaration and derives its handle type, or
/// reports the first rule it breaks.
pub fn derive_mmio(d: &BlockDecl) -> (r: Result<WrapperDef, GenError>)
    ensures
        match check_spec(*d) {
            Err(e) => r == Err::<WrapperDef, GenError>(e),
            Ok((o, ks)) => r matches Ok(w) && w.describes(*d, o, ks) && w.wf(),
        },
{
    let o = match parse_options(&d.options) {
        Err(e) => return Err(e),
        Ok(o) => o,
    };
    if !d.repr_c {
        return Err(GenError::NotReprC);
    }
    match d.shape {
        DeclShape::NotAStruct => return Err(GenError::NotAStruct),
        DeclShape::UnnamedFields => return Err(GenError::UnnamedFields),
        DeclShape::NamedFields => {},
    }
    let mut plans: Vec<FieldPlan> = Vec::new();
    let mut parser = FieldParser::new(o);
    let offsets = field_offsets(&d.fields, d.size);
    let ghost mut ks: Seq<KindView> = seq![];
    assert(texts(parser.bound_checks@) =~= seq![]);
    let mut i: usize = 0;
    while i < d.fields.len()
        invariant
            i <= d.fields@.len(),
            options_spec(d.options@) == Ok::<BlockOptions, GenError>(o),
            d.repr_c,
            d.shape == DeclShape::NamedFields,
            parser.config == o,
            kinds_spec(d.fields@, i as int) == Ok::<Seq<KindView>, GenError>(ks),
            ks.len() == i,
            plans@.len() == i,
            forall|k: int|
                0 <= k < i ==> {
                    let p = #[trigger] plans@[k];
                    &&& p.name@ == d.fields@[k].name@
                    &&& p.kind@ == ks[k]
                    &&& views(p.methods@) == methods_spec(p.name@, ks[k], o)
                },
            texts(parser.bound_checks@) == bound_checks_spec(ks, i as int),
            offsets matches Some(offs) ==> offs@.len() == d.fields@.len() && forall|k: int|
                0 <= k < d.fields@.len() ==> #[trigger] offs@[k] as int == bytes_before(d.fields@, k),
            offsets is Some ==> forall|k: int|
                0 <= k < i ==> #[trigger] plans@[k].offset as int == bytes_before(d.fields@, k),
        decreases d.fields.len() - i,
    {
        let f = &d.fields[i];
        let (kind, methods) = match parser.generate_access_methods(f, i) {
            Err(e) => {
                assert(kinds_spec(d.fields@, i + 1) == Err::<Seq<KindView>, GenError>(e));
                proof {
                    lemma_kinds_stop(d.fields@, i as int, d.fields@.len() as int);
                }
                return Err(e);
            },
            Ok(km) => km,
        };
        let ghost prev = ks;
        proof {
            ks = ks.push(kind@);
            lemma_bound_checks_prefix(ks, prev, i as int);
        }
        let offset = match &offsets {
            Some(offs) => offs[i],
            None => 0,
        };
        plans.push(FieldPlan { name: f.name.clone(), offset, kind, methods });
        i = i + 1;
    }
    if offsets.is_none() {
        return Err(GenError::SizeMismatch);
    }
    proof {
        assert(ks.len() == d.fields@.len());
        assert forall|k: int| 0 <= k < plans@.len() implies #[trigger] plans@[k].offset as int
            + kind_bytes(plans@[k].kind@) <= d.size as int && kind_consistent(plans@[k].kind@) by {
            lemma_kinds_each(d.fields@, d.fields@.len() as int, ks, k);
            lemma_kind_within_field(d.fields@[k], k as usize);
            lemma_bytes_before_monotonic(d.fields@, k + 1, d.fields@.len() as int);
        }
    }
    let name = String::from_str("Mmio").concat(d.name.as_str());
    Ok(WrapperDef { name, options: o, size: d.size, fields: plans, bound_checks: parser.bound_checks })
}

proof fn lemma_kinds_each(fields: Seq<FieldDecl>, n: int, ks: Seq<KindView>, k: int)
    requires
        0 <= k < n <= fields.len(),
        kinds_spec(fields, n) == Ok::<Seq<KindView>, GenError>(ks),
    ensures
        field_kind_spec(fields[k], k as usize) == Ok::<KindView, GenError>(ks[k]),
        ks.len() == n,
    decreases n,
{
    let prev = kinds_spec(fields, n - 1);
    if let Ok(p) = prev {
        if n - 1 > 0 {
            lemma_kinds_len(fields, n - 1, p);
        }
        if k < n - 1 {
            lemma_kinds_each(fields, n - 1, p, k);
        }
    }
}

proof fn lemma_kinds_len(fields: Seq<FieldDecl>, n: int, ks: Seq<KindView>)
    requires
        0 <= n <= fields.len(),
        kinds_spec(fields, n) == Ok::<Seq<KindView>, GenError>(ks),
    ensures
        ks.len() == n,
    decreases n,
{
    if n > 0 {
        if let Ok(p) = kinds_spec(fields, n - 1) {
            lemma_kinds_len(fields, n - 1, p);
        }
    }
}

proof fn lemma_kind_within_field(f: FieldDecl, i: usize)
    requires
        field_kind_spec(f, i) is Ok,
    ensures
        0 <= kind_bytes(field_kind_spec(f, i)->Ok_0) <= f.ty.bytes(),
        kind_consistent(field_kind_spec(f, i)->Ok_0),
{
    lemma_field_bytes_nonneg(f.ty);
    match field_kind_spec(f, i)->Ok_0 {
        KindView::RegisterArray { len, elem_size, .. } => {
            assert(len as int * elem_size as int >= 0) by (nonlinear_arith);
            assert(len as int * elem_size as int == elem_size as int * len as int) by (nonlinear_arith);
        },
        KindView::BlockArray { len, elem_size, .. } => {
            assert(len as int * elem_size as int >= 0) by (nonlinear_arith);
            assert(len as int * elem_size as int == elem_size as int * len as int) by (nonlinear_arith);
        },
        _ => {},
    }
}

proof fn lemma_bound_checks_prefix(a: Seq<KindView>, b: Seq<KindView>, n: int)
    requires
        0 <= n <= b.len(),
        b.len() <= a.len(),
        forall|k: int| 0 <= k < b.len() ==> a[k] == b[k],
    ensures
        bound_checks_spec(a, n) == bound_checks_spec(b, n),
    decreases n,
{
    if n > 0 {
        lemma_bound_checks_prefix(a, b, n - 1);
    }
}

} // verus!
