//! The description of a register block and the accounting of its layout.
use crate::access::AnnotationToken;
use vstd::prelude::*;

verus! {

/// The declared type of a field.
#[derive(Debug, Clone)]
pub enum FieldType {
    /// A type named by a path (`u32`, `regs::Bank`), of `size` bytes.
    Path { path: String, size: u64 },
    /// An array of `len` elements of `elem_size` bytes each; `elem` is the
    /// element's type path, or `None` where the element is not named by a path.
    Array { elem: Option<String>, elem_size: u64, len: usize },
    /// Any other type (a tuple, a reference) of `size` bytes.
    Other { size: u64 },
}

impl FieldType {
    /// The number of bytes the field takes in the block.
    pub open spec fn bytes(self) -> int {
        match self {
            FieldType::Path { size, .. } => size as int,
            FieldType::Array { elem_size, len, .. } => elem_size as int * len as int,
            FieldType::Other { size } => size as int,
        }
    }
}

/// One field of a register block, in declaration order.
#[derive(Debug, Clone)]
pub struct FieldDecl {
    pub name: String,
    pub ty: FieldType,
    /// The arguments of the field's access annotations, in order.
    pub annotations: Vec<AnnotationToken>,
}

/// A field is reserved (padding, or a register left alone) when its name
/// starts with an underscore: it takes its bytes but gets no accessor.
pub open spec fn is_reserved_name(name: Seq<char>) -> bool {
    name.len() > 0 && name[0] == '_'
}

/// Whether a field name marks a reserved field.
pub fn is_reserved(name: &String) -> (r: bool)
    ensures
        r == is_reserved_name(name@),
{
    let s = name.as_str();
    let n = s.unicode_len();
    n > 0 && s.get_char(0) == '_'
}

/// The bytes taken by the first `n` fields.
pub open spec fn bytes_before(fields: Seq<FieldDecl>, n: int) -> int
    decreases n,
{
    if n <= 0 {
        0
    } else {
        bytes_before(fields, n - 1) + fields[n - 1].ty.bytes()
    }
}

/// The bytes taken by all the fields.
pub open spec fn total_bytes(fields: Seq<FieldDecl>) -> int {
    bytes_before(fields, fields.len() as int)
}

/// Later prefixes of the fields take no fewer bytes.
pub proof fn lemma_bytes_before_monotonic(fields: Seq<FieldDecl>, i: int, j: int)
    requires
        0 <= i <= j <= fields.len(),
    ensures
        bytes_before(fields, i) <= bytes_before(fields, j),
    decreases j - i,
{
    if i < j {
        lemma_bytes_before_monotonic(fields, i, j - 1);
        lemma_field_bytes_nonneg(fields[j - 1].ty);
    }
}

/// No field takes a negative number of bytes.
pub proof fn lemma_field_bytes_nonneg(t: FieldType)
    ensures
        t.bytes() >= 0,
{
    match t {
        FieldType::Array { elem_size, len, .. } => {
            assert(elem_size as int * len as int >= 0) by (nonlinear_arith);
        },
        _ => {},
    }
}

/// The number of bytes of a field type.
pub fn field_bytes(t: &FieldType) -> (r: u128)
    ensures
        r as int == t.bytes(),
{
    match t {
        FieldType::Path { size, .. } => *size as u128,
        FieldType::Array { elem_size, len, .. } => {
            assert(*elem_size as int * *len as int <= u128::MAX) by (nonlinear_arith)
                requires
                    *elem_size <= 0xffff_ffff_ffff_ffffu64,
                    *len as int <= 0xffff_ffff_ffff_ffff,
            {
            }
            (*elem_size as u128) * (*len as u128)
        },
        FieldType::Other { size } => *size as u128,
    }
}

/// The byte offset of every field, where the field sizes add up to exactly
/// `size`; `None` where they do not (a gap, or fields that overrun the block).
pub fn field_offsets(fields: &Vec<FieldDecl>, size: u64) -> (r: Option<Vec<u64>>)
    ensures
        r is Some <==> total_bytes(fields@) == size as int,
        r matches Some(offs) ==> offs@.len() == fields@.len() && forall|i: int|
            0 <= i < fields@.len() ==> #[trigger] offs@[i] as int == bytes_before(fields@, i),
{
    let mut offs: Vec<u64> = Vec::new();
    let mut sum: u128 = 0;
    let mut i: usize = 0;
    while i < fields.len()
        invariant
            i <= fields@.len(),
            sum as int == bytes_before(fields@, i as int),
            sum <= size,
            offs@.len() == i,
            forall|k: int| 0 <= k < i ==> #[trigger] offs@[k] as int == bytes_before(fields@, k),
        decreases fields.len() - i,
    {
        offs.push(sum as u64);
        let b = field_bytes(&fields[i].ty);
        if b > size as u128 - sum {
            proof {
                lemma_bytes_before_monotonic(fields@, i as int + 1, fields@.len() as int);
            }
            return None;
        }
        sum = sum + b;
        i = i + 1;
    }
    if sum == size as u128 {
        Some(offs)
    } else {
        None
    }
}

} // verus!
