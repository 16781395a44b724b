//! The locals a WebAssembly function body declares.

use vstd::prelude::*;

use crate::graph::control::ValueType;

verus! {

/// The kind of a WebAssembly value as a local declaration names it.
#[derive(Clone, Copy, Debug, PartialEq, Eq, Structural)]
pub enum WasmValueKind {
    /// A 32-bit integer.
    I32,
    /// A 64-bit integer.
    I64,
    /// A 32-bit float.
    F32,
    /// A 64-bit float.
    F64,
    /// A 128-bit vector, which the lifter does not handle.
    V128,
    /// A reference of any heap type.
    Reference,
}

/// The local declarations at the start of a function body, as `wasmparser`
/// reads them from the body's bytes (`FunctionBody::new` over a
/// `BinaryReader`, then each item of `get_locals_reader`): each group's count
/// and kind, in order; `None` when the bytes do not read as local
/// declarations.
pub uninterp spec fn body_locals(body: Seq<u8>) -> Option<Seq<(u32, WasmValueKind)>>;

/// Reads the local declarations of a function body with `wasmparser`, each
/// group as its count and the kind of its values.
///
/// Trusted: the result is what `body_locals` names for the bytes; reading
/// the declarations is a function of the bytes alone.
#[verifier::external_body]
fn read_body_locals(body: &[u8]) -> (groups: Option<Vec<(u32, WasmValueKind)>>)
    ensures
        match groups {
            Some(groups) => body_locals(body@) == Some(groups@),
            None => body_locals(body@) is None,
        },
{
    let body = wasmparser::FunctionBody::new(wasmparser::BinaryReader::new(body, 0));
    let mut groups = Vec::new();
    for item in body.get_locals_reader().ok()? {
        let (count, kind) = item.ok()?;
        groups.push((count, match kind {
            wasmparser::ValType::I32 => WasmValueKind::I32,
            wasmparser::ValType::I64 => WasmValueKind::I64,
            wasmparser::ValType::F32 => WasmValueKind::F32,
            wasmparser::ValType::F64 => WasmValueKind::F64,
            wasmparser::ValType::V128 => WasmValueKind::V128,
            wasmparser::ValType::Ref(_) => WasmValueKind::Reference,
        }));
    }
    Some(groups)
}

/// The value type that locals of a kind other than a vector hold.
pub open spec fn value_type_of(kind: WasmValueKind) -> ValueType {
    match kind {
        WasmValueKind::I32 => ValueType::I32,
        WasmValueKind::I64 => ValueType::I64,
        WasmValueKind::F32 => ValueType::F32,
        WasmValueKind::F64 => ValueType::F64,
        _ => ValueType::Reference,
    }
}

/// The type of each local the groups declare: each group's type repeated by
/// its count, in order.
pub open spec fn expanded(groups: Seq<(u32, WasmValueKind)>) -> Seq<ValueType>
    decreases groups.len(),
{
    if groups.len() == 0 {
        Seq::empty()
    } else {
        expanded(groups.drop_last()) + Seq::new(groups.last().0 as nat, |i: int| value_type_of(groups.last().1))
    }
}

/// Whether a group declares vector locals.
pub open spec fn has_vector(groups: Seq<(u32, WasmValueKind)>) -> bool {
    exists|k: int| 0 <= k < groups.len() && (#[trigger] groups[k]).1 is V128
}

/// Returns the value type of a kind other than a vector.
fn value_type(kind: WasmValueKind) -> (kind_type: ValueType)
    requires
        !(kind is V128),
    ensures
        kind_type == value_type_of(kind),
{
    match kind {
        WasmValueKind::I32 => ValueType::I32,
        WasmValueKind::I64 => ValueType::I64,
        WasmValueKind::F32 => ValueType::F32,
        WasmValueKind::F64 => ValueType::F64,
        _ => ValueType::Reference,
    }
}

/// Sets `local_types` to the type of each local the groups declare, each
/// group's type repeated by its count. Vector locals are not handled: with
/// one, this fails and leaves `local_types` empty.
pub fn expand_local_types(groups: &[(u32, WasmValueKind)], local_types: &mut Vec<ValueType>) -> (ok: bool)
    ensures
        ok == !has_vector(groups@),
        ok ==> final(local_types)@ == expanded(groups@),
        !ok ==> final(local_types)@.len() == 0,
{
    local_types.clear();
    let mut k: usize = 0;
    while k < groups.len()
        invariant
            k <= groups@.len(),
            local_types@.len() == 0,
            forall|j: int| 0 <= j < k ==> !((#[trigger] groups@[j]).1 is V128),
        decreases groups@.len() - k,
    {
        if matches!(groups[k].1, WasmValueKind::V128) {
            assert(has_vector(groups@)) by {
                assert(groups@[k as int].1 is V128);
            }
            return false;
        }
        k = k + 1;
    }
    let mut k: usize = 0;
    while k < groups.len()
        invariant
            k <= groups@.len(),
            !has_vector(groups@),
            local_types@ == expanded(groups@.take(k as int)),
        decreases groups@.len() - k,
    {
        let (count, kind) = groups[k];
        assert(!(groups@[k as int].1 is V128));
        let local = value_type(kind);
        let ghost before = local_types@;
        let mut n: u32 = 0;
        while n < count
            invariant
                n <= count,
                local_types@ == before + Seq::new(n as nat, |i: int| local),
            decreases count - n,
        {
            local_types.push(local);
            n = n + 1;
            assert(local_types@ =~= before + Seq::new(n as nat, |i: int| local));
        }
        assert(groups@.take(k + 1).drop_last() =~= groups@.take(k as int));
        assert(local_types@ =~= expanded(groups@.take(k + 1)));
        k = k + 1;
    }
    assert(groups@.take(k as int) =~= groups@);
    true
}

/// Sets `local_types` to the type of each local that a function body
/// declares, read from the body's bytes. Fails, leaving `local_types` empty,
/// when the bytes do not read as local declarations or declare vector locals.
pub fn read_local_types(body: &[u8], local_types: &mut Vec<ValueType>) -> (ok: bool)
    ensures
        ok == (body_locals(body@) matches Some(groups) && !has_vector(groups)),
        ok ==> (body_locals(body@) matches Some(groups) && final(local_types)@ == expanded(groups)),
        !ok ==> final(local_types)@.len() == 0,
{
    match read_body_locals(body) {
        Some(groups) => expand_local_types(groups.as_slice(), local_types),
        None => {
            local_types.clear();
            false
        },
    }
}

} // verus!
