//! The state document and what `serde_json`, `jsonptr` and `json_patch` do
//! to it.
//!
//! The documents are `serde_json`'s, and resolving, assigning, deleting,
//! diffing and patching are the work of `jsonptr` and `json_patch`. The
//! items that reach them are not proved: each states what the outside
//! function does. `diff` and `apply` are proved on top of them: a patch is
//! applied one operation at a time, so that no operation is ever undone.
use crate::patch::{ops_model, OpModel, PatchOp};
use crate::path::Path;
use json_patch::PatchOperation as JsonOp;
use json_patch::{
    AddOperation, CopyOperation, MoveOperation, RemoveOperation, ReplaceOperation, TestOperation,
};
use serde_json::Value;
use vstd::prelude::*;

verus! {

/// `serde_json::Value`, a JSON document, carried through as it is.
#[verifier::external_type_specification]
#[verifier::external_body]
pub struct ExValue(serde_json::Value);

/// `json_patch::PatchOperation`, one operation in the form of `json_patch`.
#[verifier::external_type_specification]
#[verifier::external_body]
pub struct ExPatchOperation(json_patch::PatchOperation);

/// `json_patch::PatchError`, why a patch could not be applied.
#[verifier::external_type_specification]
#[verifier::external_body]
pub struct ExPatchError(json_patch::PatchError);

/// `Clone::clone` of `serde_json::Value`: the copy is the same document.
pub assume_specification[ <serde_json::Value as Clone>::clone ](v: &Value) -> (r: Value)
    ensures
        r == *v,
;

/// Why a path does not resolve in a document.
#[derive(Clone, Copy, PartialEq, Eq, Structural)]
pub enum ResolveFailure {
    /// A token that should index an array is no index.
    FailedToParseIndex,
    /// An index is beyond the end of its array.
    OutOfBounds,
    /// A key is not in its object.
    NotFound,
    /// A scalar stands before the end of the path.
    Unreachable,
}

/// Why a value cannot be assigned at a path.
#[derive(Clone, Copy, PartialEq, Eq, Structural)]
pub enum AssignFailure {
    /// A token that should index an array is no index.
    FailedToParseIndex,
    /// An index is beyond the end of its array.
    OutOfBounds,
}

/// What `jsonptr::Pointer::resolve` finds at `path` in `doc`.
pub uninterp spec fn json_resolve(doc: Value, path: Seq<char>) -> Result<Value, ResolveFailure>;

/// The document that `jsonptr::Pointer::assign` makes of `doc` by assigning
/// `value` at `path`, or `None` where it refuses.
pub uninterp spec fn json_assign(doc: Value, path: Seq<char>, value: Value) -> Option<Value>;

/// The document that `jsonptr::Pointer::delete` makes of `doc` by deleting
/// what is at `path`.
pub uninterp spec fn json_delete(doc: Value, path: Seq<char>) -> Value;

/// The operations that `json_patch::diff` gives for two documents.
pub uninterp spec fn json_diff(before: Value, after: Value) -> Seq<OpModel>;

/// The document that `json_patch::patch` makes of `doc` by one operation,
/// or `None` where the operation fails.
pub uninterp spec fn json_apply(doc: Value, op: OpModel) -> Option<Value>;

/// The text that `serde_json` prints for a document.
pub uninterp spec fn json_text(doc: Value) -> Seq<char>;

/// What an operation of `json_patch` says.
pub uninterp spec fn op_model(op: json_patch::PatchOperation) -> OpModel;

/// The operations of `json_patch` as models.
pub open spec fn json_ops_model(ops: Seq<JsonOp>) -> Seq<OpModel> {
    ops.map_values(|op: JsonOp| op_model(op))
}

/// The document after the operations of a patch, one after the other, or
/// `None` where one of them fails.
pub open spec fn apply_all(doc: Value, ops: Seq<OpModel>) -> Option<Value>
    decreases ops.len(),
{
    if ops.len() == 0 {
        Some(doc)
    } else {
        match json_apply(doc, ops[0]) {
            Some(next) => apply_all(next, ops.drop_first()),
            None => None,
        }
    }
}

/// `serde_json::Value::Null`, the document that prints as `null`.
#[verifier::external_body]
pub(crate) fn null() -> (r: Value)
    ensures
        json_text(r) == seq!['n', 'u', 'l', 'l'],
{
    Value::Null
}

/// `to_string` of `serde_json::Value`: the document as compact JSON text,
/// the keys of each object in order.
#[verifier::external_body]
pub(crate) fn text(doc: &Value) -> (r: String)
    ensures
        r@ == json_text(*doc),
{
    doc.to_string()
}

/// `jsonptr::Pointer::resolve` on a `serde_json::Value`, with the pointer
/// parsed from `path`: the value at the path, or which of the four errors of
/// `jsonptr::resolve::Error` came back.
#[verifier::external_body]
pub(crate) fn resolve<'a>(doc: &'a Value, path: &Path) -> (r: Result<&'a Value, ResolveFailure>)
    ensures
        match r {
            Ok(v) => json_resolve(*doc, path@) == Ok::<Value, ResolveFailure>(*v),
            Err(e) => json_resolve(*doc, path@) == Err::<Value, ResolveFailure>(e),
        },
{
    jsonptr::Pointer::parse(path.to_str()).unwrap().resolve(doc).map_err(|e| match e {
        jsonptr::resolve::Error::FailedToParseIndex { .. } => ResolveFailure::FailedToParseIndex,
        jsonptr::resolve::Error::OutOfBounds { .. } => ResolveFailure::OutOfBounds,
        jsonptr::resolve::Error::NotFound { .. } => ResolveFailure::NotFound,
        jsonptr::resolve::Error::Unreachable { .. } => ResolveFailure::Unreachable,
    })
}

/// `jsonptr::Pointer::assign` on a `serde_json::Value`: on success the
/// document holds `value` at `path`. Where the path resolved to that same
/// value before, the call succeeds and the document is as it was.
#[verifier::external_body]
pub(crate) fn assign(doc: &mut Value, path: &Path, value: Value) -> (r: Result<
    (),
    AssignFailure,
>)
    ensures
        r is Ok <==> json_assign(*old(doc), path@, value) is Some,
        r is Ok ==> *final(doc) == json_assign(*old(doc), path@, value)->0,
        json_resolve(*old(doc), path@) == Ok::<Value, ResolveFailure>(value) ==> r is Ok
            && *final(doc) == *old(doc),
{
    match jsonptr::Pointer::parse(path.to_str()).unwrap().assign(doc, value) {
        Ok(_) => Ok(()),
        Err(jsonptr::assign::Error::FailedToParseIndex { .. }) => Err(AssignFailure::FailedToParseIndex),
        Err(jsonptr::assign::Error::OutOfBounds { .. }) => Err(AssignFailure::OutOfBounds),
    }
}

/// `jsonptr::Pointer::delete` on a `serde_json::Value`, for a path that
/// resolves: the value there is taken out of the document.
#[verifier::external_body]
pub(crate) fn delete(doc: &mut Value, path: &Path)
    requires
        json_resolve(*old(doc), path@) is Ok,
    ensures
        *final(doc) == json_delete(*old(doc), path@),
{
    jsonptr::Pointer::parse(path.to_str()).unwrap().delete(doc);
}

/// `json_patch::diff`: the operations that lead from `before` to `after`.
/// For two equal documents there are none.
#[verifier::external_body]
pub(crate) fn diff_ops(before: &Value, after: &Value) -> (r: Vec<JsonOp>)
    ensures
        json_ops_model(r@) == json_diff(*before, *after),
        *before == *after ==> r@.len() == 0,
{
    json_patch::diff(before, after).0
}

/// `json_patch::patch` with a patch of one operation: where the operation
/// succeeds, the document is what the operation makes of it. Where it
/// fails, nothing is said of the document: a move may have taken its value
/// out already.
#[verifier::external_body]
pub(crate) fn patch_one(doc: &mut Value, op: &JsonOp) -> (r: Result<(), json_patch::PatchError>)
    ensures
        r is Ok <==> json_apply(*old(doc), op_model(*op)) is Some,
        r is Ok ==> *final(doc) == json_apply(*old(doc), op_model(*op))->0,
{
    json_patch::patch(doc, std::slice::from_ref(op))
}

/// Reads an operation of `json_patch` into one of this library, variant by
/// variant.
#[verifier::external_body]
pub(crate) fn op_from_json(op: &JsonOp) -> (r: PatchOp)
    ensures
        r@ == op_model(*op),
{
    let path = Path::parse(op.path().as_str()).unwrap();
    match op {
        JsonOp::Add(o) => PatchOp::Add { path, value: o.value.clone() },
        JsonOp::Remove(_) => PatchOp::Remove { path },
        JsonOp::Replace(o) => PatchOp::Replace { path, value: o.value.clone() },
        JsonOp::Move(o) => PatchOp::Move { from: Path::parse(o.from.as_str()).unwrap(), path },
        JsonOp::Copy(o) => PatchOp::Copy { from: Path::parse(o.from.as_str()).unwrap(), path },
        JsonOp::Test(o) => PatchOp::Test { path, value: o.value.clone() },
    }
}

/// Writes an operation of this library as one of `json_patch`, variant by
/// variant.
#[verifier::external_body]
pub(crate) fn op_to_json(op: PatchOp) -> (r: JsonOp)
    ensures
        op_model(r) == op@,
{
    let p = |path: Path| jsonptr::PointerBuf::parse(path.to_str()).unwrap();
    match op {
        PatchOp::Add { path, value } => JsonOp::Add(AddOperation { path: p(path), value }),
        PatchOp::Remove { path } => JsonOp::Remove(RemoveOperation { path: p(path) }),
        PatchOp::Replace { path, value } => JsonOp::Replace(ReplaceOperation { path: p(path), value }),
        PatchOp::Move { from, path } => JsonOp::Move(MoveOperation { from: p(from), path: p(path) }),
        PatchOp::Copy { from, path } => JsonOp::Copy(CopyOperation { from: p(from), path: p(path) }),
        PatchOp::Test { path, value } => JsonOp::Test(TestOperation { path: p(path), value }),
    }
}

/// The operations that lead from `before` to `after`.
pub fn diff(before: &Value, after: &Value) -> (r: Vec<PatchOp>)
    ensures
        ops_model(r@) == json_diff(*before, *after),
        *before == *after ==> r@.len() == 0,
{
    let found = diff_ops(before, after);
    let mut out: Vec<PatchOp> = Vec::new();
    let mut i: usize = 0;
    while i < found.len()
        invariant
            0 <= i <= found.len(),
            out.len() == i,
            forall|j: int| 0 <= j < i ==> out@[j]@ == op_model(found@[j]),
        decreases found.len() - i,
    {
        out.push(op_from_json(&found[i]));
        i += 1;
    }
    assert(ops_model(out@) =~= json_ops_model(found@));
    out
}

/// Applies the operations to the document, all or none: each operation
/// works on a copy, on what the one before it left, and the copy takes the
/// place of the document once the last has succeeded. Where one fails, the
/// document is untouched and the error of that operation comes back.
pub fn apply(doc: &mut Value, ops: &Vec<PatchOp>) -> (r: Result<(), json_patch::PatchError>)
    ensures
        match apply_all(*old(doc), ops_model(ops@)) {
            Some(after) => r is Ok && *final(doc) == after,
            None => r is Err && *final(doc) == *old(doc),
        },
{
    let mut work = doc.clone();
    let mut i: usize = 0;
    proof {
        assert(ops_model(ops@).skip(0) == ops_model(ops@));
    }
    while i < ops.len()
        invariant
            0 <= i <= ops.len(),
            *doc == *old(doc),
            apply_all(*old(doc), ops_model(ops@)) == apply_all(
                work,
                ops_model(ops@).skip(i as int),
            ),
        decreases ops.len() - i,
    {
        proof {
            assert(ops_model(ops@).skip(i as int)[0] == ops@[i as int]@);
            assert(ops_model(ops@).skip(i as int).drop_first() == ops_model(ops@).skip(i + 1));
        }
        let op = op_to_json(ops[i].clone());
        match patch_one(&mut work, &op) {
            Ok(()) => {},
            Err(e) => {
                return Err(e);
            },
        }
        i += 1;
    }
    proof {
        assert(ops_model(ops@).skip(i as int).len() == 0);
    }
    *doc = work;
    Ok(())
}

/// Applying two lists of operations one after the other is applying them
/// as one list.
pub proof fn lemma_apply_all_concat(doc: Value, first: Seq<OpModel>, second: Seq<OpModel>)
    ensures
        apply_all(doc, first + second) == match apply_all(doc, first) {
            Some(mid) => apply_all(mid, second),
            None => None,
        },
    decreases first.len(),
{
    if first.len() == 0 {
        assert(first + second == second);
    } else {
        assert((first + second)[0] == first[0]);
        assert((first + second).drop_first() == first.drop_first() + second);
        match json_apply(doc, first[0]) {
            Some(next) => lemma_apply_all_concat(next, first.drop_first(), second),
            None => {},
        }
    }
}

} // verus!
