//! Patches: ordered lists of operations on the state document.
use crate::path::Path;
use serde_json::Value;
use vstd::prelude::*;

verus! {

/// What one operation of a patch says, with its paths as text.
pub enum OpModel {
    Add { path: Seq<char>, value: Value },
    Remove { path: Seq<char> },
    Replace { path: Seq<char>, value: Value },
    Move { from: Seq<char>, path: Seq<char> },
    Copy { from: Seq<char>, path: Seq<char> },
    Test { path: Seq<char>, value: Value },
}

impl OpModel {
    /// The path that the operation changes or tests.
    pub open spec fn path(self) -> Seq<char> {
        match self {
            OpModel::Add { path, .. } => path,
            OpModel::Remove { path } => path,
            OpModel::Replace { path, .. } => path,
            OpModel::Move { path, .. } => path,
            OpModel::Copy { path, .. } => path,
            OpModel::Test { path, .. } => path,
        }
    }
}

/// One operation of a patch.
pub enum PatchOp {
    Add { path: Path, value: Value },
    Remove { path: Path },
    Replace { path: Path, value: Value },
    Move { from: Path, path: Path },
    Copy { from: Path, path: Path },
    Test { path: Path, value: Value },
}

impl View for PatchOp {
    type V = OpModel;

    open spec fn view(&self) -> OpModel {
        match *self {
            PatchOp::Add { path, value } => OpModel::Add { path: path@, value },
            PatchOp::Remove { path } => OpModel::Remove { path: path@ },
            PatchOp::Replace { path, value } => OpModel::Replace { path: path@, value },
            PatchOp::Move { from, path } => OpModel::Move { from: from@, path: path@ },
            PatchOp::Copy { from, path } => OpModel::Copy { from: from@, path: path@ },
            PatchOp::Test { path, value } => OpModel::Test { path: path@, value },
        }
    }
}

impl Clone for PatchOp {
    fn clone(&self) -> (r: Self)
        ensures
            r == *self,
    {
        match self {
            PatchOp::Add { path, value } => PatchOp::Add {
                path: path.clone(),
                value: value.clone(),
            },
            PatchOp::Remove { path } => PatchOp::Remove { path: path.clone() },
            PatchOp::Replace { path, value } => PatchOp::Replace {
                path: path.clone(),
                value: value.clone(),
            },
            PatchOp::Move { from, path } => PatchOp::Move {
                from: from.clone(),
                path: path.clone(),
            },
            PatchOp::Copy { from, path } => PatchOp::Copy {
                from: from.clone(),
                path: path.clone(),
            },
            PatchOp::Test { path, value } => PatchOp::Test {
                path: path.clone(),
                value: value.clone(),
            },
        }
    }
}

impl PatchOp {
    /// The path that the operation changes or tests.
    pub fn path(&self) -> (r: &Path)
        ensures
            r@ == self@.path(),
    {
        match self {
            PatchOp::Add { path, .. } => path,
            PatchOp::Remove { path } => path,
            PatchOp::Replace { path, .. } => path,
            PatchOp::Move { path, .. } => path,
            PatchOp::Copy { path, .. } => path,
            PatchOp::Test { path, .. } => path,
        }
    }
}

/// The operations as models.
pub open spec fn ops_model(ops: Seq<PatchOp>) -> Seq<OpModel> {
    ops.map_values(|op: PatchOp| op@)
}

/// An ordered list of operations.
pub struct Patch(pub Vec<PatchOp>);

impl View for Patch {
    type V = Seq<OpModel>;

    open spec fn view(&self) -> Seq<OpModel> {
        ops_model(self.0@)
    }
}

/// A copy of the operations.
pub fn clone_ops(ops: &Vec<PatchOp>) -> (r: Vec<PatchOp>)
    ensures
        r@ == ops@,
{
    let mut out: Vec<PatchOp> = Vec::new();
    let mut i: usize = 0;
    while i < ops.len()
        invariant
            0 <= i <= ops.len(),
            out@ == ops@.take(i as int),
        decreases ops.len() - i,
    {
        out.push(ops[i].clone());
        assert(out@ == ops@.take(i + 1));
        i += 1;
    }
    assert(ops@.take(i as int) == ops@);
    out
}

impl Clone for Patch {
    fn clone(&self) -> (r: Self)
        ensures
            r.0@ == self.0@,
    {
        Patch(clone_ops(&self.0))
    }
}

impl Patch {
    /// The patch without operations.
    pub fn new() -> (r: Patch)
        ensures
            r@.len() == 0,
    {
        Patch(Vec::new())
    }

    /// Whether the patch has no operations.
    pub fn is_empty(&self) -> (r: bool)
        ensures
            r == (self@.len() == 0),
    {
        self.0.len() == 0
    }

    /// The number of operations.
    pub fn len(&self) -> (r: usize)
        ensures
            r == self@.len(),
    {
        self.0.len()
    }
}

} // verus!
