//! The distance between a state and a target: the changes that part them,
//! each at its path, and with them every path above a change.
use crate::json::{diff, json_diff, json_resolve, resolve};
use crate::patch::{ops_model, OpModel, PatchOp};
use crate::path::{lemma_last_slash, parent_of, Path};
use crate::system::System;
use crate::text::{
    comes_before, lemma_text_before_total, lemma_text_before_transitive, same_text, text_before,
};
use serde_json::Value;
use vstd::prelude::*;

verus! {

/// The number of operations at the head of `ops` whose path comes before
/// `path`: where an operation at `path` goes among them.
pub open spec fn slot(ops: Seq<OpModel>, path: Seq<char>) -> int
    decreases ops.len(),
{
    if ops.len() == 0 || !text_before(ops[0].path(), path) {
        0
    } else {
        1 + slot(ops.drop_first(), path)
    }
}

/// The operations with `op` put in at the slot of its path, unless an
/// operation at that path stands there already.
pub open spec fn put(ops: Seq<OpModel>, op: OpModel) -> Seq<OpModel> {
    let at = slot(ops, op.path());
    if at < ops.len() && ops[at].path() == op.path() {
        ops
    } else {
        ops.insert(at, op)
    }
}

/// The operations with, for every path above `path`, from the parent up
/// to the root, the replacement of what is there by what the target holds
/// there, where the target holds something.
pub open spec fn with_ancestors(ops: Seq<OpModel>, path: Seq<char>, target: Value) -> Seq<OpModel>
    decreases path.len(),
    via with_ancestors_decreases
{
    match parent_of(path) {
        None => ops,
        Some(parent) => with_ancestors(
            match json_resolve(target, parent) {
                Ok(value) => put(ops, OpModel::Replace { path: parent, value }),
                Err(_) => ops,
            },
            parent,
            target,
        ),
    }
}

#[via_fn]
proof fn with_ancestors_decreases(ops: Seq<OpModel>, path: Seq<char>, target: Value) {
    lemma_last_slash(path);
}

/// What the changes from the `i`-th on add to `found`: each with the
/// paths above it.
pub open spec fn gather(changes: Seq<OpModel>, i: nat, target: Value, found: Seq<OpModel>) -> Seq<
    OpModel,
>
    decreases changes.len() - i,
{
    if i >= changes.len() {
        found
    } else {
        gather(
            changes,
            i + 1,
            target,
            put(with_ancestors(found, changes[i as int].path(), target), changes[i as int]),
        )
    }
}

/// The distance that the changes make: each change, and above each the
/// replacement of every path up to the root, one operation for a path, in
/// the order of paths.
pub open spec fn distance_of(changes: Seq<OpModel>, target: Value) -> Seq<OpModel> {
    gather(changes, 0, target, Seq::empty())
}

/// Whether the operations stand in the order of their paths, one for a
/// path.
pub open spec fn ascending(ops: Seq<OpModel>) -> bool {
    forall|i: int, j: int|
        0 <= i < j < ops.len() ==> text_before((#[trigger] ops[i]).path(), (#[trigger] ops[j]).path())
}

/// The slot of a path: the operations before it have paths before the path,
/// and the one at it has not.
pub proof fn lemma_slot(ops: Seq<OpModel>, path: Seq<char>)
    ensures
        0 <= slot(ops, path) <= ops.len(),
        forall|k: int| 0 <= k < slot(ops, path) ==> text_before((#[trigger] ops[k]).path(), path),
        slot(ops, path) < ops.len() ==> !text_before(ops[slot(ops, path)].path(), path),
    decreases ops.len(),
{
    if ops.len() > 0 && text_before(ops[0].path(), path) {
        let rest = ops.drop_first();
        lemma_slot(rest, path);
        assert forall|k: int| 0 <= k < slot(ops, path) implies text_before(
            (#[trigger] ops[k]).path(),
            path,
        ) by {
            if k > 0 {
                assert(ops[k] == rest[k - 1]);
            }
        }
    }
}

/// Operations in the order of their paths stay so when one more is put in.
pub proof fn lemma_put_ascending(ops: Seq<OpModel>, op: OpModel)
    requires
        ascending(ops),
    ensures
        ascending(put(ops, op)),
{
    lemma_slot(ops, op.path());
    let at = slot(ops, op.path());
    let after = put(ops, op);
    if !(at < ops.len() && ops[at].path() == op.path()) {
        assert forall|i: int, j: int| 0 <= i < j < after.len() implies text_before(
            (#[trigger] after[i]).path(),
            (#[trigger] after[j]).path(),
        ) by {
            if j < at {
                assert(after[i] == ops[i] && after[j] == ops[j]);
            } else if j == at {
                assert(after[i] == ops[i]);
            } else if i == at {
                assert(after[j] == ops[j - 1]);
                lemma_text_before_total(ops[at].path(), op.path());
                if j - 1 > at {
                    lemma_text_before_transitive(op.path(), ops[at].path(), ops[j - 1].path());
                }
            } else if i < at {
                assert(after[i] == ops[i]);
                assert(after[j] == ops[j - 1]);
            } else {
                assert(after[i] == ops[i - 1]);
                assert(after[j] == ops[j - 1]);
            }
        }
    }
}

/// The paths above a path go in where operations stand in the order of
/// their paths, and leave them so.
pub proof fn lemma_with_ancestors_ascending(ops: Seq<OpModel>, path: Seq<char>, target: Value)
    requires
        ascending(ops),
    ensures
        ascending(with_ancestors(ops, path, target)),
    decreases path.len(),
{
    lemma_last_slash(path);
    match parent_of(path) {
        None => {},
        Some(parent) => {
            match json_resolve(target, parent) {
                Ok(value) => {
                    let op = OpModel::Replace { path: parent, value };
                    lemma_put_ascending(ops, op);
                    lemma_with_ancestors_ascending(put(ops, op), parent, target);
                },
                Err(_) => {
                    lemma_with_ancestors_ascending(ops, parent, target);
                },
            }
        },
    }
}

/// The distance stands in the order of its paths, one operation for a
/// path.
pub proof fn lemma_gather_ascending(
    changes: Seq<OpModel>,
    i: nat,
    target: Value,
    found: Seq<OpModel>,
)
    requires
        ascending(found),
    ensures
        ascending(gather(changes, i, target, found)),
    decreases changes.len() - i,
{
    if i < changes.len() {
        let above = with_ancestors(found, changes[i as int].path(), target);
        lemma_with_ancestors_ascending(found, changes[i as int].path(), target);
        lemma_put_ascending(above, changes[i as int]);
        lemma_gather_ascending(changes, i + 1, target, put(above, changes[i as int]));
    }
}

/// The distance between a state and a target.
pub struct Distance {
    ops: Vec<PatchOp>,
}

impl View for Distance {
    type V = Seq<OpModel>;

    closed spec fn view(&self) -> Seq<OpModel> {
        ops_model(self.ops@)
    }
}

fn find_slot(ops: &Vec<PatchOp>, path: &Path) -> (r: usize)
    ensures
        r == slot(ops_model(ops@), path@),
        r <= ops.len(),
{
    let mut i: usize = 0;
    proof {
        assert(ops_model(ops@).skip(0) == ops_model(ops@));
    }
    while i < ops.len()
        invariant
            0 <= i <= ops.len(),
            slot(ops_model(ops@), path@) == i + slot(ops_model(ops@).skip(i as int), path@),
        decreases ops.len() - i,
    {
        proof {
            assert(ops_model(ops@).skip(i as int)[0] == ops@[i as int]@);
            assert(ops_model(ops@).skip(i as int).drop_first() == ops_model(ops@).skip(i + 1));
        }
        if !comes_before(ops[i].path().to_str(), path.to_str()) {
            return i;
        }
        i += 1;
    }
    proof {
        assert(ops_model(ops@).skip(i as int).len() == 0);
    }
    i
}

fn put_op(ops: &mut Vec<PatchOp>, op: PatchOp)
    ensures
        ops_model(final(ops)@) == put(ops_model(old(ops)@), op@),
{
    let at = find_slot(ops, op.path());
    if at < ops.len() && same_text(ops[at].path().to_str(), op.path().to_str()) {
        return ;
    }
    ops.insert(at, op);
    assert(ops_model(ops@) =~= ops_model(old(ops)@).insert(at as int, op@));
}

fn put_ancestors(ops: &mut Vec<PatchOp>, path: &Path, target: &Value)
    ensures
        ops_model(final(ops)@) == with_ancestors(ops_model(old(ops)@), path@, *target),
{
    let mut at = path.clone();
    loop
        invariant
            with_ancestors(ops_model(old(ops)@), path@, *target) == with_ancestors(
                ops_model(ops@),
                at@,
                *target,
            ),
        ensures
            ops_model(ops@) == with_ancestors(ops_model(old(ops)@), path@, *target),
        decreases at@.len(),
    {
        proof {
            lemma_last_slash(at@);
        }
        let parent = match at.parent() {
            Some(parent) => parent,
            None => {
                break ;
            },
        };
        match resolve(target, &parent) {
            Ok(value) => {
                put_op(ops, PatchOp::Replace { path: parent.clone(), value: value.clone() });
            },
            Err(_) => {},
        }
        at = parent;
    }
}

impl Distance {
    /// The distance that the changes between a state and the target make.
    /// Its operations stand in the order of their paths.
    pub fn of(changes: &Vec<PatchOp>, target: &Value) -> (r: Distance)
        ensures
            r@ == distance_of(ops_model(changes@), *target),
            ascending(r@),
    {
        proof {
            lemma_gather_ascending(ops_model(changes@), 0, *target, Seq::empty());
        }
        let mut ops: Vec<PatchOp> = Vec::new();
        let mut i: usize = 0;
        proof {
            assert(ops_model(ops@) =~= Seq::<OpModel>::empty());
        }
        while i < changes.len()
            invariant
                0 <= i <= changes.len(),
                distance_of(ops_model(changes@), *target) == gather(
                    ops_model(changes@),
                    i as nat,
                    *target,
                    ops_model(ops@),
                ),
            decreases changes.len() - i,
        {
            proof {
                assert(ops_model(changes@)[i as int] == changes@[i as int]@);
            }
            put_ancestors(&mut ops, changes[i].path(), target);
            put_op(&mut ops, changes[i].clone());
            i += 1;
        }
        Distance { ops }
    }

    /// The distance between a state and a target. Its operations stand in
    /// the order of their paths, and nothing parts a state from itself.
    pub fn new(state: &System, target: &Value) -> (r: Distance)
        ensures
            r@ == distance_of(json_diff(state@, *target), *target),
            ascending(r@),
            state@ == *target ==> r@.len() == 0,
    {
        let changes = diff(state.root(), target);
        let r = Distance::of(&changes, target);
        proof {
            if state@ == *target {
                assert(ops_model(changes@) =~= Seq::<OpModel>::empty());
            }
        }
        r
    }

    /// Whether nothing parts the state from the target.
    pub fn is_empty(&self) -> (r: bool)
        ensures
            r == (self@.len() == 0),
    {
        self.ops.len() == 0
    }

    /// The operations of the distance, in the order of their paths.
    pub fn iter(&self) -> (r: &Vec<PatchOp>)
        ensures
            ops_model(r@) == self@,
    {
        &self.ops
    }
}

} // verus!
