//! Intents: a job, the kind of change it is meant for, and its priority.
use super::job::Job;
use super::Degree;
use crate::patch::{OpModel, PatchOp};
use crate::text::{
    comes_before, lemma_text_before_total, lemma_text_before_transitive, same_text, text_before,
};
use vstd::prelude::*;

verus! {

/// The kind of change that a job is meant for.
#[derive(Clone, Copy, PartialEq, Eq, Structural)]
pub enum Operation {
    /// For a value that is added.
    Create,
    /// For a value that is replaced.
    Update,
    /// For a value that is removed.
    Delete,
    /// For any of the three.
    Any,
    /// For none: the job is not planned with, but it can be looked up.
    Nothing,
}

impl Operation {
    /// The place of the operation in the order of intents.
    pub open spec fn rank(self) -> int {
        match self {
            Operation::Create => 0,
            Operation::Update => 1,
            Operation::Delete => 2,
            Operation::Any => 3,
            Operation::Nothing => 4,
        }
    }

    /// Whether an intent for this operation answers the change `op`:
    /// `Create` an add, `Update` a replace, `Delete` a remove, `Any` each of
    /// the three, `Nothing` none.
    pub open spec fn answers(self, op: OpModel) -> bool {
        match self {
            Operation::Create => op is Add,
            Operation::Update => op is Replace,
            Operation::Delete => op is Remove,
            Operation::Any => op is Add || op is Replace || op is Remove,
            Operation::Nothing => false,
        }
    }

    fn rank_of(&self) -> (r: u8)
        ensures
            r == self.rank(),
    {
        match self {
            Operation::Create => 0,
            Operation::Update => 1,
            Operation::Delete => 2,
            Operation::Any => 3,
            Operation::Nothing => 4,
        }
    }

    /// Whether an intent for this operation answers the change `op`.
    pub fn matches(&self, op: &PatchOp) -> (r: bool)
        ensures
            r == self.answers(op@),
    {
        match self {
            Operation::Create => match op {
                PatchOp::Add { .. } => true,
                _ => false,
            },
            Operation::Update => match op {
                PatchOp::Replace { .. } => true,
                _ => false,
            },
            Operation::Delete => match op {
                PatchOp::Remove { .. } => true,
                _ => false,
            },
            Operation::Any => match op {
                PatchOp::Add { .. } => true,
                PatchOp::Replace { .. } => true,
                PatchOp::Remove { .. } => true,
                _ => false,
            },
            Operation::Nothing => false,
        }
    }
}

/// What orders an intent among the others of its template.
pub struct IntentKey {
    pub degree: int,
    pub operation: int,
    pub priority: int,
    pub id: Seq<char>,
}

/// Whether `a` is tried before `b`: methods before actions, then by
/// operation, then the lower priority first, then by id.
pub open spec fn key_before(a: IntentKey, b: IntentKey) -> bool {
    if a.degree != b.degree {
        a.degree < b.degree
    } else if a.operation != b.operation {
        a.operation < b.operation
    } else if a.priority != b.priority {
        a.priority < b.priority
    } else {
        text_before(a.id, b.id)
    }
}

/// Of two keys with different ids one comes before the other.
pub proof fn lemma_key_before_total(a: IntentKey, b: IntentKey)
    requires
        a.id != b.id,
    ensures
        key_before(a, b) || key_before(b, a),
{
    lemma_text_before_total(a.id, b.id);
}

/// The order of keys is transitive.
pub proof fn lemma_key_before_transitive(a: IntentKey, b: IntentKey, c: IntentKey)
    requires
        key_before(a, b),
        key_before(b, c),
    ensures
        key_before(a, c),
{
    if a.degree == b.degree && b.degree == c.degree && a.operation == b.operation && b.operation
        == c.operation && a.priority == b.priority && b.priority == c.priority {
        lemma_text_before_transitive(a.id, b.id, c.id);
    }
}

/// A job registered for an operation, with a priority.
pub struct Intent {
    pub operation: Operation,
    pub job: Job,
    pub priority: u8,
}

impl Intent {
    /// What orders the intent.
    pub open spec fn key(&self) -> IntentKey {
        IntentKey {
            degree: match self.job.spec_degree() {
                Degree::Composite => 0,
                Degree::Atomic => 1,
            },
            operation: self.operation.rank(),
            priority: self.priority as int,
            id: self.job.id@,
        }
    }

    /// The intent to update with the job, at the lowest priority.
    pub fn new(job: Job) -> (r: Intent)
        ensures
            r.job == job,
            r.operation == Operation::Update,
            r.priority == u8::MAX,
    {
        Intent { operation: Operation::Update, job, priority: u8::MAX }
    }

    /// The same intent with another priority. The lower the value, the
    /// earlier the job is tried.
    pub fn with_priority(self, priority: u8) -> (r: Intent)
        ensures
            r.job == self.job,
            r.operation == self.operation,
            r.priority == priority,
    {
        Intent { operation: self.operation, job: self.job, priority }
    }

    /// The same intent for another operation.
    pub fn with_operation(self, operation: Operation) -> (r: Intent)
        ensures
            r.job == self.job,
            r.operation == operation,
            r.priority == self.priority,
    {
        Intent { operation, job: self.job, priority: self.priority }
    }

    /// Whether the two intents are for the same job and operation with the
    /// same priority.
    pub fn same(&self, other: &Intent) -> (r: bool)
        ensures
            r == (self.job.id@ == other.job.id@ && self.operation == other.operation
                && self.priority == other.priority),
    {
        same_text(self.job.id.as_str(), other.job.id.as_str()) && self.operation.rank_of()
            == other.operation.rank_of() && self.priority == other.priority
    }

    /// Whether this intent is tried before `other`.
    pub fn before(&self, other: &Intent) -> (r: bool)
        ensures
            r == key_before(self.key(), other.key()),
    {
        let d1: u8 = match self.job.degree() {
            Degree::Composite => 0,
            Degree::Atomic => 1,
        };
        let d2: u8 = match other.job.degree() {
            Degree::Composite => 0,
            Degree::Atomic => 1,
        };
        let o1 = self.operation.rank_of();
        let o2 = other.operation.rank_of();
        if d1 != d2 {
            d1 < d2
        } else if o1 != o2 {
            o1 < o2
        } else if self.priority != other.priority {
            self.priority < other.priority
        } else {
            comes_before(self.job.id.as_str(), other.job.id.as_str())
        }
    }
}

impl Clone for Intent {
    fn clone(&self) -> (r: Self)
        ensures
            r.operation == self.operation,
            r.priority == self.priority,
            r.job.id@ == self.job.id@,
            r.job.extractors@ == self.job.extractors@,
            r.job.body == self.job.body,
    {
        Intent { operation: self.operation, job: self.job.clone(), priority: self.priority }
    }
}

/// The intent to create with the job.
pub fn create(job: Job) -> (r: Intent)
    ensures
        r.job == job,
        r.operation == Operation::Create,
        r.priority == u8::MAX,
{
    Intent::new(job).with_operation(Operation::Create)
}

/// The intent to update with the job.
pub fn update(job: Job) -> (r: Intent)
    ensures
        r.job == job,
        r.operation == Operation::Update,
        r.priority == u8::MAX,
{
    Intent::new(job).with_operation(Operation::Update)
}

/// The intent to delete with the job.
pub fn delete(job: Job) -> (r: Intent)
    ensures
        r.job == job,
        r.operation == Operation::Delete,
        r.priority == u8::MAX,
{
    Intent::new(job).with_operation(Operation::Delete)
}

/// The intent to answer any change with the job.
pub fn any(job: Job) -> (r: Intent)
    ensures
        r.job == job,
        r.operation == Operation::Any,
        r.priority == u8::MAX,
{
    Intent::new(job).with_operation(Operation::Any)
}

/// The intent that keeps the job out of planning: the job can be looked up
/// in the domain, and is tried for no change.
pub fn none(job: Job) -> (r: Intent)
    ensures
        r.job == job,
        r.operation == Operation::Nothing,
        r.priority == u8::MAX,
{
    Intent::new(job).with_operation(Operation::Nothing)
}

} // verus!
