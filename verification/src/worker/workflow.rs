//! Workflows: the actions of a plan, each with its id, as a graph.
use crate::dag::{
    branches_shape, in_series, items_of, lemma_branches_shape, lemma_nodes_shape, mirrored,
    node_items, node_shape, nodes_items, nodes_shape, shape_of, Dag, Node, Shape,
};
use crate::json::{json_resolve, json_text, resolve, text};
use crate::patch::{clone_ops, ops_model, OpModel, PatchOp};
use crate::task::{Action, TaskModel};
use crate::text::same_text;
use serde_json::Value;
use std::sync::Arc;
use vstd::prelude::*;
use vstd::string::*;
use vstd::utf8::encode_utf8;

verus! {

/// Where the digest of an id starts.
pub const DIGEST_START: u64 = 0xcbf29ce484222325;

/// What the digest of an id is multiplied by after each byte.
pub const DIGEST_FACTOR: u64 = 0x100000001b3;

/// The byte that parts the texts of an id in its digest. No text holds it.
pub const DIGEST_MARK: u8 = 0xff;

/// The digest after one more byte: the byte is mixed in, and the whole is
/// multiplied, wrapping around.
pub open spec fn mix_byte(digest: u64, byte: u8) -> u64 {
    (digest ^ (byte as u64)).wrapping_mul(DIGEST_FACTOR)
}

/// The digest after the bytes, one after the other.
pub open spec fn mix(digest: u64, bytes: Seq<u8>) -> u64
    decreases bytes.len(),
{
    if bytes.len() == 0 {
        digest
    } else {
        mix(mix_byte(digest, bytes[0]), bytes.drop_first())
    }
}

/// The digest after a text and the mark that ends it.
pub open spec fn mix_text(digest: u64, text: Seq<char>) -> u64 {
    mix_byte(mix(digest, encode_utf8(text)), DIGEST_MARK)
}

/// The hexadecimal digit of a number below sixteen.
pub open spec fn hex_digit(n: u64) -> char {
    if n == 0 {
        '0'
    } else if n == 1 {
        '1'
    } else if n == 2 {
        '2'
    } else if n == 3 {
        '3'
    } else if n == 4 {
        '4'
    } else if n == 5 {
        '5'
    } else if n == 6 {
        '6'
    } else if n == 7 {
        '7'
    } else if n == 8 {
        '8'
    } else if n == 9 {
        '9'
    } else if n == 10 {
        'a'
    } else if n == 11 {
        'b'
    } else if n == 12 {
        'c'
    } else if n == 13 {
        'd'
    } else if n == 14 {
        'e'
    } else {
        'f'
    }
}

/// The sixteen hexadecimal digits of a number, the highest first.
pub open spec fn hex(n: u64) -> Seq<char> {
    Seq::new(16, |i: int| hex_digit((n >> ((60 - 4 * i) as u64)) & 0xf))
}

/// The id of a unit of work: the digest of the id of its job, of its path,
/// of its target and of the state at its path, in hexadecimal.
pub open spec fn digest_id(
    job: Seq<char>,
    path: Seq<char>,
    target: Seq<char>,
    state: Seq<char>,
) -> Seq<char> {
    hex(mix_text(mix_text(mix_text(mix_text(DIGEST_START, job), path), target), state))
}

/// The id of the unit of work of a task on a state, or `None` where the
/// path of the task does not resolve in the state.
pub open spec fn unit_id(task: TaskModel, state: Value) -> Option<Seq<char>> {
    match json_resolve(state, task.context.path) {
        Ok(at_path) => Some(
            digest_id(task.id, task.context.path, json_text(task.context.target), json_text(at_path)),
        ),
        Err(_) => None,
    }
}

fn mix_in(digest: u64, text: &str) -> (r: u64)
    ensures
        r == mix_text(digest, text@),
{
    let bytes = text.as_bytes();
    let mut h = digest;
    let mut i: usize = 0;
    proof {
        assert(bytes@.skip(0) == bytes@);
    }
    while i < bytes.len()
        invariant
            0 <= i <= bytes@.len(),
            mix(digest, bytes@) == mix(h, bytes@.skip(i as int)),
        decreases bytes@.len() - i,
    {
        proof {
            assert(bytes@.skip(i as int)[0] == bytes@[i as int]);
            assert(bytes@.skip(i as int).drop_first() == bytes@.skip(i + 1));
        }
        h = (h ^ (bytes[i] as u64)).wrapping_mul(DIGEST_FACTOR);
        i += 1;
    }
    (h ^ (DIGEST_MARK as u64)).wrapping_mul(DIGEST_FACTOR)
}

fn digit(n: u64) -> (r: &'static str)
    requires
        n < 16,
    ensures
        r@ == seq![hex_digit(n)],
{
    proof {
        reveal_strlit("0");
        reveal_strlit("1");
        reveal_strlit("2");
        reveal_strlit("3");
        reveal_strlit("4");
        reveal_strlit("5");
        reveal_strlit("6");
        reveal_strlit("7");
        reveal_strlit("8");
        reveal_strlit("9");
        reveal_strlit("a");
        reveal_strlit("b");
        reveal_strlit("c");
        reveal_strlit("d");
        reveal_strlit("e");
        reveal_strlit("f");
    }
    let r = if n == 0 {
        "0"
    } else if n == 1 {
        "1"
    } else if n == 2 {
        "2"
    } else if n == 3 {
        "3"
    } else if n == 4 {
        "4"
    } else if n == 5 {
        "5"
    } else if n == 6 {
        "6"
    } else if n == 7 {
        "7"
    } else if n == 8 {
        "8"
    } else if n == 9 {
        "9"
    } else if n == 10 {
        "a"
    } else if n == 11 {
        "b"
    } else if n == 12 {
        "c"
    } else if n == 13 {
        "d"
    } else if n == 14 {
        "e"
    } else {
        "f"
    };
    assert(r@ =~= seq![hex_digit(n)]);
    r
}

fn to_hex(n: u64) -> (r: String)
    ensures
        r@ == hex(n),
{
    let mut out = String::new();
    let mut i: u64 = 0;
    while i < 16
        invariant
            0 <= i <= 16,
            out@.len() == i,
            forall|k: int| 0 <= k < i ==> out@[k] == hex(n)[k],
        decreases 16 - i,
    {
        let shift: u64 = 60 - 4 * i;
        let nibble: u64 = (n >> shift) & 0xf;
        assert(nibble < 16) by (bit_vector)
            requires
                nibble == (n >> shift) & 0xf,
        ;
        out.append(digit(nibble));
        i += 1;
    }
    assert(out@ =~= hex(n));
    out
}

/// An action of a plan with the id that tells it from the others.
pub struct WorkUnit {
    /// The id: a digest of the job, the path, the target and the state that
    /// the planner expected at the path.
    pub id: String,
    /// The action to run.
    pub action: Action,
    /// The patch that the action projected when it was planned.
    pub changes: Vec<PatchOp>,
}

/// A unit of work as plain values.
pub struct UnitModel {
    pub id: Seq<char>,
    pub task: TaskModel,
    pub changes: Seq<OpModel>,
}

impl View for WorkUnit {
    type V = UnitModel;

    open spec fn view(&self) -> UnitModel {
        UnitModel { id: self.id@, task: self.action@, changes: ops_model(self.changes@) }
    }
}

impl WorkUnit {
    /// The id of the unit of work of an action on a state. `None` where
    /// the path of the action does not resolve in the state.
    pub fn new_id(action: &Action, state: &Value) -> (r: Option<String>)
        ensures
            match unit_id(action@, *state) {
                Some(id) => r is Some && r->0@ == id,
                None => r is None,
            },
    {
        match resolve(state, &action.context.path) {
            Ok(at_path) => {
                let target = text(&action.context.target);
                let current = text(at_path);
                let mut h = mix_in(DIGEST_START, action.id.as_str());
                h = mix_in(h, action.context.path.to_str());
                h = mix_in(h, target.as_str());
                h = mix_in(h, current.as_str());
                Some(to_hex(h))
            },
            Err(_) => None,
        }
    }

    /// The unit of work of an action, with its id and the changes that it
    /// projects.
    pub fn new(id: String, action: Action, changes: Vec<PatchOp>) -> (r: WorkUnit)
        ensures
            r@ == (UnitModel { id: id@, task: action@, changes: ops_model(changes@) }),
    {
        WorkUnit { id, action, changes }
    }

    /// The description of the action.
    pub fn to_string(&self) -> (r: String)
        ensures
            r@ == self@.task.described(),
    {
        self.action.to_string()
    }
}

impl Clone for WorkUnit {
    fn clone(&self) -> (r: Self)
        ensures
            r@ == self@,
    {
        WorkUnit {
            id: self.id.clone(),
            action: self.action.clone(),
            changes: clone_ops(&self.changes),
        }
    }
}

/// The units as plain values.
pub open spec fn units_model(units: Seq<Arc<WorkUnit>>) -> Seq<UnitModel> {
    units.map_values(|u: Arc<WorkUnit>| u@)
}

/// A plan as plain values.
pub struct PlanModel {
    /// The units of work.
    pub dag: Seq<UnitModel>,
    /// The changes that the units of the current attempt project.
    pub pending: Seq<OpModel>,
}

/// Whether one of the units has the id `id`.
pub open spec fn has_id(units: Seq<UnitModel>, id: Seq<char>) -> bool {
    exists|i: int| 0 <= i < units.len() && (#[trigger] units[i]).id == id
}

/// Whether no two of the units have the same id.
pub open spec fn distinct_ids(units: Seq<UnitModel>) -> bool {
    forall|i: int, j: int|
        0 <= i < j < units.len() ==> (#[trigger] units[i]).id != (#[trigger] units[j]).id
}

/// The changes of the units, those of the first unit first.
pub open spec fn changes_of(units: Seq<UnitModel>) -> Seq<OpModel>
    decreases units.len(),
{
    if units.len() == 0 {
        Seq::empty()
    } else {
        units[0].changes + changes_of(units.drop_first())
    }
}

/// The changes of the units, those of the last unit first.
pub open spec fn trail_of(units: Seq<UnitModel>) -> Seq<OpModel>
    decreases units.len(),
{
    if units.len() == 0 {
        Seq::empty()
    } else {
        trail_of(units.drop_first()) + units[0].changes
    }
}

/// The changes of units put one list before another.
pub proof fn lemma_trail_of_concat(first: Seq<UnitModel>, second: Seq<UnitModel>)
    ensures
        trail_of(first + second) == trail_of(second) + trail_of(first),
    decreases first.len(),
{
    if first.len() == 0 {
        assert(first + second == second);
        assert(trail_of(second) + Seq::<OpModel>::empty() == trail_of(second));
    } else {
        assert((first + second)[0] == first[0]);
        assert((first + second).drop_first() == first.drop_first() + second);
        lemma_trail_of_concat(first.drop_first(), second);
        assert((trail_of(second) + trail_of(first.drop_first())) + first[0].changes == trail_of(
            second,
        ) + (trail_of(first.drop_first()) + first[0].changes));
    }
}

/// The changes of units with one more unit at the end.
pub proof fn lemma_changes_of_push(units: Seq<UnitModel>, unit: UnitModel)
    ensures
        changes_of(units.push(unit)) == changes_of(units) + unit.changes,
    decreases units.len(),
{
    if units.len() == 0 {
        let one = units.push(unit);
        assert(one[0] == unit);
        assert(one.drop_first() == Seq::<UnitModel>::empty());
        assert(changes_of(one.drop_first()) == Seq::<OpModel>::empty());
        assert(changes_of(one) == unit.changes + Seq::<OpModel>::empty());
        assert(unit.changes + Seq::<OpModel>::empty() == unit.changes);
        assert(Seq::<OpModel>::empty() + unit.changes == unit.changes);
    } else {
        assert(units.push(unit)[0] == units[0]);
        assert(units.push(unit).drop_first() == units.drop_first().push(unit));
        lemma_changes_of_push(units.drop_first(), unit);
        assert(units[0].changes + (changes_of(units.drop_first()) + unit.changes) == (
        units[0].changes + changes_of(units.drop_first())) + unit.changes);
    }
}

/// The changes of units put one list after another.
pub proof fn lemma_changes_of_concat(first: Seq<UnitModel>, second: Seq<UnitModel>)
    ensures
        changes_of(first + second) == changes_of(first) + changes_of(second),
    decreases first.len(),
{
    if first.len() == 0 {
        assert(first + second == second);
        assert(Seq::<OpModel>::empty() + changes_of(second) == changes_of(second));
    } else {
        assert((first + second)[0] == first[0]);
        assert((first + second).drop_first() == first.drop_first() + second);
        lemma_changes_of_concat(first.drop_first(), second);
        assert(first[0].changes + (changes_of(first.drop_first()) + changes_of(second)) == (
        first[0].changes + changes_of(first.drop_first())) + changes_of(second));
    }
}

/// Units with ids of their own keep them when read from the end.
pub proof fn lemma_distinct_ids_reverse(units: Seq<UnitModel>)
    requires
        distinct_ids(units),
    ensures
        distinct_ids(units.reverse()),
{
    let back = units.reverse();
    assert forall|i: int, j: int| 0 <= i < j < back.len() implies (#[trigger] back[i]).id != (
    #[trigger] back[j]).id by {
        assert(back[i] == units[units.len() - 1 - i]);
        assert(back[j] == units[units.len() - 1 - j]);
    }
}

/// Read from the end, the units give their changes from the last to the
/// first.
pub proof fn lemma_changes_of_reverse(units: Seq<UnitModel>)
    ensures
        changes_of(units.reverse()) == trail_of(units),
    decreases units.len(),
{
    if units.len() == 0 {
        assert(units.reverse() == Seq::<UnitModel>::empty());
    } else {
        let rest = units.drop_first();
        assert(units.reverse() =~= rest.reverse().push(units[0]));
        lemma_changes_of_push(rest.reverse(), units[0]);
        lemma_changes_of_reverse(rest);
    }
}

/// The lines that show a graph of this shape, each after `indent`: for an
/// item a hyphen, a blank and the text that stands for its task; for a fork
/// a plus sign, and for each of its branches a tilde and the lines of the
/// branch, further in.
pub open spec fn graph_lines(shape: Seq<Shape<Arc<WorkUnit>>>, indent: Seq<char>) -> Seq<
    Seq<char>,
>
    decreases shape, shape.len() + 1,
{
    nodes_lines(shape, shape.len(), indent)
}

/// The lines that show the first `n` of the nodes.
pub open spec fn nodes_lines(nodes: Seq<Shape<Arc<WorkUnit>>>, n: nat, indent: Seq<char>) -> Seq<
    Seq<char>,
>
    decreases nodes, n,
{
    if n == 0 || n > nodes.len() {
        Seq::empty()
    } else {
        nodes_lines(nodes, (n - 1) as nat, indent) + node_lines(nodes[n - 1], indent)
    }
}

/// The lines that show a node.
pub open spec fn node_lines(node: Shape<Arc<WorkUnit>>, indent: Seq<char>) -> Seq<Seq<char>>
    decreases node, 0nat,
{
    match node {
        Shape::Item(unit) => seq![indent + "- "@ + unit@.task.described()],
        Shape::Fork(branches) => seq![indent + "+"@] + branches_lines(
            branches,
            branches.len(),
            indent,
        ),
    }
}

/// The lines that show the first `n` of the branches of a fork.
pub open spec fn branches_lines(
    branches: Seq<Seq<Shape<Arc<WorkUnit>>>>,
    n: nat,
    indent: Seq<char>,
) -> Seq<Seq<char>>
    decreases branches, n,
{
    if n == 0 || n > branches.len() {
        Seq::empty()
    } else {
        branches_lines(branches, (n - 1) as nat, indent) + seq![indent + "  ~"@] + graph_lines(
            branches[n - 1],
            indent + "    "@,
        )
    }
}

/// One line for each unit after `indent`: a hyphen, a blank and the text
/// that stands for its task.
pub open spec fn units_lines(units: Seq<UnitModel>, indent: Seq<char>) -> Seq<Seq<char>> {
    units.map_values(|u: UnitModel| indent + "- "@ + u.task.described())
}

/// The lines of the first nodes depend on those nodes alone.
pub proof fn lemma_nodes_lines_prefix(
    a: Seq<Shape<Arc<WorkUnit>>>,
    b: Seq<Shape<Arc<WorkUnit>>>,
    n: nat,
    indent: Seq<char>,
)
    requires
        n <= a.len(),
        n <= b.len(),
        forall|k: int| 0 <= k < n ==> a[k] == b[k],
    ensures
        nodes_lines(a, n, indent) == nodes_lines(b, n, indent),
    decreases n,
{
    if n > 0 {
        lemma_nodes_lines_prefix(a, b, (n - 1) as nat, indent);
    }
}

/// The first nodes of a graph without forks show as one line for each of
/// their units.
pub proof fn lemma_nodes_lines_in_series(
    nodes: Seq<Node<Arc<WorkUnit>>>,
    n: nat,
    indent: Seq<char>,
)
    requires
        n <= nodes.len(),
        forall|i: int| 0 <= i < nodes.len() ==> (#[trigger] nodes[i]) is Item,
    ensures
        nodes_lines(nodes_shape(nodes, n), n, indent) == units_lines(
            units_model(nodes_items(nodes, n)),
            indent,
        ),
    decreases n,
{
    lemma_nodes_shape(nodes, n);
    if n == 0 {
        assert(units_lines(units_model(Seq::<Arc<WorkUnit>>::empty()), indent) =~= Seq::<
            Seq<char>,
        >::empty());
    } else {
        lemma_nodes_lines_in_series(nodes, (n - 1) as nat, indent);
        lemma_nodes_shape(nodes, (n - 1) as nat);
        lemma_nodes_lines_prefix(
            nodes_shape(nodes, n),
            nodes_shape(nodes, (n - 1) as nat),
            (n - 1) as nat,
            indent,
        );
        let before = nodes_items(nodes, (n - 1) as nat);
        assert(nodes[n - 1] is Item);
        let unit = nodes[n - 1]->Item_0;
        assert(nodes[n - 1] == Node::Item(unit));
        assert(node_items(nodes[n - 1]) == seq![unit]);
        assert(nodes_shape(nodes, n)[n - 1] == Shape::Item(unit));
        assert(node_lines(Shape::Item(unit), indent) == seq![
            indent + "- "@ + unit@.task.described(),
        ]);
        assert(nodes_items(nodes, n) == before + seq![unit]);
        assert(units_lines(units_model(before + seq![unit]), indent) =~= units_lines(
            units_model(before),
            indent,
        ) + seq![indent + "- "@ + unit@.task.described()]);
    }
}

/// A graph whose items stand one after the other shows as one line for
/// each item.
pub proof fn lemma_lines_in_series(dag: Dag<Arc<WorkUnit>>, indent: Seq<char>)
    requires
        in_series(dag),
    ensures
        graph_lines(shape_of(dag), indent) == units_lines(units_model(items_of(dag)), indent),
{
    lemma_nodes_shape(dag.nodes@, dag.nodes@.len());
    lemma_nodes_lines_in_series(dag.nodes@, dag.nodes@.len(), indent);
}

/// The lines as one text, with a line break between two.
pub open spec fn joined(lines: Seq<Seq<char>>) -> Seq<char>
    decreases lines.len(),
{
    if lines.len() == 0 {
        Seq::empty()
    } else if lines.len() == 1 {
        lines[0]
    } else {
        joined(lines.drop_last()) + "\n"@ + lines.last()
    }
}

/// The lines as texts.
pub open spec fn lines_model(lines: Seq<String>) -> Seq<Seq<char>> {
    lines.map_values(|line: String| line@)
}

/// Adds the lines that show a graph to `out`.
fn render(dag: &Dag<Arc<WorkUnit>>, indent: &str, out: &mut Vec<String>)
    ensures
        lines_model(final(out)@) == lines_model(old(out)@) + graph_lines(shape_of(*dag), indent@),
    decreases *dag,
{
    let ghost start = lines_model(out@);
    let ghost shape = shape_of(*dag);
    let mut i: usize = 0;
    proof {
        assert(start + Seq::<Seq<char>>::empty() == start);
        lemma_nodes_shape(dag.nodes@, dag.nodes@.len());
    }
    while i < dag.nodes.len()
        invariant
            0 <= i <= dag.nodes.len(),
            shape == shape_of(*dag),
            shape.len() == dag.nodes@.len(),
            forall|k: int|
                0 <= k < dag.nodes@.len() ==> (#[trigger] shape[k]) == node_shape(dag.nodes@[k]),
            lines_model(out@) == start + nodes_lines(shape, i as nat, indent@),
        decreases dag.nodes.len() - i,
    {
        let ghost sofar = nodes_lines(shape, i as nat, indent@);
        proof {
            assert(nodes_lines(shape, (i + 1) as nat, indent@) == sofar + node_lines(
                shape[i as int],
                indent@,
            ));
        }
        match &dag.nodes[i] {
            Node::Item(unit) => {
                let ghost before = out@;
                let line = String::from_str(indent).concat("- ").concat(unit.to_string().as_str());
                out.push(line);
                proof {
                    assert(dag.nodes@[i as int] == Node::Item(*unit));
                    assert(shape[i as int] == Shape::Item(*unit));
                    assert(lines_model(out@) =~= lines_model(before).push(line@));
                    assert((start + sofar).push(line@) =~= start + (sofar + seq![line@]));
                }
            },
            Node::Fork(branches) => {
                let ghost before = out@;
                let ghost forks = branches_shape(branches@, branches@.len());
                let head = String::from_str(indent).concat("+");
                let mark = String::from_str(indent).concat("  ~");
                let further = String::from_str(indent).concat("    ");
                out.push(head);
                let mut j: usize = 0;
                proof {
                    assert(dag.nodes@[i as int] == Node::Fork(*branches));
                    assert(shape[i as int] == Shape::Fork(forks));
                    lemma_branches_shape(branches@, branches@.len());
                    assert forall|k: int| 0 <= k < branches@.len() implies decreases_to!(*dag => #[trigger] branches@[k]) by {
                        assert(decreases_to!(*dag => dag.nodes));
                        assert(decreases_to!(dag.nodes => dag.nodes@));
                        assert(decreases_to!(dag.nodes@ => dag.nodes@[i as int]));
                        assert(decreases_to!(dag.nodes@[i as int] => *branches));
                        assert(decreases_to!(*branches => branches@));
                        assert(decreases_to!(branches@ => branches@[k]));
                    }
                    assert(lines_model(out@) =~= lines_model(before).push(head@));
                    assert((start + sofar).push(head@) =~= ((start + sofar) + seq![head@])
                        + Seq::<Seq<char>>::empty());
                }
                while j < branches.len()
                    invariant
                        0 <= j <= branches.len(),
                        head@ == indent@ + "+"@,
                        mark@ == indent@ + "  ~"@,
                        further@ == indent@ + "    "@,
                        forks.len() == branches@.len(),
                        forall|k: int|
                            0 <= k < branches@.len() ==> (#[trigger] forks[k]) == shape_of(
                                branches@[k],
                            ),
                        forall|k: int|
                            0 <= k < branches@.len() ==> decreases_to!(*dag => #[trigger] branches@[k]),
                        lines_model(out@) == ((start + sofar) + seq![head@]) + branches_lines(
                            forks,
                            j as nat,
                            indent@,
                        ),
                    decreases branches.len() - j,
                {
                    let ghost inner = branches_lines(forks, j as nat, indent@);
                    let ghost base = (start + sofar) + seq![head@];
                    let ghost earlier = out@;
                    out.push(mark.clone());
                    proof {
                        assert(lines_model(out@) =~= lines_model(earlier).push(mark@));
                    }
                    render(&branches[j], further.as_str(), out);
                    proof {
                        let deeper = graph_lines(forks[j as int], further@);
                        assert(((base + inner).push(mark@)) + deeper =~= base + ((inner + seq![
                            mark@,
                        ]) + deeper));
                    }
                    j += 1;
                }
                proof {
                    let all = branches_lines(forks, forks.len(), indent@);
                    assert(((start + sofar) + seq![head@]) + all =~= start + (sofar + (seq![
                        head@,
                    ] + all)));
                }
            },
        }
        i += 1;
    }
}

/// The lines as one text.
fn join(lines: &Vec<String>) -> (r: String)
    ensures
        r@ == joined(lines_model(lines@)),
{
    let mut out = String::new();
    let mut i: usize = 0;
    proof {
        assert(lines_model(lines@).take(0) =~= Seq::<Seq<char>>::empty());
    }
    while i < lines.len()
        invariant
            0 <= i <= lines.len(),
            out@ == joined(lines_model(lines@).take(i as int)),
        decreases lines.len() - i,
    {
        let ghost so_far = out@;
        let ghost more = lines_model(lines@).take(i + 1);
        proof {
            assert(more.drop_last() =~= lines_model(lines@).take(i as int));
            assert(more.last() == lines@[i as int]@);
        }
        if i > 0 {
            out.append("\n");
        }
        out.append(lines[i].as_str());
        proof {
            if i > 0 {
                assert(out@ =~= so_far + "\n"@ + more.last());
            } else {
                assert(so_far =~= Seq::<char>::empty());
                assert(more[0] == more.last());
                assert(out@ =~= more.last());
            }
        }
        i += 1;
    }
    proof {
        assert(lines_model(lines@).take(i as int) =~= lines_model(lines@));
    }
    out
}

/// A plan: the units of work found so far, as a graph, and the changes
/// that the current attempt has gathered.
pub struct Workflow {
    pub(crate) dag: Dag<Arc<WorkUnit>>,
    pub(crate) pending: Vec<PatchOp>,
}

impl View for Workflow {
    type V = PlanModel;

    closed spec fn view(&self) -> PlanModel {
        PlanModel { dag: units_model(items_of(self.dag)), pending: ops_model(self.pending@) }
    }
}

impl Workflow {
    /// The shape of the graph of the plan: its units and forks.
    pub closed spec fn shape(&self) -> Seq<Shape<Arc<WorkUnit>>> {
        shape_of(self.dag)
    }

    /// Whether the units of the plan stand one after the other: whether
    /// its graph has no fork.
    pub closed spec fn in_series(&self) -> bool {
        in_series(self.dag)
    }

    /// The plan without units.
    pub fn default() -> (r: Workflow)
        ensures
            r@.dag.len() == 0,
            r@.pending.len() == 0,
            r.in_series(),
    {
        let dag: Dag<Arc<WorkUnit>> = Dag::new();
        proof {
            assert(units_model(items_of(dag)) =~= Seq::<UnitModel>::empty());
        }
        Workflow { dag, pending: Vec::new() }
    }

    /// The plan of a graph of units, with nothing gathered.
    pub fn from_graph(dag: Dag<Arc<WorkUnit>>) -> (r: Workflow)
        ensures
            r.shape() == shape_of(dag),
            r.in_series() == in_series(dag),
            r@.dag == units_model(items_of(dag)),
            r@.pending.len() == 0,
    {
        Workflow { dag, pending: Vec::new() }
    }

    /// The graph of the plan. Its items are the units of the plan.
    pub fn graph(&self) -> (r: &Dag<Arc<WorkUnit>>)
        ensures
            shape_of(*r) == self.shape(),
            in_series(*r) == self.in_series(),
            units_model(items_of(*r)) == self@.dag,
    {
        &self.dag
    }

    /// The units of work, in an order in which they can run: a unit comes
    /// after the units that it follows in the graph.
    pub fn units(&self) -> (r: Vec<&Arc<WorkUnit>>)
        ensures
            r@.map_values(|u: &Arc<WorkUnit>| (*u)@) == self@.dag,
    {
        let units = self.dag.items();
        proof {
            assert(units@.map_values(|u: &Arc<WorkUnit>| (*u)@) =~= units_model(
                units@.map_values(|u: &Arc<WorkUnit>| *u),
            ));
        }
        units
    }

    /// The changes that the current attempt has gathered.
    pub fn pending(&self) -> (r: &Vec<PatchOp>)
        ensures
            ops_model(r@) == self@.pending,
    {
        &self.pending
    }

    /// The number of units.
    pub fn len(&self) -> (r: usize)
        ensures
            r == self@.dag.len(),
    {
        self.units().len()
    }

    /// Whether the plan has no units.
    pub fn is_empty(&self) -> (r: bool)
        ensures
            r == (self@.dag.len() == 0),
    {
        self.units().len() == 0
    }

    /// Whether a unit of the plan has the id `id`.
    pub fn contains(&self, id: &str) -> (r: bool)
        ensures
            r == has_id(self@.dag, id@),
    {
        let units = self.units();
        let mut i: usize = 0;
        while i < units.len()
            invariant
                0 <= i <= units.len(),
                units@.map_values(|u: &Arc<WorkUnit>| (*u)@) == self@.dag,
                forall|j: int| 0 <= j < i ==> (#[trigger] self@.dag[j]).id != id@,
            decreases units.len() - i,
        {
            proof {
                assert(self@.dag[i as int] == (*units@[i as int])@);
            }
            if same_text(units[i].id.as_str(), id) {
                return true;
            }
            i += 1;
        }
        false
    }

    /// The plan with one more unit before the others.
    pub(crate) fn with_head(self, unit: WorkUnit) -> (r: Workflow)
        ensures
            r@ == (PlanModel { dag: seq![unit@] + self@.dag, pending: self@.pending }),
            r.shape().len() == self.shape().len() + 1,
            r.shape()[0] is Item && r.shape()[0]->Item_0@ == unit@,
            r.shape().skip(1) == self.shape(),
            self.in_series() ==> r.in_series(),
    {
        let ghost before = items_of(self.dag);
        let shared = Arc::new(unit);
        let dag = self.dag.with_head(shared);
        proof {
            assert(units_model(seq![shared] + before) =~= seq![unit@] + units_model(before));
            assert((seq![Shape::Item(shared)] + shape_of(self.dag)).skip(1) =~= shape_of(self.dag));
        }
        Workflow { dag, pending: self.pending }
    }

    /// The plan with more changes gathered.
    pub(crate) fn with_changes(self, changes: &Vec<PatchOp>) -> (r: Workflow)
        ensures
            r@ == (PlanModel { dag: self@.dag, pending: self@.pending + ops_model(changes@) }),
            r.shape() == self.shape(),
            r.in_series() == self.in_series(),
    {
        let mut pending = self.pending;
        let mut i: usize = 0;
        while i < changes.len()
            invariant
                0 <= i <= changes.len(),
                ops_model(pending@) == self@.pending + ops_model(changes@).take(i as int),
            decreases changes.len() - i,
        {
            let ghost gathered = ops_model(pending@);
            pending.push(changes[i].clone());
            proof {
                assert(ops_model(pending@) =~= gathered.push(changes@[i as int]@));
                assert(ops_model(changes@).take(i + 1) =~= ops_model(changes@).take(i as int).push(
                    changes@[i as int]@,
                ));
                assert(ops_model(pending@) =~= self@.pending + ops_model(changes@).take(i + 1));
            }
            i += 1;
        }
        assert(ops_model(changes@).take(i as int) == ops_model(changes@));
        Workflow { dag: self.dag, pending }
    }

    /// The plan with nothing gathered.
    pub(crate) fn settled(self) -> (r: Workflow)
        ensures
            r@ == (PlanModel { dag: self@.dag, pending: Seq::empty() }),
            r.shape() == self.shape(),
            r.in_series() == self.in_series(),
    {
        let pending: Vec<PatchOp> = Vec::new();
        assert(ops_model(pending@) =~= Seq::<OpModel>::empty());
        Workflow { dag: self.dag, pending }
    }

    /// The same units from the last to the first.
    pub(crate) fn reverse(self) -> (r: Workflow)
        ensures
            r@ == (PlanModel { dag: self@.dag.reverse(), pending: self@.pending }),
            r.shape() == mirrored(self.shape()),
            self.in_series() ==> r.in_series(),
    {
        let ghost before = items_of(self.dag);
        let dag = self.dag.reverse();
        proof {
            assert(units_model(before.reverse()) =~= units_model(before).reverse());
        }
        Workflow { dag, pending: self.pending }
    }

    /// The plan as text: the lines that show its graph. A plan whose units
    /// stand one after the other has one line for each, a hyphen, a blank
    /// and the description of the action.
    pub fn to_string(&self) -> (r: String)
        ensures
            r@ == joined(graph_lines(self.shape(), Seq::empty())),
            self.in_series() ==> r@ == joined(units_lines(self@.dag, Seq::empty())),
    {
        proof {
            if self.in_series() {
                lemma_lines_in_series(self.dag, Seq::empty());
            }
        }
        let mut lines: Vec<String> = Vec::new();
        proof {
            reveal_strlit("");
            assert(""@ =~= Seq::<char>::empty());
        }
        render(&self.dag, "", &mut lines);
        proof {
            assert(lines_model(Seq::<String>::empty()) =~= Seq::<Seq<char>>::empty());
            assert(Seq::<Seq<char>>::empty() + graph_lines(shape_of(self.dag), ""@)
                == graph_lines(shape_of(self.dag), ""@));
        }
        join(&lines)
    }
}

impl Clone for Workflow {
    fn clone(&self) -> (r: Self)
        ensures
            r@ == self@,
            r.shape() == self.shape(),
            self.in_series() ==> r.in_series(),
    {
        Workflow { dag: self.dag.share(), pending: clone_ops(&self.pending) }
    }
}

} // verus!
