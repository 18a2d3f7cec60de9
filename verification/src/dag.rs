//! Directed acyclic graphs in series-parallel form.
//!
//! A graph is a sequence of nodes. A node is an item, or a fork: branches
//! that start together and join before the next node. Each branch is a graph
//! again. The items of a graph, read node by node and branch by branch,
//! stand in an order in which they can be worked through.
use crate::task::share;
use std::sync::Arc;
use vstd::prelude::*;

verus! {

/// A node of a graph.
pub enum Node<T> {
    /// One item.
    Item(T),
    /// Branches side by side.
    Fork(Vec<Dag<T>>),
}

/// A graph: its nodes one after the other.
pub struct Dag<T> {
    pub nodes: Vec<Node<T>>,
}

/// The items of a graph, in the order of its nodes.
pub open spec fn items_of<T>(dag: Dag<T>) -> Seq<T>
    decreases dag, 0nat,
{
    nodes_items(dag.nodes@, dag.nodes@.len())
}

/// The items of the first `n` of the nodes.
pub open spec fn nodes_items<T>(nodes: Seq<Node<T>>, n: nat) -> Seq<T>
    decreases nodes, n,
{
    if n == 0 || n > nodes.len() {
        Seq::empty()
    } else {
        nodes_items(nodes, (n - 1) as nat) + node_items(nodes[n - 1])
    }
}

/// The items of a node: the item, or those of the branches of a fork, one
/// branch after the other.
pub open spec fn node_items<T>(node: Node<T>) -> Seq<T>
    decreases node, 0nat,
{
    match node {
        Node::Item(item) => seq![item],
        Node::Fork(branches) => branches_items(branches@, branches@.len()),
    }
}

/// The items of the first `n` of the branches.
pub open spec fn branches_items<T>(branches: Seq<Dag<T>>, n: nat) -> Seq<T>
    decreases branches, n,
{
    if n == 0 || n > branches.len() {
        Seq::empty()
    } else {
        branches_items(branches, (n - 1) as nat) + items_of(branches[n - 1])
    }
}

/// The shape of a node: an item, or a fork with the shapes of its
/// branches.
pub enum Shape<T> {
    Item(T),
    Fork(Seq<Seq<Shape<T>>>),
}

/// The shape of a graph: the shapes of its nodes, in order.
pub open spec fn shape_of<T>(dag: Dag<T>) -> Seq<Shape<T>>
    decreases dag, 0nat,
{
    nodes_shape(dag.nodes@, dag.nodes@.len())
}

/// The shapes of the first `n` of the nodes.
pub open spec fn nodes_shape<T>(nodes: Seq<Node<T>>, n: nat) -> Seq<Shape<T>>
    decreases nodes, n,
{
    if n == 0 || n > nodes.len() {
        Seq::empty()
    } else {
        nodes_shape(nodes, (n - 1) as nat).push(node_shape(nodes[n - 1]))
    }
}

/// The shape of a node.
pub open spec fn node_shape<T>(node: Node<T>) -> Shape<T>
    decreases node, 0nat,
{
    match node {
        Node::Item(item) => Shape::Item(item),
        Node::Fork(branches) => Shape::Fork(branches_shape(branches@, branches@.len())),
    }
}

/// The shapes of the first `n` of the branches.
pub open spec fn branches_shape<T>(branches: Seq<Dag<T>>, n: nat) -> Seq<Seq<Shape<T>>>
    decreases branches, n,
{
    if n == 0 || n > branches.len() {
        Seq::empty()
    } else {
        branches_shape(branches, (n - 1) as nat).push(shape_of(branches[n - 1]))
    }
}

/// The first `n` nodes of a shape read from the end: the last nodes first,
/// each fork with its branches read from the end, and so each branch.
pub open spec fn mirrored_nodes<T>(shape: Seq<Shape<T>>, n: nat) -> Seq<Shape<T>>
    decreases shape, n,
{
    if n == 0 || n > shape.len() {
        Seq::empty()
    } else {
        mirrored_nodes(shape, (n - 1) as nat).push(mirrored_node(shape[shape.len() - n]))
    }
}

/// A node read from the end.
pub open spec fn mirrored_node<T>(node: Shape<T>) -> Shape<T>
    decreases node, 0nat,
{
    match node {
        Shape::Item(item) => Shape::Item(item),
        Shape::Fork(branches) => Shape::Fork(mirrored_branches(branches, branches.len())),
    }
}

/// The first `n` branches of a fork read from the end.
pub open spec fn mirrored_branches<T>(branches: Seq<Seq<Shape<T>>>, n: nat) -> Seq<Seq<Shape<T>>>
    decreases branches, n,
{
    if n == 0 || n > branches.len() {
        Seq::empty()
    } else {
        mirrored_branches(branches, (n - 1) as nat).push(
            mirrored(branches[branches.len() - n]),
        )
    }
}

/// A shape read from the end.
pub open spec fn mirrored<T>(shape: Seq<Shape<T>>) -> Seq<Shape<T>>
    decreases shape, shape.len() + 1,
{
    mirrored_nodes(shape, shape.len())
}

/// The shapes of the first nodes are those of the nodes, one for one.
pub proof fn lemma_nodes_shape<T>(nodes: Seq<Node<T>>, n: nat)
    requires
        n <= nodes.len(),
    ensures
        nodes_shape(nodes, n).len() == n,
        forall|k: int| 0 <= k < n ==> (#[trigger] nodes_shape(nodes, n)[k]) == node_shape(nodes[k]),
    decreases n,
{
    if n > 0 {
        lemma_nodes_shape(nodes, (n - 1) as nat);
    }
}

/// The shapes of the first branches are those of the branches, one for one.
pub proof fn lemma_branches_shape<T>(branches: Seq<Dag<T>>, n: nat)
    requires
        n <= branches.len(),
    ensures
        branches_shape(branches, n).len() == n,
        forall|k: int|
            0 <= k < n ==> (#[trigger] branches_shape(branches, n)[k]) == shape_of(branches[k]),
    decreases n,
{
    if n > 0 {
        lemma_branches_shape(branches, (n - 1) as nat);
    }
}

/// The first nodes of a shape read from the end are its last nodes, each
/// read from the end.
pub proof fn lemma_mirrored_nodes<T>(shape: Seq<Shape<T>>, n: nat)
    requires
        n <= shape.len(),
    ensures
        mirrored_nodes(shape, n).len() == n,
        forall|k: int|
            0 <= k < n ==> (#[trigger] mirrored_nodes(shape, n)[k]) == mirrored_node(
                shape[shape.len() - 1 - k],
            ),
    decreases n,
{
    if n > 0 {
        lemma_mirrored_nodes(shape, (n - 1) as nat);
    }
}

/// The first branches of a fork read from the end are its last branches,
/// each read from the end.
pub proof fn lemma_mirrored_branches<T>(branches: Seq<Seq<Shape<T>>>, n: nat)
    requires
        n <= branches.len(),
    ensures
        mirrored_branches(branches, n).len() == n,
        forall|k: int|
            0 <= k < n ==> (#[trigger] mirrored_branches(branches, n)[k]) == mirrored(
                branches[branches.len() - 1 - k],
            ),
    decreases n,
{
    if n > 0 {
        lemma_mirrored_branches(branches, (n - 1) as nat);
    }
}

/// Whether the graph has no fork: whether its items stand one after the
/// other.
pub open spec fn in_series<T>(dag: Dag<T>) -> bool {
    forall|i: int| 0 <= i < dag.nodes@.len() ==> (#[trigger] dag.nodes@[i]) is Item
}

/// The items of the first nodes depend on those nodes alone.
pub proof fn lemma_nodes_items_prefix<T>(a: Seq<Node<T>>, b: Seq<Node<T>>, n: nat)
    requires
        n <= a.len(),
        n <= b.len(),
        forall|k: int| 0 <= k < n ==> a[k] == b[k],
    ensures
        nodes_items(a, n) == nodes_items(b, n),
    decreases n,
{
    if n > 0 {
        lemma_nodes_items_prefix(a, b, (n - 1) as nat);
    }
}

/// The items of the first branches depend on those branches alone.
pub proof fn lemma_branches_items_prefix<T>(a: Seq<Dag<T>>, b: Seq<Dag<T>>, n: nat)
    requires
        n <= a.len(),
        n <= b.len(),
        forall|k: int| 0 <= k < n ==> a[k] == b[k],
    ensures
        branches_items(a, n) == branches_items(b, n),
    decreases n,
{
    if n > 0 {
        lemma_branches_items_prefix(a, b, (n - 1) as nat);
    }
}

/// With a node put before the others, its items come before theirs.
pub proof fn lemma_nodes_items_front<T>(first: Node<T>, rest: Seq<Node<T>>, n: nat)
    requires
        n <= rest.len(),
    ensures
        nodes_items(seq![first] + rest, n + 1) == node_items(first) + nodes_items(rest, n),
    decreases n,
{
    let all = seq![first] + rest;
    if n == 0 {
        assert(all[0] == first);
        assert(nodes_items(all, 0) == Seq::<T>::empty());
        assert(Seq::<T>::empty() + node_items(first) == node_items(first));
        assert(node_items(first) + Seq::<T>::empty() == node_items(first));
    } else {
        lemma_nodes_items_front(first, rest, (n - 1) as nat);
        assert(all[n as int] == rest[n - 1]);
        assert((node_items(first) + nodes_items(rest, (n - 1) as nat)) + node_items(rest[n - 1])
            == node_items(first) + (nodes_items(rest, (n - 1) as nat) + node_items(rest[n - 1])));
    }
}

/// With a branch put before the others, its items come before theirs.
pub proof fn lemma_branches_items_front<T>(first: Dag<T>, rest: Seq<Dag<T>>, n: nat)
    requires
        n <= rest.len(),
    ensures
        branches_items(seq![first] + rest, n + 1) == items_of(first) + branches_items(rest, n),
    decreases n,
{
    let all = seq![first] + rest;
    if n == 0 {
        assert(all[0] == first);
        assert(branches_items(all, 0) == Seq::<T>::empty());
        assert(Seq::<T>::empty() + items_of(first) == items_of(first));
        assert(items_of(first) + Seq::<T>::empty() == items_of(first));
    } else {
        lemma_branches_items_front(first, rest, (n - 1) as nat);
        assert(all[n as int] == rest[n - 1]);
        assert((items_of(first) + branches_items(rest, (n - 1) as nat)) + items_of(rest[n - 1])
            == items_of(first) + (branches_items(rest, (n - 1) as nat) + items_of(rest[n - 1])));
    }
}

/// Two lists read from the end, one after the other, are the second read
/// from the end and then the first.
pub proof fn lemma_reverse_concat<T>(a: Seq<T>, b: Seq<T>)
    ensures
        (a + b).reverse() == b.reverse() + a.reverse(),
{
    assert((a + b).reverse() =~= b.reverse() + a.reverse());
}

impl<T> Dag<T> {
    /// The graph without nodes.
    pub fn new() -> (r: Dag<T>)
        ensures
            items_of(r).len() == 0,
            shape_of(r).len() == 0,
            in_series(r),
    {
        Dag { nodes: Vec::new() }
    }

    /// The graph of one fork, with the branches as they are.
    pub fn par(branches: Vec<Dag<T>>) -> (r: Dag<T>)
        ensures
            r.nodes@ == seq![Node::Fork(branches)],
            items_of(r) == branches_items(branches@, branches@.len()),
            shape_of(r) == seq![Shape::Fork(branches_shape(branches@, branches@.len()))],
    {
        let mut nodes: Vec<Node<T>> = Vec::new();
        nodes.push(Node::Fork(branches));
        proof {
            assert(nodes@ =~= seq![Node::Fork(branches)]);
            lemma_nodes_shape(nodes@, 1);
            assert(nodes_shape(nodes@, 1) =~= seq![node_shape(nodes@[0])]);
            assert(nodes_items(nodes@, 0) == Seq::<T>::empty());
            assert(Seq::<T>::empty() + node_items(nodes@[0]) == node_items(nodes@[0]));
        }
        Dag { nodes }
    }

    /// The graph with one more item before its nodes.
    pub fn with_head(self, item: T) -> (r: Dag<T>)
        ensures
            r.nodes@ == seq![Node::Item(item)] + self.nodes@,
            items_of(r) == seq![item] + items_of(self),
            shape_of(r) == seq![Shape::Item(item)] + shape_of(self),
            in_series(self) ==> in_series(r),
    {
        let mut nodes = self.nodes;
        let ghost rest = nodes@;
        nodes.insert(0, Node::Item(item));
        proof {
            assert(nodes@ =~= seq![Node::Item(item)] + rest);
            lemma_nodes_items_front(Node::Item(item), rest, rest.len());
            lemma_nodes_shape(nodes@, nodes@.len());
            lemma_nodes_shape(rest, rest.len());
            assert(nodes_shape(nodes@, nodes@.len()) =~= seq![Shape::Item(item)] + nodes_shape(
                rest,
                rest.len(),
            ));
        }
        Dag { nodes }
    }

    /// The graph with one more item after its nodes.
    pub fn with_tail(self, item: T) -> (r: Dag<T>)
        ensures
            r.nodes@ == self.nodes@.push(Node::Item(item)),
            items_of(r) == items_of(self).push(item),
            shape_of(r) == shape_of(self).push(Shape::Item(item)),
            in_series(self) ==> in_series(r),
    {
        let mut nodes = self.nodes;
        let ghost before = nodes@;
        nodes.push(Node::Item(item));
        proof {
            lemma_nodes_items_prefix(nodes@, before, before.len());
            lemma_nodes_shape(nodes@, nodes@.len());
            lemma_nodes_shape(before, before.len());
            assert(nodes_shape(nodes@, nodes@.len()) =~= nodes_shape(before, before.len()).push(
                Shape::Item(item),
            ));
            assert(items_of(self) + seq![item] =~= items_of(self).push(item));
        }
        Dag { nodes }
    }

    /// The graph of the items one after the other.
    pub fn seq(items: Vec<T>) -> (r: Dag<T>)
        ensures
            items_of(r) == items@,
            shape_of(r) == items@.map_values(|item: T| Shape::Item(item)),
            in_series(r),
    {
        let mut rest = items;
        let mut dag: Dag<T> = Dag::new();
        proof {
            assert(shape_of(dag) =~= items@.skip(items@.len() as int).map_values(
                |item: T| Shape::Item(item),
            ));
        }
        while rest.len() > 0
            invariant
                rest@.len() <= items@.len(),
                rest@ == items@.take(rest@.len() as int),
                items_of(dag) == items@.skip(rest@.len() as int),
                shape_of(dag) == items@.skip(rest@.len() as int).map_values(
                    |item: T| Shape::Item(item),
                ),
                in_series(dag),
            decreases rest@.len(),
        {
            let ghost m = rest@.len();
            match rest.pop() {
                Some(item) => {
                    dag = dag.with_head(item);
                    proof {
                        assert(rest@ == items@.take(m - 1));
                        assert(seq![item] + items@.skip(m as int) =~= items@.skip(m - 1));
                        assert(seq![Shape::Item(item)] + items@.skip(m as int).map_values(
                            |item: T| Shape::Item(item),
                        ) =~= items@.skip(m - 1).map_values(|item: T| Shape::Item(item)));
                    }
                },
                None => {},
            }
        }
        proof {
            assert(items@.skip(0) == items@);
        }
        dag
    }

    /// Adds the items of the graph to `out`, in order.
    fn collect<'a>(&'a self, out: &mut Vec<&'a T>)
        ensures
            final(out)@.map_values(|x: &T| *x) == old(out)@.map_values(|x: &T| *x) + items_of(
                *self,
            ),
        decreases *self,
    {
        let ghost start = out@.map_values(|x: &T| *x);
        let mut i: usize = 0;
        proof {
            assert(start + Seq::<T>::empty() == start);
        }
        while i < self.nodes.len()
            invariant
                0 <= i <= self.nodes.len(),
                out@.map_values(|x: &T| *x) == start + nodes_items(self.nodes@, i as nat),
            decreases self.nodes.len() - i,
        {
            let ghost sofar = nodes_items(self.nodes@, i as nat);
            match &self.nodes[i] {
                Node::Item(item) => {
                    out.push(item);
                    proof {
                        assert(self.nodes@[i as int] == Node::Item(*item));
                        assert(nodes_items(self.nodes@, (i + 1) as nat) == sofar + node_items(
                            self.nodes@[i as int],
                        ));
                        assert(out@.map_values(|x: &T| *x) =~= (start + sofar).push(*item));
                        assert((start + sofar).push(*item) =~= start + (sofar + seq![*item]));
                    }
                },
                Node::Fork(branches) => {
                    let mut j: usize = 0;
                    proof {
                        assert(self.nodes@[i as int] == Node::Fork(*branches));
                        assert forall|k: int| 0 <= k < branches@.len() implies decreases_to!(*self => #[trigger] branches@[k]) by {
                            assert(decreases_to!(*self => self.nodes));
                            assert(decreases_to!(self.nodes => self.nodes@));
                            assert(decreases_to!(self.nodes@ => self.nodes@[i as int]));
                            assert(decreases_to!(self.nodes@[i as int] => *branches));
                            assert(decreases_to!(*branches => branches@));
                            assert(decreases_to!(branches@ => branches@[k]));
                        }
                        assert((start + sofar) + Seq::<T>::empty() == start + sofar);
                    }
                    while j < branches.len()
                        invariant
                            0 <= j <= branches.len(),
                            forall|k: int|
                                0 <= k < branches@.len() ==> decreases_to!(*self => #[trigger] branches@[k]),
                            out@.map_values(|x: &T| *x) == (start + sofar) + branches_items(
                                branches@,
                                j as nat,
                            ),
                        decreases branches.len() - j,
                    {
                        let ghost inner = branches_items(branches@, j as nat);
                        branches[j].collect(out);
                        proof {
                            assert(((start + sofar) + inner) + items_of(branches@[j as int]) == (
                            start + sofar) + (inner + items_of(branches@[j as int])));
                        }
                        j += 1;
                    }
                    proof {
                        let all = branches_items(branches@, branches@.len());
                        assert(nodes_items(self.nodes@, (i + 1) as nat) == sofar + node_items(
                            self.nodes@[i as int],
                        ));
                        assert((start + sofar) + all == start + (sofar + all));
                    }
                },
            }
            i += 1;
        }
    }

    /// The graph read from the end: its nodes from the last to the first,
    /// and so the branches of each fork and the nodes of each branch.
    pub fn reverse(self) -> (r: Dag<T>)
        ensures
            items_of(r) == items_of(self).reverse(),
            shape_of(r) == mirrored(shape_of(self)),
            in_series(self) ==> in_series(r),
        decreases self,
    {
        let ghost whole = self;
        let ghost before = self.nodes@;
        let ghost n = before.len();
        let mut rest = self.nodes;
        let mut out: Vec<Node<T>> = Vec::new();
        proof {
            assert(before.take(n as int) == before);
            assert(nodes_items(before.skip(n as int), 0) == Seq::<T>::empty());
            assert(Seq::<T>::empty().reverse() =~= Seq::<T>::empty());
            assert forall|k: int| 0 <= k < n implies decreases_to!(whole => #[trigger] before[k]) by {
                assert(decreases_to!(whole => whole.nodes));
                assert(decreases_to!(whole.nodes => whole.nodes@));
                assert(decreases_to!(whole.nodes@ => whole.nodes@[k]));
            }
        }
        while rest.len() > 0
            invariant
                whole == self,
                n == before.len(),
                rest@.len() <= n,
                rest@ == before.take(rest@.len() as int),
                out@.len() == n - rest@.len(),
                before == whole.nodes@,
                nodes_shape(out@, out@.len()) == mirrored_nodes(shape_of(whole), out@.len()),
                in_series(whole) ==> forall|k: int|
                    0 <= k < out@.len() ==> (#[trigger] out@[k]) is Item,
                forall|k: int| 0 <= k < n ==> decreases_to!(whole => #[trigger] before[k]),
                nodes_items(out@, out@.len()) == nodes_items(
                    before.skip(rest@.len() as int),
                    (n - rest@.len()) as nat,
                ).reverse(),
            decreases rest@.len(),
        {
            let ghost m = rest@.len();
            let ghost done = out@;
            let ghost behind = nodes_items(before.skip(m as int), (n - m) as nat);
            let node = rest.pop().unwrap();
            proof {
                assert(node == before[m - 1]);
                assert(rest@ == before.take(m - 1));
            }
            proof {
                lemma_nodes_shape(before, n);
                lemma_mirrored_nodes(shape_of(whole), (n - m) as nat);
                lemma_nodes_shape(done, done.len());
            }
            let turned = match node {
                Node::Item(item) => {
                    proof {
                        assert(seq![item].reverse() =~= seq![item]);
                    }
                    Node::Item(item)
                },
                Node::Fork(branches) => {
                    let ghost all = branches@;
                    let ghost count = all.len();
                    let mut left = branches;
                    let mut turned: Vec<Dag<T>> = Vec::new();
                    proof {
                        assert(all.take(count as int) == all);
                        assert(branches_items(all.skip(count as int), 0) == Seq::<T>::empty());
                        assert(Seq::<T>::empty().reverse() =~= Seq::<T>::empty());
                        assert forall|k: int| 0 <= k < count implies decreases_to!(whole => #[trigger] all[k]) by {
                            assert(decreases_to!(whole => before[m - 1]));
                            assert(decreases_to!(before[m - 1] => branches));
                            assert(decreases_to!(branches => branches@));
                            assert(decreases_to!(branches@ => all[k]));
                        }
                    }
                    while left.len() > 0
                        invariant
                            whole == self,
                            count == all.len(),
                            left@.len() <= count,
                            left@ == all.take(left@.len() as int),
                            turned@.len() == count - left@.len(),
                            branches_shape(turned@, turned@.len()) == mirrored_branches(
                                branches_shape(all, count),
                                turned@.len(),
                            ),
                            forall|k: int|
                                0 <= k < count ==> decreases_to!(whole => #[trigger] all[k]),
                            branches_items(turned@, turned@.len()) == branches_items(
                                all.skip(left@.len() as int),
                                (count - left@.len()) as nat,
                            ).reverse(),
                        decreases left@.len(),
                    {
                        let ghost q = left@.len();
                        let ghost made = turned@;
                        let ghost after = branches_items(all.skip(q as int), (count - q) as nat);
                        let branch = left.pop().unwrap();
                        proof {
                            assert(branch == all[q - 1]);
                            assert(left@ == all.take(q - 1));
                            assert(decreases_to!(whole => branch));
                        }
                        let back = branch.reverse();
                        turned.push(back);
                        proof {
                            let shapes = branches_shape(all, count);
                            lemma_branches_shape(all, count);
                            lemma_branches_shape(made, made.len());
                            lemma_branches_shape(turned@, turned@.len());
                            lemma_mirrored_branches(shapes, made.len());
                            lemma_mirrored_branches(shapes, turned@.len());
                            assert(shapes[count - 1 - made.len()] == shape_of(all[q - 1]));
                            assert(branches_shape(turned@, turned@.len()) =~= mirrored_branches(
                                shapes,
                                turned@.len(),
                            ));
                            lemma_branches_items_prefix(turned@, made, made.len());
                            assert(all.skip(q - 1) =~= seq![all[q - 1]] + all.skip(q as int));
                            lemma_branches_items_front(
                                all[q - 1],
                                all.skip(q as int),
                                (count - q) as nat,
                            );
                            lemma_reverse_concat(items_of(all[q - 1]), after);
                        }
                    }
                    proof {
                        assert(all.skip(0) == all);
                        lemma_branches_shape(all, count);
                    }
                    Node::Fork(turned)
                },
            };
            proof {
                assert(node_items(turned) == node_items(before[m - 1]).reverse());
                assert(node_shape(turned) == mirrored_node(node_shape(before[m - 1])));
            }
            out.push(turned);
            proof {
                let shapes = shape_of(whole);
                lemma_nodes_shape(out@, out@.len());
                lemma_mirrored_nodes(shapes, out@.len());
                assert(shapes[n - 1 - done.len()] == node_shape(before[m - 1]));
                assert(nodes_shape(out@, out@.len()) =~= mirrored_nodes(shapes, out@.len()));
                lemma_nodes_items_prefix(out@, done, done.len());
                assert(before.skip(m - 1) =~= seq![before[m - 1]] + before.skip(m as int));
                lemma_nodes_items_front(before[m - 1], before.skip(m as int), (n - m) as nat);
                lemma_reverse_concat(node_items(before[m - 1]), behind);
            }
        }
        proof {
            assert(before.skip(0) == before);
            lemma_nodes_shape(before, n);
        }
        Dag { nodes: out }
    }

    /// The items of the graph, in order.
    pub fn items(&self) -> (r: Vec<&T>)
        ensures
            r@.map_values(|x: &T| *x) == items_of(*self),
    {
        let mut out: Vec<&T> = Vec::new();
        self.collect(&mut out);
        proof {
            let none = Seq::<&T>::empty().map_values(|x: &T| *x);
            assert(none =~= Seq::<T>::empty());
            assert(Seq::<T>::empty() + items_of(*self) == items_of(*self));
        }
        out
    }
}

impl<T> Dag<Arc<T>> {
    /// A graph of the same shape that shares the items of this one.
    pub fn share(&self) -> (r: Dag<Arc<T>>)
        ensures
            items_of(r) == items_of(*self),
            shape_of(r) == shape_of(*self),
            in_series(*self) ==> in_series(r),
        decreases *self,
    {
        let mut out: Vec<Node<Arc<T>>> = Vec::new();
        let mut i: usize = 0;
        while i < self.nodes.len()
            invariant
                0 <= i <= self.nodes.len(),
                out@.len() == i,
                in_series(*self) ==> forall|k: int| 0 <= k < i ==> (#[trigger] out@[k]) is Item,
                nodes_items(out@, i as nat) == nodes_items(self.nodes@, i as nat),
                nodes_shape(out@, i as nat) == nodes_shape(self.nodes@, i as nat),
            decreases self.nodes.len() - i,
        {
            let ghost done = out@;
            let copy = match &self.nodes[i] {
                Node::Item(item) => Node::Item(share(item)),
                Node::Fork(branches) => {
                    let mut shared: Vec<Dag<Arc<T>>> = Vec::new();
                    let mut j: usize = 0;
                    proof {
                        assert(self.nodes@[i as int] == Node::Fork(*branches));
                        assert forall|k: int| 0 <= k < branches@.len() implies decreases_to!(*self => #[trigger] branches@[k]) by {
                            assert(decreases_to!(*self => self.nodes));
                            assert(decreases_to!(self.nodes => self.nodes@));
                            assert(decreases_to!(self.nodes@ => self.nodes@[i as int]));
                            assert(decreases_to!(self.nodes@[i as int] => *branches));
                            assert(decreases_to!(*branches => branches@));
                            assert(decreases_to!(branches@ => branches@[k]));
                        }
                    }
                    while j < branches.len()
                        invariant
                            0 <= j <= branches.len(),
                            shared@.len() == j,
                            forall|k: int|
                                0 <= k < branches@.len() ==> decreases_to!(*self => #[trigger] branches@[k]),
                            branches_items(shared@, j as nat) == branches_items(
                                branches@,
                                j as nat,
                            ),
                            branches_shape(shared@, j as nat) == branches_shape(
                                branches@,
                                j as nat,
                            ),
                        decreases branches.len() - j,
                    {
                        let ghost made = shared@;
                        let branch = branches[j].share();
                        shared.push(branch);
                        proof {
                            lemma_branches_items_prefix(shared@, made, made.len());
                            lemma_branches_shape(shared@, shared@.len());
                            lemma_branches_shape(made, made.len());
                            lemma_branches_shape(branches@, (j + 1) as nat);
                            lemma_branches_shape(branches@, j as nat);
                            assert(branches_shape(shared@, (j + 1) as nat) =~= branches_shape(
                                branches@,
                                (j + 1) as nat,
                            ));
                        }
                        j += 1;
                    }
                    Node::Fork(shared)
                },
            };
            proof {
                assert(node_items(copy) == node_items(self.nodes@[i as int]));
                assert(node_shape(copy) == node_shape(self.nodes@[i as int]));
            }
            out.push(copy);
            proof {
                lemma_nodes_items_prefix(out@, done, done.len());
                lemma_nodes_shape(out@, out@.len());
                lemma_nodes_shape(done, done.len());
                lemma_nodes_shape(self.nodes@, (i + 1) as nat);
                lemma_nodes_shape(self.nodes@, i as nat);
                assert(nodes_shape(out@, (i + 1) as nat) =~= nodes_shape(
                    self.nodes@,
                    (i + 1) as nat,
                ));
            }
            i += 1;
        }
        Dag { nodes: out }
    }
}

} // verus!
