//! Node hierarchies: evaluation order, sampled poses and global transforms.

use vstd::prelude::*;

use crate::anim::{
    can_sample, clip_time, is_applied, sample_of, spans, Blend, Channel, ChannelPath, Clip, NodeTrs,
    Sample, NO_PARENT,
};
use crate::scalar::{less, Scalar};
use crate::source::rows;

verus! {

/// A node hierarchy with rest poses, in evaluation order.
#[derive(Debug)]
pub struct Skeleton {
    /// The parent of each node, `NO_PARENT` for a root.
    pub parents: Vec<usize>,
    pub rest: Vec<NodeTrs>,
    /// Nodes, ordered so that parents precede children.
    pub order: Vec<usize>,
}

/// Whether every child index names a node.
pub open spec fn children_in_range(children: Seq<Seq<usize>>) -> bool {
    forall|i: int, k: int|
        0 <= i < children.len() && 0 <= k < children[i].len() ==> #[trigger] children[i][k]
            < children.len()
}

/// Whether a walk down from `node` can take more than `depth` steps.
pub open spec fn deeper_than(children: Seq<Seq<usize>>, node: int, depth: nat) -> bool
    decreases depth,
{
    depth == 0 || exists|k: int|
        0 <= k < children[node].len() && deeper_than(
            children,
            #[trigger] children[node][k] as int,
            (depth - 1) as nat,
        )
}

/// `node` and everything below it, each node before its children and the
/// children in order.
pub open spec fn preorder(children: Seq<Seq<usize>>, node: int, depth: nat) -> Seq<usize>
    decreases depth, 1nat, 0nat,
{
    if depth == 0 {
        Seq::empty()
    } else {
        seq![node as usize] + preorder_each(
            children,
            children[node],
            children[node].len(),
            (depth - 1) as nat,
        )
    }
}

/// The preorders of the first `count` nodes of `nodes`, one after the other.
pub open spec fn preorder_each(
    children: Seq<Seq<usize>>,
    nodes: Seq<usize>,
    count: nat,
    depth: nat,
) -> Seq<usize>
    decreases depth, 2nat, count,
{
    if count == 0 {
        Seq::empty()
    } else {
        preorder_each(children, nodes, (count - 1) as nat, depth) + preorder(
            children,
            nodes[count - 1] as int,
            depth,
        )
    }
}

/// The nodes that are nobody's child among the first `count`, in order.
pub open spec fn roots(parents: Seq<usize>, count: nat) -> Seq<usize>
    decreases count,
{
    if count == 0 {
        Seq::empty()
    } else if parents[count - 1] == NO_PARENT {
        roots(parents, (count - 1) as nat).push((count - 1) as usize)
    } else {
        roots(parents, (count - 1) as nat)
    }
}

/// What `parents` becomes when the first `count` of `nodes` get the parent
/// `parent`.
pub open spec fn adopted(
    parents: Seq<usize>,
    nodes: Seq<usize>,
    count: nat,
    parent: usize,
) -> Seq<usize>
    decreases count,
{
    if count == 0 {
        parents
    } else {
        adopted(parents, nodes, (count - 1) as nat, parent).update(
            nodes[count - 1] as int,
            parent,
        )
    }
}

/// The parent of each node after the first `count` nodes have named their
/// children: the last node that names it.
pub open spec fn parents_of(children: Seq<Seq<usize>>, count: nat) -> Seq<usize>
    decreases count,
{
    if count == 0 {
        Seq::new(children.len(), |i: int| NO_PARENT)
    } else {
        adopted(
            parents_of(children, (count - 1) as nat),
            children[count - 1],
            children[count - 1].len(),
            (count - 1) as usize,
        )
    }
}

/// Whether the hierarchy has a cycle below one of its roots.
pub open spec fn has_cycle(children: Seq<Seq<usize>>) -> bool {
    let starts = roots(parents_of(children, children.len()), children.len());
    exists|k: int|
        0 <= k < starts.len() && #[trigger] deeper_than(
            children,
            starts[k] as int,
            children.len(),
        )
}

/// The evaluation order: the preorder of every root.
pub open spec fn evaluation_order(children: Seq<Seq<usize>>) -> Seq<usize> {
    let starts = roots(parents_of(children, children.len()), children.len());
    preorder_each(children, starts, starts.len(), children.len())
}

proof fn adopted_len(parents: Seq<usize>, nodes: Seq<usize>, count: nat, parent: usize)
    requires
        count <= nodes.len(),
        forall|k: int| 0 <= k < nodes.len() ==> #[trigger] nodes[k] < parents.len(),
    ensures
        adopted(parents, nodes, count, parent).len() == parents.len(),
    decreases count,
{
    if count > 0 {
        adopted_len(parents, nodes, (count - 1) as nat, parent);
    }
}

proof fn parents_len(children: Seq<Seq<usize>>, count: nat)
    requires
        children_in_range(children),
        count <= children.len(),
    ensures
        parents_of(children, count).len() == children.len(),
    decreases count,
{
    if count > 0 {
        parents_len(children, (count - 1) as nat);
        adopted_len(
            parents_of(children, (count - 1) as nat),
            children[count - 1],
            children[count - 1].len(),
            (count - 1) as usize,
        );
    }
}

/// The parent of each node.
pub fn node_parents(children: &Vec<Vec<usize>>) -> (parents: Vec<usize>)
    requires
        children_in_range(rows(children@)),
    ensures
        parents@ == parents_of(rows(children@), children@.len()),
        parents@.len() == children@.len(),
{
    let count: usize = children.len();
    let mut parents: Vec<usize> = Vec::new();
    let mut i: usize = 0;
    while i < count
        invariant
            i <= count,
            parents@ =~= Seq::new(i as nat, |k: int| NO_PARENT),
        decreases count - i,
    {
        parents.push(NO_PARENT);
        i += 1;
    }
    let mut node: usize = 0;
    while node < count
        invariant
            node <= count,
            count == children.len(),
            children_in_range(rows(children@)),
            parents@ == parents_of(rows(children@), node as nat),
            parents@.len() == count,
        decreases count - node,
    {
        let ghost before = parents@;
        let mut k: usize = 0;
        while k < children[node].len()
            invariant
                node < count,
                count == children.len(),
                children_in_range(rows(children@)),
                k <= rows(children@)[node as int].len(),
                parents@ == adopted(before, rows(children@)[node as int], k as nat, node),
                parents@.len() == count,
            decreases rows(children@)[node as int].len() - k,
        {
            let child: usize = children[node][k];
            assert(rows(children@)[node as int][k as int] < children@.len());
            parents.set(child, node);
            k += 1;
        }
        node += 1;
    }
    parents
}

/// What is still to be visited, the top of the stack first.
spec fn pending(children: Seq<Seq<usize>>, stack: Seq<(usize, usize)>) -> Seq<usize>
    decreases stack.len(),
{
    if stack.len() == 0 {
        Seq::empty()
    } else {
        preorder(children, stack.last().0 as int, stack.last().1 as nat) + pending(
            children,
            stack.drop_last(),
        )
    }
}

/// The stack that visits the first `count` of `nodes` next, in order, on top
/// of `stack`.
spec fn stacked(
    stack: Seq<(usize, usize)>,
    nodes: Seq<usize>,
    from: int,
    depth: usize,
) -> Seq<(usize, usize)> {
    stack + Seq::new((nodes.len() - from) as nat, |k: int| (nodes[nodes.len() - 1 - k], depth))
}

proof fn preorder_each_split(
    children: Seq<Seq<usize>>,
    nodes: Seq<usize>,
    count: nat,
    depth: nat,
)
    requires
        0 < count <= nodes.len(),
    ensures
        preorder_each(children, nodes, count, depth) =~= preorder(
            children,
            nodes[0] as int,
            depth,
        ) + preorder_each(children, nodes.skip(1), (count - 1) as nat, depth),
    decreases count,
{
    if count > 1 {
        preorder_each_split(children, nodes, (count - 1) as nat, depth);
        assert(nodes.skip(1)[count - 2] == nodes[count - 1]);
    } else {
        assert(preorder_each(children, nodes, 0, depth) =~= Seq::empty());
        assert(preorder_each(children, nodes.skip(1), 0, depth) =~= Seq::empty());
    }
}

proof fn pending_stacked(
    children: Seq<Seq<usize>>,
    stack: Seq<(usize, usize)>,
    nodes: Seq<usize>,
    from: int,
    depth: usize,
)
    requires
        0 <= from <= nodes.len(),
    ensures
        pending(children, stacked(stack, nodes, from, depth)) =~= preorder_each(
            children,
            nodes.skip(from),
            (nodes.len() - from) as nat,
            depth as nat,
        ) + pending(children, stack),
    decreases nodes.len() - from,
{
    let whole = stacked(stack, nodes, from, depth);
    if from == nodes.len() {
        assert(whole =~= stack);
        assert(preorder_each(children, nodes.skip(from), 0, depth as nat) =~= Seq::empty());
    } else {
        pending_stacked(children, stack, nodes, from + 1, depth);
        assert(whole.drop_last() =~= stacked(stack, nodes, from + 1, depth));
        assert(whole.last() == (nodes[from], depth));
        let rest = nodes.skip(from);
        preorder_each_split(children, rest, rest.len(), depth as nat);
        assert(rest.skip(1) =~= nodes.skip(from + 1));
    }
}

/// How many visits are still to come, the running out of depth included.
spec fn visits(children: Seq<Seq<usize>>, node: int, depth: nat) -> nat
    decreases depth, 1nat, 0nat,
{
    if depth == 0 {
        1
    } else {
        1 + visits_each(children, children[node], children[node].len(), (depth - 1) as nat)
    }
}

spec fn visits_each(children: Seq<Seq<usize>>, nodes: Seq<usize>, count: nat, depth: nat) -> nat
    decreases depth, 2nat, count,
{
    if count == 0 {
        0
    } else {
        visits_each(children, nodes, (count - 1) as nat, depth) + visits(
            children,
            nodes[count - 1] as int,
            depth,
        )
    }
}

spec fn stack_visits(children: Seq<Seq<usize>>, stack: Seq<(usize, usize)>) -> nat
    decreases stack.len(),
{
    if stack.len() == 0 {
        0
    } else {
        visits(children, stack.last().0 as int, stack.last().1 as nat) + stack_visits(
            children,
            stack.drop_last(),
        )
    }
}

proof fn visits_each_split(children: Seq<Seq<usize>>, nodes: Seq<usize>, count: nat, depth: nat)
    requires
        0 < count <= nodes.len(),
    ensures
        visits_each(children, nodes, count, depth) == visits(children, nodes[0] as int, depth)
            + visits_each(children, nodes.skip(1), (count - 1) as nat, depth),
    decreases count,
{
    if count > 1 {
        visits_each_split(children, nodes, (count - 1) as nat, depth);
        assert(nodes.skip(1)[count - 2] == nodes[count - 1]);
    } else {
        assert(visits_each(children, nodes, 0, depth) == 0);
        assert(visits_each(children, nodes.skip(1), 0, depth) == 0);
    }
}

proof fn stack_visits_stacked(
    children: Seq<Seq<usize>>,
    stack: Seq<(usize, usize)>,
    nodes: Seq<usize>,
    from: int,
    depth: usize,
)
    requires
        0 <= from <= nodes.len(),
    ensures
        stack_visits(children, stacked(stack, nodes, from, depth)) == visits_each(
            children,
            nodes.skip(from),
            (nodes.len() - from) as nat,
            depth as nat,
        ) + stack_visits(children, stack),
    decreases nodes.len() - from,
{
    let whole = stacked(stack, nodes, from, depth);
    if from == nodes.len() {
        assert(whole =~= stack);
        assert(visits_each(children, nodes.skip(from), 0, depth as nat) == 0);
    } else {
        stack_visits_stacked(children, stack, nodes, from + 1, depth);
        assert(whole.drop_last() =~= stacked(stack, nodes, from + 1, depth));
        assert(whole.last() == (nodes[from], depth));
        let rest = nodes.skip(from);
        visits_each_split(children, rest, rest.len(), depth as nat);
        assert(rest.skip(1) =~= nodes.skip(from + 1));
    }
}

/// Whether a stack entry runs out of depth.
spec fn stack_too_deep(children: Seq<Seq<usize>>, stack: Seq<(usize, usize)>) -> bool {
    exists|k: int| 0 <= k < stack.len() && #[trigger] entry_too_deep(children, stack[k])
}

spec fn entry_too_deep(children: Seq<Seq<usize>>, entry: (usize, usize)) -> bool {
    deeper_than(children, entry.0 as int, entry.1 as nat)
}

proof fn one_step_deeper(children: Seq<Seq<usize>>, node: int, depth: nat)
    requires
        depth > 0,
    ensures
        deeper_than(children, node, depth) <==> exists|k: int|
            0 <= k < children[node].len() && deeper_than(
                children,
                #[trigger] children[node][k] as int,
                (depth - 1) as nat,
            ),
{
    reveal_with_fuel(deeper_than, 2);
}

/// The nodes that have no parent, in order.
fn root_nodes(parents: &Vec<usize>) -> (found: Vec<usize>)
    ensures
        found@ == roots(parents@, parents@.len()),
        forall|k: int| 0 <= k < found@.len() ==> #[trigger] found@[k] < parents@.len(),
{
    let mut found: Vec<usize> = Vec::new();
    let mut i: usize = 0;
    while i < parents.len()
        invariant
            i <= parents.len(),
            found@ == roots(parents@, i as nat),
            forall|k: int| 0 <= k < found@.len() ==> #[trigger] found@[k] < i,
        decreases parents.len() - i,
    {
        if parents[i] == NO_PARENT {
            found.push(i);
        }
        i += 1;
    }
    found
}

/// Pushes `nodes` so that the first of them is visited next.
fn push_nodes(stack: &mut Vec<(usize, usize)>, nodes: &Vec<usize>, depth: usize)
    ensures
        final(stack)@ == stacked(old(stack)@, nodes@, 0, depth),
{
    let mut from: usize = nodes.len();
    while from > 0
        invariant
            from <= nodes.len(),
            stack@ =~= stacked(old(stack)@, nodes@, from as int, depth),
        decreases from,
    {
        from -= 1;
        stack.push((nodes[from], depth));
    }
}

/// The evaluation order of a hierarchy: each root followed by everything below
/// it, parents first and siblings in order. `None` if a node below a root is
/// its own ancestor.
pub fn parents_first_order(children: &Vec<Vec<usize>>, parents: &Vec<usize>) -> (result: Option<
    Vec<usize>,
>)
    requires
        children_in_range(rows(children@)),
        parents@ == parents_of(rows(children@), rows(children@).len()),
    ensures
        match result {
            Some(order) => !has_cycle(rows(children@)) && order@ == evaluation_order(
                rows(children@),
            ),
            None => has_cycle(rows(children@)),
        },
{
    let ghost table = rows(children@);
    proof {
        parents_len(table, table.len());
    }
    let count: usize = children.len();
    let starts: Vec<usize> = root_nodes(parents);
    let mut stack: Vec<(usize, usize)> = Vec::new();
    push_nodes(&mut stack, &starts, count);
    let mut order: Vec<usize> = Vec::new();
    proof {
        let empty = Seq::<(usize, usize)>::empty();
        pending_stacked(table, empty, starts@, 0, count);
        assert(starts@.skip(0) =~= starts@);
        assert(order@ + pending(table, stack@) =~= evaluation_order(table));
        if stack_too_deep(table, stack@) {
            let k = choose|k: int|
                0 <= k < stack@.len() && #[trigger] entry_too_deep(table, stack@[k]);
            assert(deeper_than(
                table,
                starts@[starts@.len() - 1 - k] as int,
                table.len(),
            ));
        }
        if has_cycle(table) {
            let k = choose|k: int|
                0 <= k < starts@.len() && #[trigger] deeper_than(
                    table,
                    starts@[k] as int,
                    table.len(),
                );
            assert(entry_too_deep(table, stack@[starts@.len() - 1 - k]));
        }
    }
    while stack.len() > 0
        invariant
            count == children.len(),
            table == rows(children@),
            table.len() == count,
            children_in_range(table),
            forall|k: int| 0 <= k < stack@.len() ==> #[trigger] stack@[k].0 < count,
            order@ + pending(table, stack@) == evaluation_order(table),
            stack_too_deep(table, stack@) == has_cycle(table),
        decreases stack_visits(table, stack@),
    {
        let ghost before = stack@;
        let ghost visited = order@;
        let entry = stack.pop();
        let (node, depth) = match entry {
            Some(entry) => entry,
            None => {
                return None;
            },
        };
        assert(before.last() == (node, depth));
        assert(before[before.len() - 1].0 < count);
        let ghost below = before.drop_last();
        assert(stack@ == below);
        if depth == 0 {
            assert(entry_too_deep(table, before[before.len() - 1]));
            return None;
        }
        order.push(node);
        push_nodes(&mut stack, &children[node], depth - 1);
        proof {
            let next = table[node as int];
            let shallower = (depth - 1) as usize;
            pending_stacked(table, below, next, 0, shallower);
            stack_visits_stacked(table, below, next, 0, shallower);
            assert(next.skip(0) =~= next);
            assert(order@ + pending(table, stack@) =~= visited + pending(table, before));
            one_step_deeper(table, node as int, depth as nat);
            if stack_too_deep(table, stack@) {
                let k = choose|k: int|
                    0 <= k < stack@.len() && #[trigger] entry_too_deep(table, stack@[k]);
                if k < below.len() {
                    assert(entry_too_deep(table, before[k]));
                } else {
                    let j = next.len() - 1 - (k - below.len());
                    assert(deeper_than(table, next[j] as int, shallower as nat));
                    assert(entry_too_deep(table, before[before.len() - 1]));
                }
            }
            if stack_too_deep(table, before) {
                let k = choose|k: int|
                    0 <= k < before.len() && #[trigger] entry_too_deep(table, before[k]);
                if k < below.len() {
                    assert(entry_too_deep(table, stack@[k]));
                } else {
                    let j = choose|j: int|
                        0 <= j < next.len() && deeper_than(
                            table,
                            #[trigger] next[j] as int,
                            shallower as nat,
                        );
                    assert(entry_too_deep(table, stack@[below.len() + next.len() - 1 - j]));
                }
            }
            assert forall|k: int| 0 <= k < stack@.len() implies #[trigger] stack@[k].0 < count by {
                if k < below.len() {
                    assert(stack@[k] == before[k]);
                } else {
                    let j = next.len() - 1 - (k - below.len());
                    assert(table[node as int][j] < table.len());
                }
            }
        }
    }
    assert(order@ =~= evaluation_order(table));
    Some(order)
}

/// Whether `nodes` names `node` before position `at` as a parent of `child`.
pub open spec fn named_before(
    children: Seq<Seq<usize>>,
    nodes: Seq<usize>,
    at: int,
    child: usize,
) -> bool {
    exists|q: int|
        0 <= q < at && #[trigger] children[nodes[q] as int].contains(child)
}

proof fn preorder_follows_parents(children: Seq<Seq<usize>>, node: int, depth: nat, at: int)
    requires
        0 <= node <= usize::MAX,
        0 <= at < preorder(children, node, depth).len(),
    ensures
        at == 0 ==> preorder(children, node, depth)[at] == node,
        at > 0 ==> named_before(
            children,
            preorder(children, node, depth),
            at,
            preorder(children, node, depth)[at],
        ),
    decreases depth, 1nat, 0nat,
{
    let whole = preorder(children, node, depth);
    if at > 0 {
        let next = children[node];
        let below = preorder_each(children, next, next.len(), (depth - 1) as nat);
        assert(whole =~= seq![node as usize] + below);
        preorder_each_follows_parents(children, next, next.len(), (depth - 1) as nat, at - 1);
        if next.contains(below[at - 1]) {
            assert(children[whole[0] as int].contains(whole[at]));
        } else {
            let q = choose|q: int|
                0 <= q < at - 1 && #[trigger] children[below[q] as int].contains(below[at - 1]);
            assert(children[whole[q + 1] as int].contains(whole[at]));
        }
    }
}

proof fn preorder_each_follows_parents(
    children: Seq<Seq<usize>>,
    nodes: Seq<usize>,
    count: nat,
    depth: nat,
    at: int,
)
    requires
        count <= nodes.len(),
        0 <= at < preorder_each(children, nodes, count, depth).len(),
    ensures
        nodes.contains(preorder_each(children, nodes, count, depth)[at]) || named_before(
            children,
            preorder_each(children, nodes, count, depth),
            at,
            preorder_each(children, nodes, count, depth)[at],
        ),
    decreases depth, 2nat, count,
{
    let whole = preorder_each(children, nodes, count, depth);
    let first = preorder_each(children, nodes, (count - 1) as nat, depth);
    let last = preorder(children, nodes[count - 1] as int, depth);
    assert(whole =~= first + last);
    if at < first.len() {
        preorder_each_follows_parents(children, nodes, (count - 1) as nat, depth, at);
        if !nodes.contains(whole[at]) {
            let q = choose|q: int|
                0 <= q < at && #[trigger] children[first[q] as int].contains(first[at]);
            assert(children[whole[q] as int].contains(whole[at]));
        }
    } else {
        let inner = at - first.len();
        preorder_follows_parents(children, nodes[count - 1] as int, depth, inner);
        if inner == 0 {
            assert(nodes[count - 1] == whole[at]);
        } else {
            let q = choose|q: int|
                0 <= q < inner && #[trigger] children[last[q] as int].contains(last[inner]);
            assert(children[whole[q + first.len()] as int].contains(whole[at]));
        }
    }
}

proof fn roots_have_no_parent(parents: Seq<usize>, count: nat, node: usize)
    requires
        count <= parents.len() <= usize::MAX,
    ensures
        roots(parents, count).contains(node) <==> node < count && parents[node as int] == NO_PARENT,
    decreases count,
{
    if count > 0 {
        let earlier = roots(parents, (count - 1) as nat);
        roots_have_no_parent(parents, (count - 1) as nat, node);
        if parents[count - 1] == NO_PARENT {
            let all = earlier.push((count - 1) as usize);
            if earlier.contains(node) {
                let k = choose|k: int| 0 <= k < earlier.len() && earlier[k] == node;
                assert(all[k] == node);
            }
            if node == count - 1 {
                assert(all[earlier.len() as int] == node);
            }
            if all.contains(node) && node != count - 1 {
                let k = choose|k: int| 0 <= k < all.len() && all[k] == node;
                assert(earlier[k] == node);
            }
        }
    }
}

/// Parents come first: every node of the evaluation order is a root, or a node
/// that names it as its child stands before it.
pub proof fn parents_precede_children(children: Seq<Seq<usize>>, at: int)
    requires
        children_in_range(children),
        children.len() <= usize::MAX,
        0 <= at < evaluation_order(children).len(),
    ensures
        parents_of(children, children.len())[evaluation_order(children)[at] as int] == NO_PARENT
            || named_before(
            children,
            evaluation_order(children),
            at,
            evaluation_order(children)[at],
        ),
{
    let parents = parents_of(children, children.len());
    parents_len(children, children.len());
    let starts = roots(parents, children.len());
    preorder_each_follows_parents(children, starts, starts.len(), children.len(), at);
    roots_have_no_parent(parents, children.len(), evaluation_order(children)[at]);
}

proof fn preorder_is_closed(
    children: Seq<Seq<usize>>,
    node: int,
    depth: nat,
    at: int,
    child: usize,
)
    requires
        0 <= node <= usize::MAX,
        !deeper_than(children, node, depth),
        0 <= at < preorder(children, node, depth).len(),
        children[preorder(children, node, depth)[at] as int].contains(child),
    ensures
        preorder(children, node, depth).contains(child),
    decreases depth, 1nat, 0nat,
{
    one_step_deeper(children, node, depth);
    let whole = preorder(children, node, depth);
    let next = children[node];
    let below = preorder_each(children, next, next.len(), (depth - 1) as nat);
    assert(whole =~= seq![node as usize] + below);
    if at == 0 {
        let k = choose|k: int| 0 <= k < next.len() && next[k] == child;
        assert(!deeper_than(children, next[k] as int, (depth - 1) as nat));
        preorder_each_has_starts(children, next, next.len(), (depth - 1) as nat, k);
    } else {
        preorder_each_is_closed(
            children,
            next,
            next.len(),
            (depth - 1) as nat,
            at - 1,
            child,
        );
    }
    let j = choose|j: int| 0 <= j < below.len() && below[j] == child;
    assert(whole[j + 1] == child);
}

proof fn preorder_each_has_starts(
    children: Seq<Seq<usize>>,
    nodes: Seq<usize>,
    count: nat,
    depth: nat,
    k: int,
)
    requires
        0 <= k < count <= nodes.len(),
        !deeper_than(children, nodes[k] as int, depth),
    ensures
        preorder_each(children, nodes, count, depth).contains(nodes[k]),
    decreases count,
{
    let whole = preorder_each(children, nodes, count, depth);
    let first = preorder_each(children, nodes, (count - 1) as nat, depth);
    let last = preorder(children, nodes[count - 1] as int, depth);
    assert(whole =~= first + last);
    if k == count - 1 {
        assert(depth > 0);
        assert(last[0] == nodes[k]);
        assert(whole[first.len() as int] == nodes[k]);
    } else {
        preorder_each_has_starts(children, nodes, (count - 1) as nat, depth, k);
        let j = choose|j: int| 0 <= j < first.len() && first[j] == nodes[k];
        assert(whole[j] == nodes[k]);
    }
}

proof fn preorder_each_is_closed(
    children: Seq<Seq<usize>>,
    nodes: Seq<usize>,
    count: nat,
    depth: nat,
    at: int,
    child: usize,
)
    requires
        count <= nodes.len(),
        forall|k: int|
            0 <= k < nodes.len() ==> !deeper_than(children, #[trigger] nodes[k] as int, depth),
        0 <= at < preorder_each(children, nodes, count, depth).len(),
        children[preorder_each(children, nodes, count, depth)[at] as int].contains(child),
    ensures
        preorder_each(children, nodes, count, depth).contains(child),
    decreases depth, 2nat, count,
{
    let whole = preorder_each(children, nodes, count, depth);
    let first = preorder_each(children, nodes, (count - 1) as nat, depth);
    let last = preorder(children, nodes[count - 1] as int, depth);
    assert(whole =~= first + last);
    if at < first.len() {
        preorder_each_is_closed(children, nodes, (count - 1) as nat, depth, at, child);
        let j = choose|j: int| 0 <= j < first.len() && first[j] == child;
        assert(whole[j] == child);
    } else {
        assert(!deeper_than(children, nodes[count - 1] as int, depth));
        preorder_is_closed(
            children,
            nodes[count - 1] as int,
            depth,
            at - first.len(),
            child,
        );
        let j = choose|j: int| 0 <= j < last.len() && last[j] == child;
        assert(whole[first.len() + j] == child);
    }
}

/// Nothing reachable is left out: the evaluation order holds every root and
/// every child of a node that it holds.
pub proof fn order_reaches_everything(children: Seq<Seq<usize>>, node: usize)
    requires
        children_in_range(children),
        children.len() <= usize::MAX,
        !has_cycle(children),
        node < children.len(),
    ensures
        parents_of(children, children.len())[node as int] == NO_PARENT ==> evaluation_order(
            children,
        ).contains(node),
        forall|at: int|
            0 <= at < evaluation_order(children).len() && (
            #[trigger] children[evaluation_order(children)[at] as int]).contains(node)
                ==> evaluation_order(children).contains(node),
{
    let parents = parents_of(children, children.len());
    parents_len(children, children.len());
    let starts = roots(parents, children.len());
    let whole = evaluation_order(children);
    roots_have_no_parent(parents, children.len(), node);
    assert forall|k: int| 0 <= k < starts.len() implies !deeper_than(
        children,
        #[trigger] starts[k] as int,
        children.len(),
    ) by {}
    if parents[node as int] == NO_PARENT {
        let k = choose|k: int| 0 <= k < starts.len() && starts[k] == node;
        preorder_each_has_starts(children, starts, starts.len(), children.len(), k);
    }
    assert forall|at: int|
        0 <= at < whole.len() && (#[trigger] children[whole[at] as int]).contains(
            node,
        ) implies whole.contains(node) by {
        preorder_each_is_closed(children, starts, starts.len(), children.len(), at, node);
    }
}

/// Whether no node is named as a child twice.
pub open spec fn named_once(children: Seq<Seq<usize>>) -> bool {
    forall|i: int, k: int, j: int, l: int|
        0 <= i < children.len() && 0 <= k < children[i].len() && 0 <= j < children.len() && 0 <= l
            < children[j].len() && #[trigger] children[i][k] == #[trigger] children[j][l] ==> i == j
            && k == l
}

/// Whether the nodes make a forest: none has two parents, and no walk down from
/// a node goes on for ever.
pub open spec fn is_forest(children: Seq<Seq<usize>>) -> bool {
    &&& named_once(children)
    &&& forall|node: int|
        0 <= node < children.len() ==> !#[trigger] deeper_than(children, node, children.len())
}

/// Where the node at position `at` of a preorder comes from: the position of
/// its parent and its place among the children there.
spec fn origin(children: Seq<Seq<usize>>, node: int, depth: nat, at: int) -> (int, int)
    decreases depth, 1nat, 0nat,
{
    if depth == 0 {
        (0, 0)
    } else {
        let found = origin_each(
            children,
            children[node],
            children[node].len(),
            (depth - 1) as nat,
            at - 1,
        );
        (found.0 + 1, found.1)
    }
}

/// Where the node at position `at` of several preorders comes from; a node that
/// starts one of them has the position -1 and its place among the starts.
spec fn origin_each(
    children: Seq<Seq<usize>>,
    nodes: Seq<usize>,
    count: nat,
    depth: nat,
    at: int,
) -> (int, int)
    decreases depth, 2nat, count,
{
    if count == 0 {
        (-1, 0)
    } else {
        let first = preorder_each(children, nodes, (count - 1) as nat, depth);
        if at < first.len() {
            origin_each(children, nodes, (count - 1) as nat, depth, at)
        } else if at == first.len() {
            (-1, count - 1)
        } else {
            let found = origin(children, nodes[count - 1] as int, depth, at - first.len());
            (found.0 + first.len(), found.1)
        }
    }
}

proof fn origin_is_a_parent(children: Seq<Seq<usize>>, node: int, depth: nat, at: int)
    requires
        0 <= node <= usize::MAX,
        0 < at < preorder(children, node, depth).len(),
    ensures
        ({
            let whole = preorder(children, node, depth);
            let (parent, place) = origin(children, node, depth, at);
            &&& 0 <= parent < at
            &&& 0 <= place < children[whole[parent] as int].len()
            &&& children[whole[parent] as int][place] == whole[at]
        }),
    decreases depth, 1nat, 0nat,
{
    let whole = preorder(children, node, depth);
    let next = children[node];
    let below = preorder_each(children, next, next.len(), (depth - 1) as nat);
    assert(whole =~= seq![node as usize] + below);
    origin_each_is_a_parent(children, next, next.len(), (depth - 1) as nat, at - 1);
    let found = origin_each(children, next, next.len(), (depth - 1) as nat, at - 1);
    if found.0 >= 0 {
        assert(whole[found.0 + 1] == below[found.0]);
    }
}

proof fn origin_each_is_a_parent(
    children: Seq<Seq<usize>>,
    nodes: Seq<usize>,
    count: nat,
    depth: nat,
    at: int,
)
    requires
        count <= nodes.len(),
        0 <= at < preorder_each(children, nodes, count, depth).len(),
    ensures
        ({
            let whole = preorder_each(children, nodes, count, depth);
            let (parent, place) = origin_each(children, nodes, count, depth, at);
            &&& -1 <= parent < at
            &&& parent == -1 ==> 0 <= place < count && nodes[place] == whole[at]
            &&& parent >= 0 ==> 0 <= place < children[whole[parent] as int].len()
                && children[whole[parent] as int][place] == whole[at]
        }),
    decreases depth, 2nat, count,
{
    let whole = preorder_each(children, nodes, count, depth);
    let first = preorder_each(children, nodes, (count - 1) as nat, depth);
    let last = preorder(children, nodes[count - 1] as int, depth);
    assert(whole =~= first + last);
    if at < first.len() {
        origin_each_is_a_parent(children, nodes, (count - 1) as nat, depth, at);
        let found = origin_each(children, nodes, (count - 1) as nat, depth, at);
        if found.0 >= 0 {
            assert(whole[found.0] == first[found.0]);
        }
    } else if at == first.len() {
        assert(last[0] == nodes[count - 1]);
    } else {
        origin_is_a_parent(children, nodes[count - 1] as int, depth, at - first.len());
        let found = origin(children, nodes[count - 1] as int, depth, at - first.len());
        assert(whole[found.0 + first.len()] == last[found.0]);
    }
}

proof fn origins_are_distinct(children: Seq<Seq<usize>>, node: int, depth: nat, a: int, b: int)
    requires
        0 <= node <= usize::MAX,
        0 < a < b < preorder(children, node, depth).len(),
    ensures
        origin(children, node, depth, a) != origin(children, node, depth, b),
    decreases depth, 1nat, 0nat,
{
    let next = children[node];
    let below = preorder_each(children, next, next.len(), (depth - 1) as nat);
    assert(preorder(children, node, depth) =~= seq![node as usize] + below);
    origins_each_are_distinct(children, next, next.len(), (depth - 1) as nat, a - 1, b - 1);
}

proof fn origins_each_are_distinct(
    children: Seq<Seq<usize>>,
    nodes: Seq<usize>,
    count: nat,
    depth: nat,
    a: int,
    b: int,
)
    requires
        count <= nodes.len(),
        0 <= a < b < preorder_each(children, nodes, count, depth).len(),
    ensures
        origin_each(children, nodes, count, depth, a) != origin_each(
            children,
            nodes,
            count,
            depth,
            b,
        ),
    decreases depth, 2nat, count,
{
    let first = preorder_each(children, nodes, (count - 1) as nat, depth);
    let last = preorder(children, nodes[count - 1] as int, depth);
    assert(preorder_each(children, nodes, count, depth) =~= first + last);
    let root = nodes[count - 1] as int;
    if b < first.len() {
        origins_each_are_distinct(children, nodes, (count - 1) as nat, depth, a, b);
    } else {
        if a < first.len() {
            origin_each_is_a_parent(children, nodes, (count - 1) as nat, depth, a);
        } else if a > first.len() {
            origins_are_distinct(children, root, depth, a - first.len(), b - first.len());
        }
        if b > first.len() {
            origin_is_a_parent(children, root, depth, b - first.len());
        }
    }
}

proof fn adopted_names(
    parents: Seq<usize>,
    nodes: Seq<usize>,
    count: nat,
    parent: usize,
    node: usize,
)
    requires
        count <= nodes.len(),
        forall|k: int| 0 <= k < nodes.len() ==> #[trigger] nodes[k] < parents.len(),
        node < parents.len(),
    ensures
        adopted(parents, nodes, count, parent).len() == parents.len(),
        adopted(parents, nodes, count, parent)[node as int] == (if nodes.take(
            count as int,
        ).contains(node) {
            parent
        } else {
            parents[node as int]
        }),
    decreases count,
{
    if count > 0 {
        adopted_names(parents, nodes, (count - 1) as nat, parent, node);
        let earlier = nodes.take(count - 1);
        let taken = nodes.take(count as int);
        assert(taken =~= earlier.push(nodes[count - 1]));
        if earlier.contains(node) {
            let k = choose|k: int| 0 <= k < earlier.len() && earlier[k] == node;
            assert(taken[k] == node);
        }
        if nodes[count - 1] == node {
            assert(taken[count - 1] == node);
        } else if taken.contains(node) {
            let k = choose|k: int| 0 <= k < taken.len() && taken[k] == node;
            assert(earlier[k] == node);
        }
    }
}

/// Whether `parent` is the parent of `node` after `count` nodes have named
/// their children.
spec fn is_parent(children: Seq<Seq<usize>>, count: nat, node: usize, parent: usize) -> bool {
    if parent == NO_PARENT {
        forall|p: int| 0 <= p < count ==> !(#[trigger] children[p]).contains(node)
    } else {
        parent < count && children[parent as int].contains(node)
    }
}

proof fn parents_name_their_children(children: Seq<Seq<usize>>, count: nat, node: usize)
    requires
        children_in_range(children),
        children.len() <= usize::MAX,
        count <= children.len(),
        node < children.len(),
    ensures
        is_parent(children, count, node, parents_of(children, count)[node as int]),
    decreases count,
{
    if count > 0 {
        let earlier = (count - 1) as nat;
        let nodes = children[count - 1];
        parents_len(children, earlier);
        parents_name_their_children(children, earlier, node);
        adopted_names(
            parents_of(children, earlier),
            nodes,
            nodes.len(),
            earlier as usize,
            node,
        );
        assert(nodes.take(nodes.len() as int) =~= nodes);
    }
}

proof fn roots_are_distinct(parents: Seq<usize>, count: nat, a: int, b: int)
    requires
        count <= parents.len() <= usize::MAX,
        0 <= a < b < roots(parents, count).len(),
    ensures
        roots(parents, count)[a] < roots(parents, count)[b] < count,
    decreases count,
{
    let earlier = roots(parents, (count - 1) as nat);
    if b < earlier.len() {
        roots_are_distinct(parents, (count - 1) as nat, a, b);
    } else {
        assert(earlier.contains(earlier[a]));
        roots_have_no_parent(parents, (count - 1) as nat, earlier[a]);
    }
}

proof fn order_is_in_range(children: Seq<Seq<usize>>, at: int)
    requires
        children_in_range(children),
        children.len() <= usize::MAX,
        0 <= at < evaluation_order(children).len(),
    ensures
        evaluation_order(children)[at] < children.len(),
    decreases at,
{
    let parents = parents_of(children, children.len());
    parents_len(children, children.len());
    let starts = roots(parents, children.len());
    let whole = evaluation_order(children);
    origin_each_is_a_parent(children, starts, starts.len(), children.len(), at);
    let (parent, place) = origin_each(children, starts, starts.len(), children.len(), at);
    if parent == -1 {
        assert(starts.contains(starts[place]));
        roots_have_no_parent(parents, children.len(), starts[place]);
    } else {
        order_is_in_range(children, parent);
        assert(children[whole[parent] as int][place] < children.len());
    }
}

/// Where no node has two parents, the evaluation order lists none twice.
pub proof fn order_lists_nodes_once(children: Seq<Seq<usize>>, a: int, b: int)
    requires
        children_in_range(children),
        children.len() <= usize::MAX,
        named_once(children),
        0 <= a < b < evaluation_order(children).len(),
    ensures
        evaluation_order(children)[a] != evaluation_order(children)[b],
    decreases a,
{
    let count = children.len();
    let parents = parents_of(children, count);
    parents_len(children, count);
    let starts = roots(parents, count);
    let whole = evaluation_order(children);
    let node = whole[a];
    if node == whole[b] {
        origin_each_is_a_parent(children, starts, starts.len(), count, a);
        origin_each_is_a_parent(children, starts, starts.len(), count, b);
        origins_each_are_distinct(children, starts, starts.len(), count, a, b);
        let (p, k) = origin_each(children, starts, starts.len(), count, a);
        let (q, l) = origin_each(children, starts, starts.len(), count, b);
        order_is_in_range(children, a);
        parents_name_their_children(children, count, node);
        roots_have_no_parent(parents, count, node);
        if p >= 0 {
            order_is_in_range(children, p);
            assert(children[whole[p] as int].contains(node));
        } else {
            assert(starts.contains(starts[k]));
        }
        if q >= 0 {
            order_is_in_range(children, q);
            assert(children[whole[q] as int].contains(node));
        } else {
            assert(starts.contains(starts[l]));
        }
        if p >= 0 && q >= 0 {
            assert(children[whole[p] as int][k] == children[whole[q] as int][l]);
            assert(whole[p] == whole[q] && k == l);
            if p < q {
                order_lists_nodes_once(children, p, q);
            } else if q < p {
                order_lists_nodes_once(children, q, p);
            }
        } else if p == -1 && q == -1 {
            if k < l {
                roots_are_distinct(parents, count, k, l);
            } else if l < k {
                roots_are_distinct(parents, count, l, k);
            }
        }
    }
}

proof fn nodes_are_listed(children: Seq<Seq<usize>>, node: usize, depth: nat)
    requires
        children_in_range(children),
        children.len() <= usize::MAX,
        is_forest(children),
        node < children.len(),
        depth <= children.len(),
        deeper_than(children, node as int, depth),
    ensures
        evaluation_order(children).contains(node),
    decreases children.len() - depth,
{
    let count = children.len();
    let whole = evaluation_order(children);
    forests_have_no_cycle(children);
    order_reaches_everything(children, node);
    parents_name_their_children(children, count, node);
    let parent = parents_of(children, count)[node as int];
    assert(depth < count);
    if parent != NO_PARENT {
        let names = children[parent as int];
        let k = choose|k: int| 0 <= k < names.len() && names[k] == node;
        one_step_deeper(children, parent as int, depth + 1);
        assert(deeper_than(children, children[parent as int][k] as int, depth));
        nodes_are_listed(children, parent, depth + 1);
        let at = choose|at: int| 0 <= at < whole.len() && whole[at] == parent;
        assert(children[whole[at] as int].contains(node));
    }
}

proof fn forests_have_no_cycle(children: Seq<Seq<usize>>)
    requires
        children_in_range(children),
        children.len() <= usize::MAX,
        is_forest(children),
    ensures
        !has_cycle(children),
{
    let parents = parents_of(children, children.len());
    parents_len(children, children.len());
    let starts = roots(parents, children.len());
    assert forall|k: int| 0 <= k < starts.len() implies !#[trigger] deeper_than(
        children,
        starts[k] as int,
        children.len(),
    ) by {
        assert(starts.contains(starts[k]));
        roots_have_no_parent(parents, children.len(), starts[k]);
    }
}

/// The evaluation order of a forest lists every node exactly once.
pub proof fn forests_are_listed_once(children: Seq<Seq<usize>>)
    requires
        children_in_range(children),
        children.len() <= usize::MAX,
        is_forest(children),
    ensures
        !has_cycle(children),
        forall|node: usize|
            node < children.len() ==> #[trigger] evaluation_order(children).contains(node),
        forall|a: int, b: int|
            0 <= a < b < evaluation_order(children).len() ==> #[trigger] evaluation_order(
                children,
            )[a] != #[trigger] evaluation_order(children)[b],
{
    forests_have_no_cycle(children);
    assert forall|node: usize| node < children.len() implies #[trigger] evaluation_order(
        children,
    ).contains(node) by {
        nodes_are_listed(children, node, 0);
    }
    assert forall|a: int, b: int|
        0 <= a < b < evaluation_order(children).len() implies #[trigger] evaluation_order(
        children,
    )[a] != #[trigger] evaluation_order(children)[b] by {
        order_lists_nodes_once(children, a, b);
    }
}

/// A hierarchy in evaluation order names only nodes. Where none has two
/// parents, it puts parents first.
pub proof fn ordered_hierarchies_put_parents_first(
    children: Seq<Seq<usize>>,
    skeleton: Skeleton,
)
    requires
        children_in_range(children),
        children.len() <= usize::MAX,
        skeleton.parents@ == parents_of(children, children.len()),
        skeleton.order@ == evaluation_order(children),
    ensures
        skeleton.in_range(children.len()),
        named_once(children) ==> skeleton.parents_first(),
{
    let count = children.len();
    let whole = evaluation_order(children);
    parents_len(children, count);
    assert forall|k: int| 0 <= k < whole.len() implies #[trigger] whole[k] < count by {
        order_is_in_range(children, k);
    }
    assert forall|i: int| 0 <= i < count implies #[trigger] skeleton.parents@[i] == NO_PARENT
        || skeleton.parents@[i] < count by {
        parents_name_their_children(children, count, i as usize);
    }
    if named_once(children) {
        assert forall|j: int, k: int| 0 <= j < k < whole.len() implies #[trigger] whole[j]
            != #[trigger] whole[k] by {
            order_lists_nodes_once(children, j, k);
        }
        assert forall|k: int|
            0 <= k < whole.len() && skeleton.parents@[#[trigger] whole[k] as int]
                != NO_PARENT implies skeleton.parent_stands_before(k) by {
            only_parent_stands_before(children, skeleton, k);
        }
    }
}

proof fn only_parent_stands_before(children: Seq<Seq<usize>>, skeleton: Skeleton, k: int)
    requires
        children_in_range(children),
        children.len() <= usize::MAX,
        named_once(children),
        skeleton.parents@ == parents_of(children, children.len()),
        skeleton.order@ == evaluation_order(children),
        0 <= k < skeleton.order@.len(),
        skeleton.parents@[skeleton.order@[k] as int] != NO_PARENT,
    ensures
        skeleton.parent_stands_before(k),
{
    let whole = evaluation_order(children);
    let node = whole[k];
    let parent = skeleton.parents@[node as int];
    order_is_in_range(children, k);
    parents_precede_children(children, k);
    parents_name_their_children(children, children.len(), node);
    let q = choose|q: int| 0 <= q < k && #[trigger] children[whole[q] as int].contains(node);
    order_is_in_range(children, q);
    let (names, named) = (children[whole[q] as int], children[parent as int]);
    let a = choose|a: int| 0 <= a < names.len() && names[a] == node;
    let b = choose|b: int| 0 <= b < named.len() && named[b] == node;
    assert(children[whole[q] as int][a] == children[parent as int][b]);
    assert(whole[q] == parent);
}

/// Whether `after` is `before` with the transform of `node` found from its
/// parent's: its local transform for a root, else the composition of the
/// parent's transform and its local one.
pub open spec fn transform_step<M, F: Fn(M, M) -> M>(
    parents: Seq<usize>,
    locals: Seq<M>,
    compose: F,
    node: int,
    before: Seq<M>,
    after: Seq<M>,
) -> bool {
    &&& after.len() == before.len()
    &&& after == before.update(node, after[node])
    &&& if parents[node] == NO_PARENT {
        after[node] == locals[node]
    } else {
        call_ensures(compose, (before[parents[node] as int], locals[node]), after[node])
    }
}

/// Whether `trace` holds the transforms before and after each step along the
/// order of `skeleton`, starting from `identity` everywhere.
pub open spec fn transform_trace<M, F: Fn(M, M) -> M>(
    skeleton: Skeleton,
    locals: Seq<M>,
    identity: M,
    compose: F,
    trace: Seq<Seq<M>>,
) -> bool {
    &&& trace.len() == skeleton.order@.len() + 1
    &&& trace[0] == Seq::new(locals.len(), |i: int| identity)
    &&& forall|k: int|
        0 <= k < skeleton.order@.len() ==> #[trigger] transform_step(
            skeleton.parents@,
            locals,
            compose,
            skeleton.order@[k] as int,
            trace[k],
            trace[k + 1],
        )
}

/// Which of the first `count` channels change a node of a hierarchy of `nodes`
/// nodes at time `t`.
pub open spec fn sampled_channels(
    channels: Seq<Channel>,
    nodes: nat,
    t: Scalar,
    count: nat,
) -> Seq<int>
    decreases count,
{
    if count == 0 {
        Seq::empty()
    } else {
        let earlier = sampled_channels(channels, nodes, t, (count - 1) as nat);
        let channel = channels[count - 1];
        if channel.node < nodes && can_sample(channel, t) {
            earlier.push(count - 1)
        } else {
            earlier
        }
    }
}

/// Whether `taken` is a sample of `channel` at `t`.
pub open spec fn is_sample(channel: Channel, t: Scalar, taken: Sample) -> bool {
    exists|lo: int, hi: int|
        spans(channel.times@, t, lo, hi) && 0 <= lo <= hi < channel.times@.len()
            && #[trigger] sample_of(channel, t, lo, hi, taken)
}

/// Whether `time` is the time within `clip` that `t` stands for: wrapped where
/// the clip loops, else held within it, and zero for a clip without length.
pub open spec fn is_clip_time<W: Fn(Scalar, Scalar) -> Scalar>(
    clip: Clip,
    t: Scalar,
    looping: bool,
    wrap: W,
    time: Scalar,
) -> bool {
    if looping && less(Scalar { bits: 0 }, clip.duration) {
        call_ensures(wrap, (t, clip.duration), time)
    } else {
        time == clip_time(clip.duration, t, looping, t)
    }
}

/// Whether a channel of `clip` names `node`.
pub open spec fn is_animated(clip: Option<&Clip>, node: int) -> bool {
    clip matches Some(clip) && exists|c: int|
        0 <= c < clip.channels@.len() && (#[trigger] clip.channels@[c]).node == node
}

/// Whether `after` is `before` with a sample of `channel` written into its node.
pub open spec fn pose_step<
    L: Fn([Scalar; 3], [Scalar; 3], Blend) -> [Scalar; 3],
    S: Fn([Scalar; 4], [Scalar; 4], Blend) -> [Scalar; 4],
>(
    channel: Channel,
    time: Scalar,
    lerp: L,
    slerp: S,
    before: Seq<NodeTrs>,
    after: Seq<NodeTrs>,
) -> bool {
    let node = channel.node as int;
    &&& after == before.update(node, after[node])
    &&& exists|sample: Sample| #[trigger]
        is_sample(channel, time, sample) && is_applied(
            sample,
            lerp,
            slerp,
            before[node],
            after[node],
        )
}

/// Whether `trace` holds the local transforms before and after each of the
/// first `count` channels that changes one, starting from the rest pose.
pub open spec fn pose_trace<
    L: Fn([Scalar; 3], [Scalar; 3], Blend) -> [Scalar; 3],
    S: Fn([Scalar; 4], [Scalar; 4], Blend) -> [Scalar; 4],
>(
    rest: Seq<NodeTrs>,
    clip: Clip,
    time: Scalar,
    count: nat,
    lerp: L,
    slerp: S,
    trace: Seq<Seq<NodeTrs>>,
) -> bool {
    let taken = sampled_channels(clip.channels@, rest.len(), time, count);
    &&& trace.len() == taken.len() + 1
    &&& trace[0] == rest
    &&& forall|k: int|
        0 <= k < taken.len() ==> #[trigger] pose_step(
            clip.channels@[taken[k]],
            time,
            lerp,
            slerp,
            trace[k],
            trace[k + 1],
        )
}

impl Skeleton {
    /// Whether every index of the hierarchy names a node.
    pub open spec fn in_range(self, nodes: nat) -> bool {
        &&& forall|k: int|
            0 <= k < self.order@.len() ==> #[trigger] self.order@[k] < nodes
                && self.order@[k] < self.parents@.len()
        &&& forall|i: int|
            0 <= i < self.parents@.len() ==> #[trigger] self.parents@[i] == NO_PARENT
                || self.parents@[i] < nodes
    }

    /// Whether the order lists no node twice and every parent before its
    /// children.
    pub open spec fn parents_first(self) -> bool {
        &&& forall|j: int, k: int|
            0 <= j < k < self.order@.len() ==> #[trigger] self.order@[j]
                != #[trigger] self.order@[k]
        &&& forall|k: int|
            0 <= k < self.order@.len() && self.parents@[#[trigger] self.order@[k] as int]
                != NO_PARENT ==> self.parent_stands_before(k)
    }

    /// Whether the parent of the node at position `k` stands before it.
    pub open spec fn parent_stands_before(self, k: int) -> bool {
        exists|j: int|
            0 <= j < k && #[trigger] self.order@[j] == self.parents@[self.order@[k] as int]
    }

    /// Samples `clip` at `t` into a local transform per node, starting from the
    /// rest pose. Channels that name no node of the hierarchy change nothing.
    /// `wrap` brings a time into a duration, `lerp` and `slerp` mix keys.
    pub fn sample_locals<
        W: Fn(Scalar, Scalar) -> Scalar,
        L: Fn([Scalar; 3], [Scalar; 3], Blend) -> [Scalar; 3],
        S: Fn([Scalar; 4], [Scalar; 4], Blend) -> [Scalar; 4],
    >(
        &self,
        clip: Option<&Clip>,
        t: Scalar,
        looping: bool,
        wrap: W,
        lerp: L,
        slerp: S,
        locals: &mut Vec<NodeTrs>,
    )
        requires
            forall|t: Scalar, duration: Scalar| #[trigger] call_requires(wrap, (t, duration)),
            forall|from: [Scalar; 3], to: [Scalar; 3], blend: Blend| #[trigger]
                call_requires(lerp, (from, to, blend)),
            forall|from: [Scalar; 4], to: [Scalar; 4], blend: Blend| #[trigger]
                call_requires(slerp, (from, to, blend)),
        ensures
            final(locals)@.len() == self.rest@.len(),
            forall|i: int|
                0 <= i < self.rest@.len() && !is_animated(clip, i) ==> #[trigger] final(locals)@[i]
                    == self.rest@[i],
            match clip {
                None => final(locals)@ == self.rest@,
                Some(clip) => exists|time: Scalar, trace: Seq<Seq<NodeTrs>>|
                    is_clip_time(*clip, t, looping, wrap, time) && #[trigger] pose_trace(
                        self.rest@,
                        *clip,
                        time,
                        clip.channels@.len(),
                        lerp,
                        slerp,
                        trace,
                    ) && final(locals)@ == trace.last(),
            },
    {
        locals.clear();
        let nodes: usize = self.rest.len();
        let mut i: usize = 0;
        while i < nodes
            invariant
                i <= nodes,
                nodes == self.rest@.len(),
                locals@ =~= self.rest@.take(i as int),
            decreases nodes - i,
        {
            locals.push(self.rest[i]);
            i += 1;
        }
        assert(locals@ =~= self.rest@);
        let clip = match clip {
            Some(clip) => clip,
            None => {
                return;
            },
        };
        let wrapped = if looping && Scalar::zero().less(clip.duration) {
            wrap(t, clip.duration)
        } else {
            t
        };
        let time = clip.local_time(t, looping, wrapped);
        let ghost mut trace: Seq<Seq<NodeTrs>> = seq![locals@];
        let mut c: usize = 0;
        while c < clip.channels.len()
            invariant
                c <= clip.channels@.len(),
                nodes == self.rest@.len(),
                locals@.len() == nodes,
                forall|from: [Scalar; 3], to: [Scalar; 3], blend: Blend| #[trigger]
                    call_requires(lerp, (from, to, blend)),
                forall|from: [Scalar; 4], to: [Scalar; 4], blend: Blend| #[trigger]
                    call_requires(slerp, (from, to, blend)),
                pose_trace(self.rest@, *clip, time, c as nat, lerp, slerp, trace),
                trace.last() == locals@,
                forall|i: int|
                    0 <= i < nodes && !is_animated(Some(clip), i) ==> #[trigger] locals@[i]
                        == self.rest@[i],
            decreases clip.channels@.len() - c,
        {
            let channel = &clip.channels[c];
            let ghost before = locals@;
            let ghost earlier = trace;
            let ghost taken = sampled_channels(clip.channels@, nodes as nat, time, c as nat);
            if channel.node < nodes {
                if let Some(sample) = channel.sample(time) {
                    let node: usize = channel.node;
                    let posed = sample.apply(&lerp, &slerp, locals[node]);
                    locals.set(node, posed);
                    proof {
                        assert(is_sample(*channel, time, sample));
                        assert(locals@ =~= before.update(node as int, locals@[node as int]));
                        trace = earlier.push(locals@);
                        let more = taken.push(c as int);
                        assert(pose_step(*channel, time, lerp, slerp, before, locals@));
                        assert forall|k: int| 0 <= k < more.len() implies #[trigger] pose_step(
                            clip.channels@[more[k]],
                            time,
                            lerp,
                            slerp,
                            trace[k],
                            trace[k + 1],
                        ) by {
                            if k < taken.len() {
                                assert(pose_step(
                                    clip.channels@[taken[k]],
                                    time,
                                    lerp,
                                    slerp,
                                    earlier[k],
                                    earlier[k + 1],
                                ));
                            }
                        }
                        assert(is_animated(Some(clip), node as int));
                    }
                }
            }
            c += 1;
        }
        assert(is_clip_time(*clip, t, looping, wrap, time));
    }

    /// Multiplies local transforms down the hierarchy: `compose` puts a
    /// parent's transform before a local one. Nodes that the order leaves out
    /// stay at `identity`.
    pub fn globals_from_locals<M: Copy, F: Fn(M, M) -> M>(
        &self,
        locals: &[M],
        identity: M,
        compose: F,
        globals: &mut Vec<M>,
    )
        requires
            self.in_range(locals@.len()),
            forall|a: M, b: M| #[trigger] call_requires(compose, (a, b)),
        ensures
            exists|trace: Seq<Seq<M>>| #[trigger]
                transform_trace(*self, locals@, identity, compose, trace) && final(globals)@
                    == trace.last(),
    {
        globals.clear();
        let mut i: usize = 0;
        while i < locals.len()
            invariant
                i <= locals.len(),
                globals@ =~= Seq::new(i as nat, |k: int| identity),
            decreases locals.len() - i,
        {
            globals.push(identity);
            i += 1;
        }
        let ghost mut trace: Seq<Seq<M>> = seq![globals@];
        let mut k: usize = 0;
        while k < self.order.len()
            invariant
                k <= self.order.len(),
                self.in_range(locals@.len()),
                globals@.len() == locals@.len(),
                forall|a: M, b: M| #[trigger] call_requires(compose, (a, b)),
                trace.len() == k + 1,
                trace[0] == Seq::new(locals@.len(), |i: int| identity),
                trace.last() == globals@,
                forall|j: int|
                    0 <= j < k ==> #[trigger] transform_step(
                        self.parents@,
                        locals@,
                        compose,
                        self.order@[j] as int,
                        trace[j],
                        trace[j + 1],
                    ),
            decreases self.order.len() - k,
        {
            let node: usize = self.order[k];
            let ghost before = globals@;
            let ghost earlier = trace;
            let parent: usize = self.parents[node];
            let transform: M = if parent == NO_PARENT {
                locals[node]
            } else {
                compose(globals[parent], locals[node])
            };
            globals.set(node, transform);
            proof {
                trace = earlier.push(globals@);
                assert(globals@ =~= before.update(node as int, globals@[node as int]));
                assert(transform_step(
                    self.parents@,
                    locals@,
                    compose,
                    node as int,
                    trace[k as int],
                    trace[k + 1],
                ));
                assert forall|j: int| 0 <= j < k + 1 implies #[trigger] transform_step(
                    self.parents@,
                    locals@,
                    compose,
                    self.order@[j] as int,
                    trace[j],
                    trace[j + 1],
                ) by {
                    if j < k {
                        assert(trace[j] == earlier[j]);
                        assert(trace[j + 1] == earlier[j + 1]);
                    }
                }
            }
            k += 1;
        }
        assert(transform_trace(*self, locals@, identity, compose, trace));
    }
}

impl Skeleton {
    /// The transform of one node for local transforms, or nothing if there is
    /// no such node.
    pub fn node_transform<M: Copy, F: Fn(M, M) -> M>(
        &self,
        node: usize,
        locals: &[M],
        identity: M,
        compose: F,
    ) -> (transform: Option<M>)
        requires
            locals@.len() == self.rest@.len(),
            self.in_range(locals@.len()),
            forall|a: M, b: M| #[trigger] call_requires(compose, (a, b)),
        ensures
            match transform {
                Some(transform) => node < self.rest@.len() && exists|trace: Seq<Seq<M>>| #[trigger]
                    transform_trace(*self, locals@, identity, compose, trace)
                        && trace.last()[node as int] == transform,
                None => node >= self.rest@.len(),
            },
    {
        if node >= self.rest.len() {
            return None;
        }
        let mut globals: Vec<M> = Vec::new();
        self.globals_from_locals(locals, identity, compose, &mut globals);
        proof {
            let trace = choose|trace: Seq<Seq<M>>| #[trigger]
                transform_trace(*self, locals@, identity, compose, trace) && globals@
                    == trace.last();
            trace_has_len(
                *self,
                locals@,
                identity,
                compose,
                trace,
                self.order@.len() as int,
            );
        }
        Some(globals[node])
    }
}

proof fn trace_keeps<M, F: Fn(M, M) -> M>(
    skeleton: Skeleton,
    locals: Seq<M>,
    identity: M,
    compose: F,
    trace: Seq<Seq<M>>,
    from: int,
    to: int,
    node: int,
)
    requires
        skeleton.in_range(locals.len()),
        transform_trace(skeleton, locals, identity, compose, trace),
        0 <= from <= to <= skeleton.order@.len(),
        0 <= node < locals.len(),
        forall|k: int| from <= k < to ==> #[trigger] skeleton.order@[k] != node,
    ensures
        trace[to].len() == locals.len(),
        trace[to][node] == trace[from][node],
    decreases to,
{
    if to == 0 {
    } else if from < to {
        trace_keeps(skeleton, locals, identity, compose, trace, from, to - 1, node);
        assert(transform_step(
            skeleton.parents@,
            locals,
            compose,
            skeleton.order@[to - 1] as int,
            trace[to - 1],
            trace[to - 1 + 1],
        ));
    } else {
        trace_has_len(skeleton, locals, identity, compose, trace, to);
    }
}

proof fn trace_has_len<M, F: Fn(M, M) -> M>(
    skeleton: Skeleton,
    locals: Seq<M>,
    identity: M,
    compose: F,
    trace: Seq<Seq<M>>,
    at: int,
)
    requires
        transform_trace(skeleton, locals, identity, compose, trace),
        0 <= at <= skeleton.order@.len(),
    ensures
        trace[at].len() == locals.len(),
    decreases at,
{
    if at > 0 {
        trace_has_len(skeleton, locals, identity, compose, trace, at - 1);
        assert(transform_step(
            skeleton.parents@,
            locals,
            compose,
            skeleton.order@[at - 1] as int,
            trace[at - 1],
            trace[at - 1 + 1],
        ));
    }
}

/// With parents first, the walk gives every root its local transform and every
/// other node the composition of its parent's final transform and its local
/// one.
pub proof fn globals_compose_parents<M, F: Fn(M, M) -> M>(
    skeleton: Skeleton,
    locals: Seq<M>,
    identity: M,
    compose: F,
    trace: Seq<Seq<M>>,
    k: int,
)
    requires
        skeleton.in_range(locals.len()),
        skeleton.parents_first(),
        transform_trace(skeleton, locals, identity, compose, trace),
        0 <= k < skeleton.order@.len(),
    ensures
        ({
            let node = skeleton.order@[k] as int;
            let parent = skeleton.parents@[node];
            let globals = trace.last();
            if parent == NO_PARENT {
                globals[node] == locals[node]
            } else {
                call_ensures(compose, (globals[parent as int], locals[node]), globals[node])
            }
        }),
{
    let last = skeleton.order@.len() as int;
    let node = skeleton.order@[k] as int;
    let parent = skeleton.parents@[node];
    assert(transform_step(skeleton.parents@, locals, compose, node, trace[k], trace[k + 1]));
    trace_keeps(skeleton, locals, identity, compose, trace, k + 1, last, node);
    if parent != NO_PARENT {
        assert(skeleton.parent_stands_before(k));
        let j = choose|j: int|
            0 <= j < k && #[trigger] skeleton.order@[j] == skeleton.parents@[node];
        trace_keeps(skeleton, locals, identity, compose, trace, k, last, parent as int);
    }
}

/// A node has the parent that names it, the last one if several do, and none if
/// no node names it.
pub proof fn parents_are_those_that_name(children: Seq<Seq<usize>>, node: usize)
    requires
        children_in_range(children),
        children.len() <= usize::MAX,
        node < children.len(),
    ensures
        ({
            let parent = parents_of(children, children.len())[node as int];
            if parent == usize::MAX {
                forall|p: int| 0 <= p < children.len() ==> !(#[trigger] children[p]).contains(node)
            } else {
                &&& parent < children.len()
                &&& children[parent as int].contains(node)
                &&& forall|p: int|
                    parent < p < children.len() ==> !(#[trigger] children[p]).contains(node)
            }
        }),
{
    later_parents_win(children, children.len(), node);
}

proof fn later_parents_win(children: Seq<Seq<usize>>, count: nat, node: usize)
    requires
        children_in_range(children),
        children.len() <= usize::MAX,
        count <= children.len(),
        node < children.len(),
    ensures
        ({
            let parent = parents_of(children, count)[node as int];
            if parent == usize::MAX {
                forall|p: int| 0 <= p < count ==> !(#[trigger] children[p]).contains(node)
            } else {
                &&& parent < count
                &&& children[parent as int].contains(node)
                &&& forall|p: int| parent < p < count ==> !(#[trigger] children[p]).contains(node)
            }
        }),
    decreases count,
{
    if count > 0 {
        let earlier = (count - 1) as nat;
        let nodes = children[count - 1];
        parents_len(children, earlier);
        later_parents_win(children, earlier, node);
        adopted_names(
            parents_of(children, earlier),
            nodes,
            nodes.len(),
            earlier as usize,
            node,
        );
        assert(nodes.take(nodes.len() as int) =~= nodes);
    }
}

/// A looping clip with a length is sampled at the clock brought into its length,
/// another at the clock held within it.
pub proof fn clip_times_follow_the_clock<W: Fn(Scalar, Scalar) -> Scalar>(
    clip: Clip,
    t: Scalar,
    looping: bool,
    wrap: W,
    time: Scalar,
)
    requires
        is_clip_time(clip, t, looping, wrap, time),
    ensures
        ({
            let zero = Scalar { bits: 0 };
            &&& looping && less(zero, clip.duration) ==> call_ensures(
                wrap,
                (t, clip.duration),
                time,
            )
            &&& !less(zero, clip.duration) ==> time == zero
            &&& !looping && less(zero, clip.duration) && !less(t, zero) && !less(clip.duration, t)
                ==> time == t
            &&& !looping && less(zero, clip.duration) && less(t, zero) ==> time == zero
            &&& !looping && less(zero, clip.duration) && less(clip.duration, t) ==> time
                == clip.duration
        }),
{
}

/// The numbers of a property of a local transform.
pub open spec fn property_of(trs: NodeTrs, path: ChannelPath) -> Seq<Scalar> {
    match path {
        ChannelPath::Translation => trs.translation@,
        ChannelPath::Rotation => trs.rotation@,
        ChannelPath::Scale => trs.scale@,
    }
}

proof fn sampled_channels_facts(channels: Seq<Channel>, nodes: nat, t: Scalar, count: nat)
    ensures
        ({
            let taken = sampled_channels(channels, nodes, t, count);
            &&& forall|j: int|
                0 <= j < taken.len() ==> 0 <= #[trigger] taken[j] < count
                    && channels[taken[j]].node < nodes && can_sample(channels[taken[j]], t)
            &&& forall|a: int, b: int|
                0 <= a < b < taken.len() ==> #[trigger] taken[a] < #[trigger] taken[b]
            &&& forall|c: int|
                0 <= c < count && (#[trigger] channels[c]).node < nodes && can_sample(
                    channels[c],
                    t,
                ) ==> taken.contains(c)
        }),
    decreases count,
{
    if count > 0 {
        sampled_channels_facts(channels, nodes, t, (count - 1) as nat);
        let earlier = sampled_channels(channels, nodes, t, (count - 1) as nat);
        let taken = sampled_channels(channels, nodes, t, count);
        assert forall|c: int|
            0 <= c < count && (#[trigger] channels[c]).node < nodes && can_sample(
                channels[c],
                t,
            ) implies taken.contains(c) by {
            if c < count - 1 {
                let j = choose|j: int| 0 <= j < earlier.len() && earlier[j] == c;
                assert(taken[j] == c);
            } else {
                assert(taken[earlier.len() as int] == c);
            }
        }
    }
}

proof fn pose_keeps_property<
    L: Fn([Scalar; 3], [Scalar; 3], Blend) -> [Scalar; 3],
    S: Fn([Scalar; 4], [Scalar; 4], Blend) -> [Scalar; 4],
>(
    rest: Seq<NodeTrs>,
    clip: Clip,
    time: Scalar,
    count: nat,
    lerp: L,
    slerp: S,
    trace: Seq<Seq<NodeTrs>>,
    from: int,
    to: int,
    node: int,
    path: ChannelPath,
)
    requires
        pose_trace(rest, clip, time, count, lerp, slerp, trace),
        0 <= from <= to < trace.len(),
        0 <= node < rest.len(),
        forall|k: int|
            from <= k < to ==> {
                let channel = clip.channels@[#[trigger] sampled_channels(
                    clip.channels@,
                    rest.len(),
                    time,
                    count,
                )[k]];
                channel.node != node || channel.path != path
            },
    ensures
        trace[to].len() == rest.len(),
        property_of(trace[to][node], path) == property_of(trace[from][node], path),
    decreases to,
{
    let taken = sampled_channels(clip.channels@, rest.len(), time, count);
    sampled_channels_facts(clip.channels@, rest.len(), time, count);
    if to > 0 {
        if from < to {
            pose_keeps_property(
                rest,
                clip,
                time,
                count,
                lerp,
                slerp,
                trace,
                from,
                to - 1,
                node,
                path,
            );
        } else {
            pose_keeps_property(
                rest,
                clip,
                time,
                count,
                lerp,
                slerp,
                trace,
                to - 1,
                to - 1,
                node,
                path,
            );
        }
        let channel = clip.channels@[taken[to - 1]];
        assert(pose_step(channel, time, lerp, slerp, trace[to - 1], trace[to - 1 + 1]));
        let at = channel.node as int;
        let sample = choose|sample: Sample| #[trigger]
            is_sample(channel, time, sample) && is_applied(
                sample,
                lerp,
                slerp,
                trace[to - 1][at],
                trace[to][at],
            );
        assert(is_sample(channel, time, sample));
    }
}

/// A property of a node that no channel of the clip drives rests.
pub proof fn undriven_properties_rest<
    L: Fn([Scalar; 3], [Scalar; 3], Blend) -> [Scalar; 3],
    S: Fn([Scalar; 4], [Scalar; 4], Blend) -> [Scalar; 4],
>(
    rest: Seq<NodeTrs>,
    clip: Clip,
    time: Scalar,
    lerp: L,
    slerp: S,
    trace: Seq<Seq<NodeTrs>>,
    node: int,
    path: ChannelPath,
)
    requires
        pose_trace(rest, clip, time, clip.channels@.len(), lerp, slerp, trace),
        0 <= node < rest.len(),
        forall|c: int|
            0 <= c < clip.channels@.len() ==> (#[trigger] clip.channels@[c]).node != node
                || clip.channels@[c].path != path,
    ensures
        property_of(trace.last()[node], path) == property_of(rest[node], path),
{
    let count = clip.channels@.len();
    sampled_channels_facts(clip.channels@, rest.len(), time, count);
    pose_keeps_property(
        rest,
        clip,
        time,
        count,
        lerp,
        slerp,
        trace,
        0,
        trace.len() - 1,
        node,
        path,
    );
}

/// A property that a channel of the clip drives is what that channel gives at
/// the time: its keys around the time, mixed. Where several channels drive it,
/// the last one counts.
pub proof fn driven_properties_are_sampled<
    L: Fn([Scalar; 3], [Scalar; 3], Blend) -> [Scalar; 3],
    S: Fn([Scalar; 4], [Scalar; 4], Blend) -> [Scalar; 4],
>(
    rest: Seq<NodeTrs>,
    clip: Clip,
    time: Scalar,
    lerp: L,
    slerp: S,
    trace: Seq<Seq<NodeTrs>>,
    c: int,
)
    requires
        pose_trace(rest, clip, time, clip.channels@.len(), lerp, slerp, trace),
        0 <= c < clip.channels@.len(),
        clip.channels@[c].node < rest.len(),
        can_sample(clip.channels@[c], time),
        forall|d: int|
            c < d < clip.channels@.len() ==> (#[trigger] clip.channels@[d]).node
                != clip.channels@[c].node || clip.channels@[d].path != clip.channels@[c].path,
    ensures
        ({
            let channel = clip.channels@[c];
            let pose = trace.last()[channel.node as int];
            exists|lo: int, hi: int, sample: Sample| #[trigger]
                sample_of(channel, time, lo, hi, sample) && spans(channel.times@, time, lo, hi)
                    && match sample {
                    Sample::Translation { from, to, blend } => exists|mixed: [Scalar; 3]|
                        #[trigger] call_ensures(lerp, (from, to, blend), mixed) && mixed@
                            == pose.translation@,
                    Sample::Rotation { from, to, blend } => exists|mixed: [Scalar; 4]|
                        #[trigger] call_ensures(slerp, (from, to, blend), mixed) && mixed@
                            == pose.rotation@,
                    Sample::Scale { from, to, blend } => exists|mixed: [Scalar; 3]|
                        #[trigger] call_ensures(lerp, (from, to, blend), mixed) && mixed@
                            == pose.scale@,
                }
        }),
{
    let channels = clip.channels@;
    let channel = channels[c];
    let at = channel.node as int;
    let taken = sampled_channels(channels, rest.len(), time, channels.len());
    sampled_channels_facts(channels, rest.len(), time, channels.len());
    let p = choose|p: int| 0 <= p < taken.len() && taken[p] == c;
    assert(pose_step(channels[taken[p]], time, lerp, slerp, trace[p], trace[p + 1]));
    let sample = choose|sample: Sample| #[trigger]
        is_sample(channel, time, sample) && is_applied(
            sample,
            lerp,
            slerp,
            trace[p][at],
            trace[p + 1][at],
        );
    assert(is_sample(channel, time, sample));
    let (lo, hi) = choose|lo: int, hi: int|
        spans(channel.times@, time, lo, hi) && 0 <= lo <= hi < channel.times@.len()
            && #[trigger] sample_of(channel, time, lo, hi, sample);
    pose_keeps_property(
        rest,
        clip,
        time,
        channels.len(),
        lerp,
        slerp,
        trace,
        p + 1,
        trace.len() - 1,
        at,
        channel.path,
    );
    let mixed = trace[p + 1][at];
    assert(sample_of(channel, time, lo, hi, sample));
    match sample {
        Sample::Translation { from, to, blend } => {
            assert(call_ensures(lerp, (from, to, blend), mixed.translation));
        },
        Sample::Rotation { from, to, blend } => {
            assert(call_ensures(slerp, (from, to, blend), mixed.rotation));
        },
        Sample::Scale { from, to, blend } => {
            assert(call_ensures(lerp, (from, to, blend), mixed.scale));
        },
    }
}

/// A node that the order leaves out keeps the identity.
pub proof fn unlisted_nodes_keep_the_identity<M, F: Fn(M, M) -> M>(
    skeleton: Skeleton,
    locals: Seq<M>,
    identity: M,
    compose: F,
    trace: Seq<Seq<M>>,
    node: int,
)
    requires
        skeleton.in_range(locals.len()),
        transform_trace(skeleton, locals, identity, compose, trace),
        0 <= node < locals.len(),
        !skeleton.order@.contains(node as usize),
    ensures
        trace.last()[node] == identity,
{
    assert forall|k: int| 0 <= k < skeleton.order@.len() implies #[trigger] skeleton.order@[k]
        != node by {
        if skeleton.order@[k] == node {
            assert(skeleton.order@.contains(node as usize));
        }
    }
    trace_keeps(
        skeleton,
        locals,
        identity,
        compose,
        trace,
        0,
        skeleton.order@.len() as int,
        node,
    );
}

} // verus!
