//! The message graph: an addressable table of nodes keyed by identifier,
//! the entry-point resolution, and the thread walker that linearizes one
//! branch of the graph into an ordered message sequence.

use vstd::prelude::*;

use crate::content::Message;
use crate::text::str_eq;

verus! {

broadcast use vstd::seq_lib::seq_to_set_is_finite;

/// One node of a conversation's graph: its identifier, its parent (absent
/// only for the synthetic root), its children in branch-creation order, and
/// the message it carries, if any.
#[derive(Debug)]
pub struct MessageNode {
    pub id: String,
    pub parent: Option<String>,
    pub children: Vec<String>,
    pub message: Option<Message>,
}

/// The outcome of parsing one raw graph entry: a conforming node, or a
/// marker for an entry that did not conform and is dropped from the table.
#[derive(Debug)]
pub enum NodeParse {
    Parsed(MessageNode),
    Malformed,
}

/// Which child continues the thread at a node with several branches: the
/// earliest branch, or the most recent edit.
#[derive(Clone, Copy, Debug, PartialEq, Eq, Structural)]
pub enum BranchPolicy {
    FirstChild,
    LastChild,
}

/// The node table of one conversation, with the count of raw entries that
/// were dropped as malformed.
#[derive(Debug)]
pub struct NodeTable {
    pub nodes: Vec<MessageNode>,
    pub dropped: usize,
}

/// The position of the first node carrying `id`, or `-1` if none does.
pub open spec fn spec_index_of(nodes: Seq<MessageNode>, id: Seq<char>) -> int
    decreases nodes.len(),
{
    if nodes.len() == 0 {
        -1
    } else if nodes[0].id@ == id {
        0
    } else {
        let r = spec_index_of(nodes.drop_first(), id);
        if r < 0 {
            -1
        } else {
            r + 1
        }
    }
}

/// The node the table holds under `id`.
pub open spec fn spec_find_node(nodes: Seq<MessageNode>, id: Seq<char>) -> Option<MessageNode> {
    let i = spec_index_of(nodes, id);
    if i >= 0 {
        Some(nodes[i])
    } else {
        None
    }
}

/// What `spec_index_of` finds is the first match, and `-1` means no match.
pub proof fn lemma_index_of_props(nodes: Seq<MessageNode>, id: Seq<char>)
    ensures
        -1 <= spec_index_of(nodes, id) < nodes.len(),
        spec_index_of(nodes, id) >= 0 ==> nodes[spec_index_of(nodes, id)].id@ == id,
        spec_index_of(nodes, id) >= 0 ==> forall|j: int|
            0 <= j < spec_index_of(nodes, id) ==> nodes[j].id@ != id,
        spec_index_of(nodes, id) == -1 ==> forall|j: int|
            0 <= j < nodes.len() ==> nodes[j].id@ != id,
    decreases nodes.len(),
{
    if nodes.len() == 0 {
    } else if nodes[0].id@ == id {
    } else {
        lemma_index_of_props(nodes.drop_first(), id);
        assert forall|j: int| 1 <= j < nodes.len() implies nodes[j] == nodes.drop_first()[j - 1]
            by {}
    }
}

/// A new node entering the table: it replaces the node that already carries
/// its identifier, or takes a fresh slot at the end.
pub open spec fn spec_upsert(t: Seq<MessageNode>, n: MessageNode) -> Seq<MessageNode> {
    let i = spec_index_of(t, n.id@);
    if i >= 0 {
        t.update(i, n)
    } else {
        t.push(n)
    }
}

/// The table the raw entries build, in order: conforming entries enter the
/// table, later entries with a known identifier replacing earlier ones, and
/// malformed entries are dropped.
pub open spec fn spec_table(raw: Seq<NodeParse>) -> Seq<MessageNode>
    decreases raw.len(),
{
    if raw.len() == 0 {
        Seq::<MessageNode>::empty()
    } else {
        match raw.last() {
            NodeParse::Parsed(n) => spec_upsert(spec_table(raw.drop_last()), n),
            NodeParse::Malformed => spec_table(raw.drop_last()),
        }
    }
}

/// How many raw entries were malformed.
pub open spec fn spec_dropped(raw: Seq<NodeParse>) -> int
    decreases raw.len(),
{
    if raw.len() == 0 {
        0int
    } else {
        spec_dropped(raw.drop_last()) + if raw.last() is Malformed {
            1int
        } else {
            0int
        }
    }
}

/// Identifiers are unique within the table: the keys of the table are the
/// nodes' own identifiers, no two alike.
pub open spec fn spec_ids_unique(nodes: Seq<MessageNode>) -> bool {
    forall|i: int, j: int| 0 <= i < j < nodes.len() ==> nodes[i].id@ != nodes[j].id@
}

/// The upsert discipline keeps the table's identifiers unique: a known
/// identifier replaces in place, a fresh one takes a new slot.
pub proof fn lemma_table_ids_unique(raw: Seq<NodeParse>)
    ensures
        spec_ids_unique(spec_table(raw)),
    decreases raw.len(),
{
    if raw.len() > 0 {
        lemma_table_ids_unique(raw.drop_last());
        match raw.last() {
            NodeParse::Malformed => {},
            NodeParse::Parsed(n) => {
                let t = spec_table(raw.drop_last());
                lemma_index_of_props(t, n.id@);
                let k = spec_index_of(t, n.id@);
                if k >= 0 {
                    let u = t.update(k, n);
                    assert forall|i: int, j: int| 0 <= i < j < u.len() implies u[i].id@
                        != u[j].id@ by {
                        assert(u[i].id@ == t[i].id@);
                        assert(u[j].id@ == t[j].id@);
                    }
                } else {
                    let u = t.push(n);
                    assert forall|i: int, j: int| 0 <= i < j < u.len() implies u[i].id@
                        != u[j].id@ by {
                        if j < t.len() {
                            assert(u[i].id@ == t[i].id@);
                            assert(u[j].id@ == t[j].id@);
                        } else {
                            assert(u[j] == n);
                            assert(u[i].id@ == t[i].id@);
                            assert(t[i].id@ != n.id@);
                        }
                    }
                }
            },
        }
    }
}

/// The position of the first node under `id`, if the table holds one.
fn find_node_index(nodes: &Vec<MessageNode>, id: &str) -> (r: Option<usize>)
    ensures
        match r {
            Some(i) => i < nodes@.len() && spec_index_of(nodes@, id@) == i as int,
            None => spec_index_of(nodes@, id@) == -1,
        },
{
    let mut i: usize = 0;
    while i < nodes.len()
        invariant
            i <= nodes@.len(),
            forall|j: int| 0 <= j < i ==> nodes@[j].id@ != id@,
        decreases nodes@.len() - i,
    {
        if str_eq(nodes[i].id.as_str(), id) {
            proof {
                lemma_index_of_props(nodes@, id@);
                let k = spec_index_of(nodes@, id@);
                assert(k >= 0) by {
                    if k == -1 {
                        assert(nodes@[i as int].id@ != id@);
                    }
                }
                assert(k == i as int) by {
                    if k < i as int {
                        assert(nodes@[k].id@ != id@);
                    }
                    if k > i as int {
                        assert(nodes@[i as int].id@ != id@);
                    }
                }
            }
            return Some(i);
        }
        i = i + 1;
    }
    proof {
        lemma_index_of_props(nodes@, id@);
        let k = spec_index_of(nodes@, id@);
        if k >= 0 {
            assert(nodes@[k].id@ != id@);
        }
    }
    None
}

/// Builds the node table from the raw parse results of one conversation's
/// graph, counting the malformed entries instead of losing them silently.
pub fn build_table(raw: Vec<NodeParse>) -> (r: NodeTable)
    ensures
        r.nodes@ == spec_table(raw@),
        r.dropped as int == spec_dropped(raw@),
{
    let ghost orig = raw@;
    let n0 = raw.len();
    proof {
        assert(orig.len() == n0 as int);
    }
    let mut raw = raw;
    let mut nodes: Vec<MessageNode> = Vec::new();
    let mut dropped: usize = 0;
    while raw.len() > 0
        invariant
            orig.len() <= usize::MAX,
            raw@.len() <= orig.len(),
            raw@ == orig.subrange(orig.len() - raw@.len(), orig.len() as int),
            nodes@ == spec_table(orig.subrange(0, orig.len() - raw@.len())),
            dropped as int == spec_dropped(orig.subrange(0, orig.len() - raw@.len())),
            dropped as int <= orig.len() - raw@.len(),
        decreases raw@.len(),
    {
        let ghost done = orig.len() - raw@.len();
        let p = raw.remove(0);
        proof {
            assert(p == orig[done]);
            assert(raw@ =~= orig.subrange(orig.len() - raw@.len(), orig.len() as int));
            assert(orig.subrange(0, done + 1).drop_last() =~= orig.subrange(0, done));
            assert(orig.subrange(0, done + 1).last() == orig[done]);
        }
        match p {
            NodeParse::Parsed(n) => {
                match find_node_index(&nodes, n.id.as_str()) {
                    Some(i) => {
                        nodes[i] = n;
                    },
                    None => {
                        nodes.push(n);
                    },
                }
            },
            NodeParse::Malformed => {
                dropped = dropped + 1;
            },
        }
    }
    proof {
        assert(orig.subrange(0, orig.len() as int) =~= orig);
    }
    NodeTable { nodes, dropped }
}

/// The position of the first parentless node, or `-1` if every node names a
/// parent.
pub open spec fn spec_parentless_index(nodes: Seq<MessageNode>) -> int
    decreases nodes.len(),
{
    if nodes.len() == 0 {
        -1
    } else if nodes[0].parent is None {
        0
    } else {
        let r = spec_parentless_index(nodes.drop_first());
        if r < 0 {
            -1
        } else {
            r + 1
        }
    }
}

/// The synthetic root: the first node of the table with no parent.
pub open spec fn spec_root(nodes: Seq<MessageNode>) -> Option<MessageNode> {
    let i = spec_parentless_index(nodes);
    if i >= 0 {
        Some(nodes[i])
    } else {
        None
    }
}

/// What `spec_parentless_index` finds is the first parentless node.
pub proof fn lemma_parentless_props(nodes: Seq<MessageNode>)
    ensures
        -1 <= spec_parentless_index(nodes) < nodes.len(),
        spec_parentless_index(nodes) >= 0 ==> nodes[spec_parentless_index(nodes)].parent is None,
        spec_parentless_index(nodes) >= 0 ==> forall|j: int|
            0 <= j < spec_parentless_index(nodes) ==> nodes[j].parent is Some,
        spec_parentless_index(nodes) == -1 ==> forall|j: int|
            0 <= j < nodes.len() ==> nodes[j].parent is Some,
    decreases nodes.len(),
{
    if nodes.len() == 0 {
    } else if nodes[0].parent is None {
    } else {
        lemma_parentless_props(nodes.drop_first());
        assert forall|j: int| 1 <= j < nodes.len() implies nodes[j] == nodes.drop_first()[j - 1]
            by {}
    }
}

/// The child the policy designates at `n`: the first or the last of its
/// children, or nothing at a leaf.
pub open spec fn spec_child_by_policy(n: MessageNode, policy: BranchPolicy) -> Option<Seq<char>> {
    if n.children@.len() == 0 {
        None
    } else {
        match policy {
            BranchPolicy::FirstChild => Some(n.children@[0]@),
            BranchPolicy::LastChild => Some(n.children@[n.children@.len() - 1]@),
        }
    }
}

/// The conversation's entry point: the root's designated child.
pub open spec fn spec_entry(nodes: Seq<MessageNode>, policy: BranchPolicy) -> Option<Seq<char>> {
    match spec_root(nodes) {
        None => None,
        Some(n) => spec_child_by_policy(n, policy),
    }
}

/// Resolves the entry point of the thread: finds the unique parentless node
/// and takes the child the policy designates.  Returns `None` exactly when
/// no node is parentless or the parentless node has no children; the caller
/// then skips the conversation.
pub fn resolve_entry(table: &NodeTable, policy: BranchPolicy) -> (r: Option<String>)
    ensures
        match r {
            Some(s) => spec_entry(table.nodes@, policy) == Some(s@),
            None => spec_entry(table.nodes@, policy) is None,
        },
{
    let nodes = &table.nodes;
    let mut i: usize = 0;
    while i < nodes.len()
        invariant
            i <= nodes@.len(),
            nodes == &table.nodes,
            forall|j: int| 0 <= j < i ==> nodes@[j].parent is Some,
        decreases nodes@.len() - i,
    {
        if nodes[i].parent.is_none() {
            proof {
                lemma_parentless_props(nodes@);
                let k = spec_parentless_index(nodes@);
                assert(k >= 0) by {
                    if k == -1 {
                        assert(nodes@[i as int].parent is Some);
                    }
                }
                assert(k == i as int) by {
                    if k < i as int {
                        assert(nodes@[k].parent is Some);
                    }
                    if k > i as int {
                        assert(nodes@[i as int].parent is Some);
                    }
                }
            }
            let root = &nodes[i];
            if root.children.len() == 0 {
                return None;
            }
            let child = match policy {
                BranchPolicy::FirstChild => root.children[0].clone(),
                BranchPolicy::LastChild => root.children[root.children.len() - 1].clone(),
            };
            return Some(child);
        }
        i = i + 1;
    }
    proof {
        lemma_parentless_props(nodes@);
        let k = spec_parentless_index(nodes@);
        if k >= 0 {
            assert(nodes@[k].parent is Some);
        }
    }
    None
}

/// On a table with exactly one parentless node that has at least one child,
/// resolution succeeds and the entry point is that node's designated child
/// under the configured branch policy.
pub proof fn lemma_entry_unique_root(nodes: Seq<MessageNode>, i: int, policy: BranchPolicy)
    requires
        0 <= i < nodes.len(),
        nodes[i].parent is None,
        forall|j: int| 0 <= j < nodes.len() && j != i ==> nodes[j].parent is Some,
        nodes[i].children@.len() > 0,
    ensures
        spec_entry(nodes, policy) == spec_child_by_policy(nodes[i], policy),
        spec_entry(nodes, policy) is Some,
{
    lemma_parentless_props(nodes);
    let k = spec_parentless_index(nodes);
    assert(k >= 0) by {
        if k == -1 {
            assert(nodes[i].parent is Some);
        }
    }
    assert(k == i) by {
        if k != i {
            assert(nodes[k].parent is Some);
        }
    }
}

/// On a table with no parentless node, or whose parentless node has no
/// children, resolution fails.
pub proof fn lemma_entry_fails(nodes: Seq<MessageNode>, policy: BranchPolicy)
    requires
        (forall|j: int| 0 <= j < nodes.len() ==> nodes[j].parent is Some) || (spec_root(nodes)
            matches Some(n) && n.children@.len() == 0),
    ensures
        spec_entry(nodes, policy) is None,
{
    lemma_parentless_props(nodes);
    if forall|j: int| 0 <= j < nodes.len() ==> nodes[j].parent is Some {
        let k = spec_parentless_index(nodes);
        if k >= 0 {
            assert(nodes[k].parent is Some);
        }
    }
}

/// The identifiers the table's nodes carry, in table order.
pub open spec fn node_id_seq(nodes: Seq<MessageNode>) -> Seq<Seq<char>> {
    nodes.map(|j: int, n: MessageNode| n.id@)
}

/// The identifiers the table holds.
pub open spec fn node_id_set(nodes: Seq<MessageNode>) -> Set<Seq<char>> {
    node_id_seq(nodes).to_set()
}

/// The identifiers a list of strings holds, in order.
pub open spec fn id_views(v: Seq<String>) -> Seq<Seq<char>> {
    v.map(|k: int, t: String| t@)
}

/// The identifiers a list of strings holds, as a set.
pub open spec fn visited_ids(v: Seq<String>) -> Set<Seq<char>> {
    id_views(v).to_set()
}

/// The table nodes standing at the given positions, in order.
pub open spec fn picked_nodes(nodes: Seq<MessageNode>, ixs: Seq<usize>) -> Seq<MessageNode> {
    ixs.map(|k: int, ix: usize| nodes[ix as int])
}

/// A found identifier is among the table's identifiers.
proof fn lemma_found_in_id_set(nodes: Seq<MessageNode>, id: Seq<char>)
    requires
        spec_index_of(nodes, id) >= 0,
    ensures
        node_id_set(nodes).contains(id),
{
    lemma_index_of_props(nodes, id);
    let i = spec_index_of(nodes, id);
    assert(node_id_seq(nodes)[i] == id);
    assert(node_id_seq(nodes).contains(id));
}

/// The nodes the walk emits: starting at `cur`, each visited node that
/// carries a message, following the policy's child, stopping at a leaf, at a
/// missing identifier, or at an identifier already visited.
pub open spec fn spec_walk(
    nodes: Seq<MessageNode>,
    cur: Seq<char>,
    visited: Set<Seq<char>>,
    policy: BranchPolicy,
) -> Seq<MessageNode>
    decreases node_id_set(nodes).difference(visited).len(),
    via spec_walk_decreases
{
    if visited.contains(cur) {
        Seq::<MessageNode>::empty()
    } else {
        match spec_find_node(nodes, cur) {
            None => Seq::<MessageNode>::empty(),
            Some(n) => {
                let emitted = if n.message is Some {
                    seq![n]
                } else {
                    Seq::<MessageNode>::empty()
                };
                match spec_child_by_policy(n, policy) {
                    None => emitted,
                    Some(next) => emitted + spec_walk(nodes, next, visited.insert(cur), policy),
                }
            },
        }
    }
}

#[via_fn]
proof fn spec_walk_decreases(
    nodes: Seq<MessageNode>,
    cur: Seq<char>,
    visited: Set<Seq<char>>,
    policy: BranchPolicy,
) {
    if !visited.contains(cur) && spec_index_of(nodes, cur) >= 0 {
        lemma_found_in_id_set(nodes, cur);
        node_id_set(nodes).lemma_set_insert_diff_decreases(visited, cur);
    }
}

/// The identifiers the walk visits, in visiting order.
pub open spec fn spec_path(
    nodes: Seq<MessageNode>,
    cur: Seq<char>,
    visited: Set<Seq<char>>,
    policy: BranchPolicy,
) -> Seq<Seq<char>>
    decreases node_id_set(nodes).difference(visited).len(),
    via spec_path_decreases
{
    if visited.contains(cur) {
        Seq::<Seq<char>>::empty()
    } else {
        match spec_find_node(nodes, cur) {
            None => Seq::<Seq<char>>::empty(),
            Some(n) => match spec_child_by_policy(n, policy) {
                None => seq![cur],
                Some(next) => seq![cur] + spec_path(nodes, next, visited.insert(cur), policy),
            },
        }
    }
}

#[via_fn]
proof fn spec_path_decreases(
    nodes: Seq<MessageNode>,
    cur: Seq<char>,
    visited: Set<Seq<char>>,
    policy: BranchPolicy,
) {
    if !visited.contains(cur) && spec_index_of(nodes, cur) >= 0 {
        lemma_found_in_id_set(nodes, cur);
        node_id_set(nodes).lemma_set_insert_diff_decreases(visited, cur);
    }
}

/// The walk visits no identifier twice and none it was told to avoid, even
/// when the graph contains a cycle.
pub proof fn lemma_walk_no_revisit(
    nodes: Seq<MessageNode>,
    cur: Seq<char>,
    visited: Set<Seq<char>>,
    policy: BranchPolicy,
)
    ensures
        spec_path(nodes, cur, visited, policy).no_duplicates(),
        forall|k: int|
            0 <= k < spec_path(nodes, cur, visited, policy).len() ==> !visited.contains(
                spec_path(nodes, cur, visited, policy)[k],
            ),
    decreases node_id_set(nodes).difference(visited).len(),
{
    if !visited.contains(cur) && spec_index_of(nodes, cur) >= 0 {
        let n = spec_find_node(nodes, cur)->Some_0;
        match spec_child_by_policy(n, policy) {
            None => {},
            Some(next) => {
                lemma_found_in_id_set(nodes, cur);
                node_id_set(nodes).lemma_set_insert_diff_decreases(visited, cur);
                lemma_walk_no_revisit(nodes, next, visited.insert(cur), policy);
                let rest = spec_path(nodes, next, visited.insert(cur), policy);
                let whole = spec_path(nodes, cur, visited, policy);
                assert(whole == seq![cur] + rest);
                assert(whole[0] == cur);
                assert(forall|k: int| 0 <= k < rest.len() ==> whole[k + 1] == rest[k]);
                assert(forall|k: int| 0 <= k < rest.len() ==> rest[k] != cur);
            },
        }
    }
}

/// Cycle safety of a whole walk: starting anywhere with nothing visited,
/// the walker never revisits an identifier, so it terminates even on a
/// graph with a cycle.
pub proof fn lemma_walk_cycle_safe(
    nodes: Seq<MessageNode>,
    start: Seq<char>,
    policy: BranchPolicy,
)
    ensures
        spec_path(nodes, start, Set::<Seq<char>>::empty(), policy).no_duplicates(),
{
    lemma_walk_no_revisit(nodes, start, Set::<Seq<char>>::empty(), policy);
}

/// Whether some visited identifier equals `s`.
fn contains_string(v: &Vec<String>, s: &String) -> (r: bool)
    ensures
        r == visited_ids(v@).contains(s@),
{
    let ghost ids = id_views(v@);
    let mut i: usize = 0;
    while i < v.len()
        invariant
            i <= v@.len(),
            ids == id_views(v@),
            forall|j: int| 0 <= j < i ==> v@[j]@ != s@,
        decreases v@.len() - i,
    {
        if str_eq(v[i].as_str(), s.as_str()) {
            proof {
                assert(ids[i as int] == s@);
                assert(ids.contains(s@));
            }
            return true;
        }
        i = i + 1;
    }
    proof {
        assert forall|j: int| 0 <= j < ids.len() implies ids[j] != s@ by {
            assert(ids[j] == v@[j]@);
        }
        if ids.contains(s@) {
            let j = choose|j: int| 0 <= j < ids.len() && ids[j] == s@;
            assert(ids[j] != s@);
        }
    }
    false
}

/// Walks the thread from `start`, returning the positions, in the table, of
/// the visited nodes that carry a message, in thread order.  The walker
/// tracks visited identifiers and stops rather than looping when the graph
/// contains a cycle.
pub fn walk_thread(table: &NodeTable, start: &String, policy: BranchPolicy) -> (r: Vec<usize>)
    ensures
        picked_nodes(table.nodes@, r@) == spec_walk(
            table.nodes@,
            start@,
            Set::<Seq<char>>::empty(),
            policy,
        ),
        forall|k: int| 0 <= k < r@.len() ==> r@[k] < table.nodes@.len(),
{
    let nodes = &table.nodes;
    let mut out: Vec<usize> = Vec::new();
    let mut visited: Vec<String> = Vec::new();
    let mut cur: String = start.clone();
    let ghost whole = spec_walk(nodes@, start@, Set::<Seq<char>>::empty(), policy);
    proof {
        assert(visited_ids(visited@) =~= Set::<Seq<char>>::empty());
        assert(picked_nodes(nodes@, out@) =~= Seq::<MessageNode>::empty());
    }
    loop
        invariant_except_break
            nodes == &table.nodes,
            whole == spec_walk(nodes@, start@, Set::<Seq<char>>::empty(), policy),
            picked_nodes(nodes@, out@) + spec_walk(
                nodes@,
                cur@,
                visited_ids(visited@),
                policy,
            ) == whole,
            forall|k: int| 0 <= k < out@.len() ==> out@[k] < nodes@.len(),
        ensures
            picked_nodes(nodes@, out@) == whole,
            forall|k: int| 0 <= k < out@.len() ==> out@[k] < nodes@.len(),
            nodes == &table.nodes,
        decreases node_id_set(nodes@).difference(visited_ids(visited@)).len(),
    {
        let ghost vset = visited_ids(visited@);
        let ghost emitted = picked_nodes(nodes@, out@);
        if contains_string(&visited, &cur) {
            proof {
                assert(spec_walk(nodes@, cur@, vset, policy) =~= Seq::<MessageNode>::empty());
                assert(emitted + Seq::<MessageNode>::empty() =~= emitted);
            }
            break;
        }
        let found = find_node_index(nodes, cur.as_str());
        match found {
            None => {
                proof {
                    assert(spec_walk(nodes@, cur@, vset, policy) =~= Seq::<
                        MessageNode,
                    >::empty());
                    assert(emitted + Seq::<MessageNode>::empty() =~= emitted);
                }
                break;
            },
            Some(ix) => {
                proof {
                    assert(spec_find_node(nodes@, cur@) == Some(nodes@[ix as int]));
                }
                let n = &nodes[ix];
                if n.message.is_some() {
                    out.push(ix);
                    proof {
                        assert(picked_nodes(nodes@, out@) =~= emitted.push(nodes@[ix as int]));
                    }
                }
                let ghost emitted_now = picked_nodes(nodes@, out@);
                let ghost step = if nodes@[ix as int].message is Some {
                    seq![nodes@[ix as int]]
                } else {
                    Seq::<MessageNode>::empty()
                };
                proof {
                    assert(emitted_now =~= emitted + step);
                }
                if n.children.len() == 0 {
                    proof {
                        assert(spec_walk(nodes@, cur@, vset, policy) == step);
                        assert(emitted_now =~= whole);
                    }
                    break;
                }
                let next = match policy {
                    BranchPolicy::FirstChild => n.children[0].clone(),
                    BranchPolicy::LastChild => n.children[n.children.len() - 1].clone(),
                };
                proof {
                    assert(spec_child_by_policy(nodes@[ix as int], policy) == Some(next@));
                    assert(spec_walk(nodes@, cur@, vset, policy) == step + spec_walk(
                        nodes@,
                        next@,
                        vset.insert(cur@),
                        policy,
                    ));
                    lemma_found_in_id_set(nodes@, cur@);
                    node_id_set(nodes@).lemma_set_insert_diff_decreases(vset, cur@);
                }
                let ghost curv = cur@;
                let ghost prev_map = id_views(visited@);
                visited.push(cur);
                proof {
                    assert(id_views(visited@) =~= prev_map.push(curv));
                    assert forall|x: Seq<char>|
                        visited_ids(visited@).contains(x) implies vset.insert(curv).contains(
                        x,
                    ) by {
                        let i = choose|i: int|
                            0 <= i < id_views(visited@).len() && id_views(visited@)[i] == x;
                        if i < prev_map.len() {
                            assert(prev_map[i] == x);
                            assert(prev_map.contains(x));
                        } else {
                            assert(x == curv);
                        }
                    }
                    assert forall|x: Seq<char>|
                        vset.insert(curv).contains(x) implies visited_ids(visited@).contains(
                        x,
                    ) by {
                        if x == curv {
                            assert(id_views(visited@)[prev_map.len() as int] == x);
                            assert(id_views(visited@).contains(x));
                        } else {
                            let i = choose|i: int|
                                0 <= i < prev_map.len() && prev_map[i] == x;
                            assert(id_views(visited@)[i] == x);
                            assert(id_views(visited@).contains(x));
                        }
                    }
                    assert(visited_ids(visited@) =~= vset.insert(curv));
                    assert((emitted + step) + spec_walk(
                        nodes@,
                        next@,
                        vset.insert(curv),
                        policy,
                    ) =~= emitted + (step + spec_walk(nodes@, next@, vset.insert(curv), policy)));
                }
                cur = next;
            },
        }
    }
    out
}

} // verus!
