//! DAG topologies for parallel wave scheduling.
use crate::acyclic::law_builder_refuses_exactly_cycles;
use crate::clock::{utc_now, Timestamp};
use crate::identity::{distinct_ids, free_id, is_random_id, made_distinct, random_id};
use crate::schedule::{has_schedule, unique_ids};
use crate::text::text_list;
use std::collections::{HashMap, HashSet};
use vstd::hash_map::StringHashMap;
use vstd::prelude::*;
use vstd::string::*;

verus! {

/// Status of a node within a DAG execution.
#[derive(Debug, Clone, Copy, PartialEq, Eq, Structural)]
pub enum NodeStatus {
    /// Node has not yet been scheduled.
    Pending,
    /// Node is currently executing.
    Running,
    /// Node completed successfully.
    Done,
    /// Node execution failed.
    Failed,
    /// Node yielded (suspended for human-in-the-loop or external input).
    Yielded,
}

/// A single node within a DAG, representing one unit of work.
#[derive(Debug)]
pub struct DAGNode {
    /// Unique identifier for this node.
    pub id: u128,
    /// The registered step type name that maps to a node of the graph.
    pub step_type: String,
    /// IDs of nodes that must complete before this node can execute.
    pub depends_on: Vec<u128>,
    /// Current execution status.
    pub status: NodeStatus,
}

/// The contents of a [`DAGNode`].
pub struct DAGNodeView {
    pub id: u128,
    pub step_type: Seq<char>,
    pub depends_on: Seq<u128>,
    pub status: NodeStatus,
}

impl View for DAGNode {
    type V = DAGNodeView;

    open spec fn view(&self) -> DAGNodeView {
        DAGNodeView {
            id: self.id,
            step_type: self.step_type@,
            depends_on: self.depends_on@,
            status: self.status,
        }
    }
}

/// The contents of a sequence of nodes.
pub open spec fn dag_nodes(nodes: Seq<DAGNode>) -> Seq<DAGNodeView> {
    nodes.map_values(|n: DAGNode| n@)
}

/// A directed acyclic graph defining the execution topology for parallel wave
/// scheduling.
#[derive(Debug)]
pub struct DAG {
    /// Unique identifier for this DAG instance.
    pub id: u128,
    /// The ordered list of nodes in this DAG.
    pub nodes: Vec<DAGNode>,
    /// Timestamp when this DAG was created.
    pub created_at: Timestamp,
}

/// The contents of a [`DAG`].
pub struct DAGView {
    pub id: u128,
    pub nodes: Seq<DAGNodeView>,
    pub created_at: Timestamp,
}

impl View for DAG {
    type V = DAGView;

    open spec fn view(&self) -> DAGView {
        DAGView { id: self.id, nodes: dag_nodes(self.nodes@), created_at: self.created_at }
    }
}

impl Clone for DAGNode {
    fn clone(&self) -> (node: Self)
        ensures
            node@ == self@,
    {
        DAGNode {
            id: self.id,
            step_type: self.step_type.clone(),
            depends_on: self.depends_on.clone(),
            status: self.status,
        }
    }
}

impl Clone for DAG {
    fn clone(&self) -> (dag: Self)
        ensures
            dag@ == self@,
    {
        let mut nodes: Vec<DAGNode> = Vec::new();
        let mut i: usize = 0;
        while i < self.nodes.len()
            invariant
                i <= self.nodes@.len(),
                nodes@.len() == i,
                forall|j: int| 0 <= j < i ==> (#[trigger] nodes@[j])@ == self.nodes@[j]@,
            decreases self.nodes.len() - i,
        {
            nodes.push(self.nodes[i].clone());
            i = i + 1;
        }
        assert(dag_nodes(nodes@) =~= dag_nodes(self.nodes@));
        DAG { id: self.id, nodes, created_at: self.created_at }
    }
}

/// The contents of an optional DAG.
pub open spec fn dag_option(dag: Option<DAG>) -> Option<DAGView> {
    match dag {
        Some(d) => Some(d@),
        None => None,
    }
}

/// The status of the last of the nodes that has the identifier.
pub open spec fn status_of(nodes: Seq<DAGNodeView>, id: u128) -> Option<NodeStatus>
    decreases nodes.len(),
{
    if nodes.len() == 0 {
        None
    } else if nodes.last().id == id {
        Some(nodes.last().status)
    } else {
        status_of(nodes.drop_last(), id)
    }
}

/// The node with the status that `saved` holds for it, or its own where it
/// holds none.
pub open spec fn restored_node(node: DAGNodeView, saved: Seq<DAGNodeView>) -> DAGNodeView {
    match status_of(saved, node.id) {
        Some(status) => DAGNodeView { status, ..node },
        None => node,
    }
}

/// The nodes with the statuses that `saved` holds for them.
pub open spec fn restored_nodes(
    nodes: Seq<DAGNodeView>,
    saved: Seq<DAGNodeView>,
) -> Seq<DAGNodeView> {
    nodes.map_values(|n: DAGNodeView| restored_node(n, saved))
}

/// Whether all identifiers are random ones.
pub open spec fn all_random(ids: Seq<u128>) -> bool {
    forall|k: int| 0 <= k < ids.len() ==> is_random_id(#[trigger] ids[k])
}

/// Whether a node of the DAG has the identifier.
pub open spec fn has_id(nodes: Seq<DAGNodeView>, id: u128) -> bool {
    exists|i: int| 0 <= i < nodes.len() && (#[trigger] nodes[i]).id == id
}

/// A node that has not been scheduled.
pub open spec fn pending_node(id: u128, step_type: Seq<char>, depends_on: Seq<u128>) -> DAGNodeView {
    DAGNodeView { id, step_type, depends_on, status: NodeStatus::Pending }
}

impl DAG {
    /// Create an empty DAG with a given identifier and time of creation.
    pub fn with_id(id: u128, created_at: Timestamp) -> (dag: Self)
        ensures
            dag@ == (DAGView { id, nodes: Seq::empty(), created_at }),
    {
        let dag = DAG { id, nodes: Vec::new(), created_at };
        assert(dag@.nodes =~= Seq::empty());
        dag
    }

    /// Create a new empty DAG with a random identifier, dated now.
    pub fn new() -> (dag: Self)
        ensures
            dag@.nodes.len() == 0,
            is_random_id(dag@.id),
            dag@.created_at.ordinary(),
    {
        let id: u128 = random_id();
        DAG::with_id(id, utc_now())
    }

    /// Add a node with a given identifier.
    pub fn add_node_with_id(&mut self, id: u128, step_type: &str, depends_on: Vec<u128>)
        ensures
            final(self)@ == (DAGView {
                nodes: old(self)@.nodes.push(pending_node(id, step_type@, depends_on@)),
                ..old(self)@
            }),
    {
        let ghost before = dag_nodes(self.nodes@);
        self.nodes.push(
            DAGNode { id, step_type: step_type.to_owned(), depends_on, status: NodeStatus::Pending },
        );
        assert(dag_nodes(self.nodes@) =~= before.push(pending_node(id, step_type@, depends_on@)));
    }

    /// Add a node to the DAG with the given step type and dependencies.
    /// Returns the identifier generated for the new node, which no other node
    /// has: the one drawn, or the next free one where that is taken.
    pub fn add_node(&mut self, step_type: &str, depends_on: Vec<u128>) -> (id: u128)
        ensures
            !has_id(old(self)@.nodes, id),
            exists|drawn: u128| #[trigger]
                is_random_id(drawn) && (!has_id(old(self)@.nodes, drawn) ==> id == drawn),
            final(self)@ == (DAGView {
                nodes: old(self)@.nodes.push(pending_node(id, step_type@, depends_on@)),
                ..old(self)@
            }),
    {
        broadcast use vstd::std_specs::hash::group_hash_axioms;

        let ghost nodes = self@.nodes;
        let mut used: HashSet<u128> = HashSet::new();
        let mut k: usize = 0;
        while k < self.nodes.len()
            invariant
                k <= self.nodes@.len(),
                nodes == self@.nodes,
                *self == *old(self),
                used@.finite(),
                used@.len() <= k,
                forall|id: u128| #[trigger] used@.contains(id) <==> has_id(nodes.take(k as int), id),
            decreases self.nodes.len() - k,
        {
            let ghost before = used@;
            let own: u128 = self.nodes[k].id;
            used.insert(own);
            proof {
                let less = nodes.take(k as int);
                let more = nodes.take(k + 1);
                assert(more[k as int].id == own);
                assert forall|id: u128| #[trigger] used@.contains(id) <==> has_id(more, id) by {
                    if has_id(less, id) {
                        let i = choose|i: int| 0 <= i < less.len() && (#[trigger] less[i]).id == id;
                        assert(more[i].id == id);
                    }
                    if has_id(more, id) && id != own {
                        let i = choose|i: int| 0 <= i < more.len() && (#[trigger] more[i]).id == id;
                        assert(less[i].id == id);
                    }
                    assert(before.contains(id) <==> has_id(less, id));
                }
            }
            k = k + 1;
        }
        assert(nodes.take(nodes.len() as int) =~= nodes);
        let drawn: u128 = random_id();
        let id: u128 = free_id(drawn, &used, k);
        assert(used@.contains(drawn) <==> has_id(nodes, drawn));
        assert(used@.contains(id) <==> has_id(nodes, id));
        self.add_node_with_id(id, step_type, depends_on);
        id
    }

    /// Restore node statuses from a previously checkpointed DAG snapshot.
    /// Nodes are matched by identifier; one that the snapshot lacks keeps its
    /// status.
    pub fn restore_statuses(&mut self, checkpointed: &DAG)
        ensures
            final(self)@ == (DAGView {
                nodes: restored_nodes(old(self)@.nodes, checkpointed@.nodes),
                ..old(self)@
            }),
    {
        broadcast use vstd::std_specs::hash::group_hash_axioms;

        let ghost saved = checkpointed@.nodes;
        let mut statuses: HashMap<u128, NodeStatus> = HashMap::new();
        let mut k: usize = 0;
        while k < checkpointed.nodes.len()
            invariant
                k <= checkpointed.nodes@.len(),
                saved == checkpointed@.nodes,
                forall|id: u128|
                    status_of(saved.take(k as int), id) == (if #[trigger] statuses@.contains_key(id) {
                        Some(statuses@[id])
                    } else {
                        None
                    }),
            decreases checkpointed.nodes.len() - k,
        {
            let ghost before = statuses@;
            let node = &checkpointed.nodes[k];
            statuses.insert(node.id, node.status);
            proof {
                assert(saved.take(k + 1).drop_last() =~= saved.take(k as int));
                assert(saved.take(k + 1).last() == checkpointed.nodes@[k as int]@);
                assert forall|id: u128|
                    status_of(saved.take(k + 1), id) == (if #[trigger] statuses@.contains_key(id) {
                        Some(statuses@[id])
                    } else {
                        None
                    }) by {
                    assert(before.contains_key(id) || !before.contains_key(id));
                }
            }
            k = k + 1;
        }
        assert(saved.take(saved.len() as int) =~= saved);
        let ghost before = self@.nodes;
        let mut i: usize = 0;
        while i < self.nodes.len()
            invariant
                i <= self.nodes@.len() == before.len(),
                self.id == old(self).id,
                self.created_at == old(self).created_at,
                forall|id: u128|
                    status_of(saved, id) == (if #[trigger] statuses@.contains_key(id) {
                        Some(statuses@[id])
                    } else {
                        None
                    }),
                forall|j: int|
                    0 <= j < i ==> (#[trigger] self.nodes@[j])@ == restored_node(
                        before[j],
                        saved,
                    ),
                forall|j: int|
                    i <= j < before.len() ==> (#[trigger] self.nodes@[j])@ == before[j],
            decreases self.nodes.len() - i,
        {
            let id: u128 = self.nodes[i].id;
            assert(self.nodes@[i as int]@ == before[i as int]);
            match statuses.get(&id) {
                Some(status) => {
                    assert(statuses@.contains_key(id));
                    self.nodes[i].status = *status;
                },
                None => {
                    assert(!statuses@.contains_key(id));
                },
            }
            i = i + 1;
        }
        assert(self@.nodes =~= restored_nodes(before, saved));
    }
}

impl Default for DAG {
    fn default() -> (dag: Self)
        ensures
            dag@.nodes.len() == 0,
            is_random_id(dag@.id),
            dag@.created_at.ordinary(),
    {
        DAG::new()
    }
}

/// A node by name, with the names of its dependencies.
pub struct EntryView {
    pub step_type: Seq<char>,
    pub depends_on: Seq<Seq<char>>,
}

/// Builder for constructing DAGs with dependencies given by name.
pub struct DAGBuilder {
    entries: Vec<(String, Vec<String>)>,
}

/// The contents of one entry.
pub open spec fn entry_view(entry: (String, Vec<String>)) -> EntryView {
    EntryView { step_type: entry.0@, depends_on: text_list(entry.1@) }
}

impl View for DAGBuilder {
    type V = Seq<EntryView>;

    /// The entries in the order in which they were added.
    closed spec fn view(&self) -> Seq<EntryView> {
        self.entries@.map_values(|e: (String, Vec<String>)| entry_view(e))
    }
}

/// Whether no later entry has the name of entry `j`.
pub open spec fn is_last_named(entries: Seq<EntryView>, j: int) -> bool {
    forall|m: int|
        j < m < entries.len() ==> (#[trigger] entries[m]).step_type != entries[j].step_type
}

/// Whether entry `i` depends on entry `j`: it lists the name, and of the entries
/// with that name `j` is the last.
pub open spec fn depends_on_entry(entries: Seq<EntryView>, i: int, j: int) -> bool {
    entries[i].depends_on.contains(entries[j].step_type) && is_last_named(entries, j)
}

/// Whether each entry of `path` depends on the next one, and the last on the
/// first.
pub open spec fn is_entry_cycle(entries: Seq<EntryView>, path: Seq<int>) -> bool {
    &&& path.len() > 0
    &&& forall|k: int| 0 <= k < path.len() ==> 0 <= #[trigger] path[k] < entries.len()
    &&& forall|k: int|
        0 <= k < path.len() - 1 ==> depends_on_entry(entries, #[trigger] path[k], path[k + 1])
    &&& depends_on_entry(entries, path.last(), path[0])
}

/// Whether some dependency chain returns to its start.
pub open spec fn cyclic_entries(entries: Seq<EntryView>) -> bool {
    exists|path: Seq<int>| is_entry_cycle(entries, path)
}

/// The identifier that each name stands for: of entries with one name, that of
/// the last.
pub open spec fn ids_by_name(entries: Seq<EntryView>, ids: Seq<u128>) -> Map<Seq<char>, u128>
    decreases entries.len(),
{
    if entries.len() == 0 {
        Map::empty()
    } else {
        ids_by_name(entries.drop_last(), ids).insert(
            entries.last().step_type,
            ids[entries.len() - 1],
        )
    }
}

/// Whether some entry has the name.
pub open spec fn is_named(entries: Seq<EntryView>, name: Seq<char>) -> bool {
    exists|i: int| 0 <= i < entries.len() && (#[trigger] entries[i]).step_type == name
}

/// Whether every dependency of the first `n` entries names an entry.
pub open spec fn known_up_to(entries: Seq<EntryView>, n: int) -> bool {
    forall|i: int, j: int|
        0 <= i < n && 0 <= j < entries[i].depends_on.len() ==> is_named(
            entries,
            #[trigger] entries[i].depends_on[j],
        )
}

/// Whether every dependency names an entry.
pub open spec fn all_known(entries: Seq<EntryView>) -> bool {
    known_up_to(entries, entries.len() as int)
}

/// Whether dependency `j` of entry `i` is the first that names no entry.
pub open spec fn first_unknown(entries: Seq<EntryView>, i: int, j: int) -> bool {
    &&& 0 <= i < entries.len()
    &&& 0 <= j < entries[i].depends_on.len()
    &&& known_up_to(entries, i)
    &&& forall|k: int|
        0 <= k < j ==> is_named(entries, #[trigger] entries[i].depends_on[k])
    &&& !is_named(entries, entries[i].depends_on[j])
}

/// What is said of a dependency that names no entry.
pub open spec fn unknown_text(entry: EntryView, j: int) -> Seq<char> {
    "Dependency '"@ + entry.depends_on[j] + "' not found for node '"@ + entry.step_type + "'"@
}

/// The node that entry `i` becomes: it has an identifier of its own, and depends
/// on the identifiers that the names stand for.
pub open spec fn resolved_node(entries: Seq<EntryView>, ids: Seq<u128>, i: int) -> DAGNodeView {
    pending_node(
        ids[i],
        entries[i].step_type,
        entries[i].depends_on.map_values(|d: Seq<char>| ids_by_name(entries, ids)[d]),
    )
}

/// The nodes that the entries become.
pub open spec fn resolved_nodes(entries: Seq<EntryView>, ids: Seq<u128>) -> Seq<DAGNodeView> {
    Seq::new(entries.len(), |i: int| resolved_node(entries, ids, i))
}

/// What building gives: the first unknown dependency is reported; otherwise the
/// nodes are built, unless a dependency chain returns to its start.
pub open spec fn is_built(
    entries: Seq<EntryView>,
    ids: Seq<u128>,
    id: u128,
    created_at: Timestamp,
    built: Result<DAG, String>,
) -> bool {
    let nodes = resolved_nodes(entries, ids);
    &&& built is Ok <==> all_known(entries) && !cyclic_entries(entries)
    &&& built matches Ok(dag) ==> dag@ == (DAGView { id, nodes, created_at }) && unique_ids(nodes)
    &&& forall|i: int, j: int| #[trigger]
        first_unknown(entries, i, j) ==> built is Err && built->Err_0@ == unknown_text(
            entries[i],
            j,
        )
    &&& all_known(entries) && cyclic_entries(entries) ==> built is Err && built->Err_0@
        == "Cycle detected in DAG"@
}

/// The names of the first `n` entries are the keys.
proof fn lemma_named(entries: Seq<EntryView>, ids: Seq<u128>, name: Seq<char>)
    ensures
        ids_by_name(entries, ids).contains_key(name) <==> is_named(entries, name),
    decreases entries.len(),
{
    if entries.len() > 0 {
        let rest = entries.drop_last();
        lemma_named(rest, ids, name);
        if is_named(rest, name) {
            let i = choose|i: int| 0 <= i < rest.len() && (#[trigger] rest[i]).step_type == name;
            assert(entries[i].step_type == name);
        }
        if is_named(entries, name) {
            let i = choose|i: int|
                0 <= i < entries.len() && (#[trigger] entries[i]).step_type == name;
            if i < rest.len() {
                assert(rest[i].step_type == name);
            }
        }
    }
}

impl DAGBuilder {
    /// Add a node with the given step type and dependency names.
    pub fn node(self, step_type: &str, depends_on: &[&str]) -> (builder: Self)
        ensures
            builder@ == self@.push(
                (EntryView {
                    step_type: step_type@,
                    depends_on: depends_on@.map_values(|d: &str| d@),
                }),
            ),
    {
        let mut names: Vec<String> = Vec::new();
        let mut i: usize = 0;
        while i < depends_on.len()
            invariant
                i <= depends_on@.len(),
                names@.len() == i,
                forall|j: int| 0 <= j < i ==> (#[trigger] names@[j])@ == depends_on@[j]@,
            decreases depends_on.len() - i,
        {
            names.push(depends_on[i].to_owned());
            i = i + 1;
        }
        assert(text_list(names@) =~= depends_on@.map_values(|d: &str| d@));
        let ghost before = self@;
        let mut builder = self;
        builder.entries.push((step_type.to_owned(), names));
        assert(builder@ =~= before.push(
            EntryView {
                step_type: step_type@,
                depends_on: depends_on@.map_values(|d: &str| d@),
            },
        ));
        builder
    }

    /// The number of nodes added so far.
    pub fn len(&self) -> (n: usize)
        ensures
            n == self@.len(),
    {
        self.entries.len()
    }

    /// Resolves the dependencies of entry `i` to identifiers.
    fn resolve(
        &self,
        names: &StringHashMap<u128>,
        i: usize,
        Ghost(ids): Ghost<Seq<u128>>,
    ) -> (resolved: Result<Vec<u128>, String>)
        requires
            i < self@.len(),
            names@ == ids_by_name(self@, ids),
        ensures
            match resolved {
                Ok(deps) => {
                    &&& deps@ == resolved_node(self@, ids, i as int).depends_on
                    &&& forall|k: int|
                        0 <= k < self@[i as int].depends_on.len() ==> is_named(
                            self@,
                            #[trigger] self@[i as int].depends_on[k],
                        )
                },
                Err(text) => exists|j: int|
                    {
                        &&& 0 <= j < self@[i as int].depends_on.len()
                        &&& forall|k: int|
                            0 <= k < j ==> is_named(
                                self@,
                                #[trigger] self@[i as int].depends_on[k],
                            )
                        &&& !is_named(self@, self@[i as int].depends_on[j])
                        &&& text@ == #[trigger] unknown_text(self@[i as int], j)
                    },
            },
    {
        let entry = &self.entries[i];
        let ghost view = self@[i as int];
        assert(view == entry_view(*entry));
        let mut deps: Vec<u128> = Vec::new();
        let mut j: usize = 0;
        while j < entry.1.len()
            invariant
                j <= entry.1@.len() == view.depends_on.len(),
                view == entry_view(*entry),
                view == self@[i as int],
                names@ == ids_by_name(self@, ids),
                deps@.len() == j,
                forall|k: int|
                    0 <= k < j ==> is_named(self@, #[trigger] view.depends_on[k]) && deps@[k]
                        == ids_by_name(self@, ids)[view.depends_on[k]],
            decreases entry.1.len() - j,
        {
            let name = entry.1[j].as_str();
            proof {
                lemma_named(self@, ids, name@);
                assert(view.depends_on[j as int] == name@);
            }
            match names.get(name) {
                Some(id) => {
                    deps.push(*id);
                },
                None => {
                    let mut text = String::from_str("Dependency '");
                    text.append(name);
                    text.append("' not found for node '");
                    text.append(entry.0.as_str());
                    text.append("'");
                    assert(text@ == unknown_text(self@[i as int], j as int));
                    return Err(text);
                },
            }
            j = j + 1;
        }
        assert(deps@ =~= resolved_node(self@, ids, i as int).depends_on);
        Ok(deps)
    }

    /// Build the DAG with given identifiers, one for each entry and all different.
    pub fn build_with(self, id: u128, created_at: Timestamp, ids: Vec<u128>) -> (built: Result<
        DAG,
        String,
    >)
        requires
            ids@.len() == self@.len(),
            ids@.no_duplicates(),
        ensures
            is_built(self@, ids@, id, created_at, built),
    {
        let ghost entries = self@;
        let n: usize = self.entries.len();
        let mut names: StringHashMap<u128> = StringHashMap::new();
        let mut k: usize = 0;
        while k < n
            invariant
                k <= n == self.entries@.len() == ids@.len() == entries.len(),
                entries == self@,
                names@ == ids_by_name(entries.take(k as int), ids@),
            decreases n - k,
        {
            names.insert(self.entries[k].0.clone(), ids[k]);
            proof {
                assert(entries.take(k + 1).drop_last() =~= entries.take(k as int));
                assert(entries.take(k + 1).last() == entry_view(self.entries@[k as int]));
            }
            k = k + 1;
        }
        assert(entries.take(n as int) =~= entries);
        let ghost target = resolved_nodes(entries, ids@);
        let mut dag = DAG::with_id(id, created_at);
        let mut i: usize = 0;
        while i < n
            invariant
                i <= n == self.entries@.len() == entries.len() == ids@.len(),
                entries == self@,
                target == resolved_nodes(entries, ids@),
                names@ == ids_by_name(entries, ids@),
                dag@.id == id,
                dag@.created_at == created_at,
                dag@.nodes == target.take(i as int),
                known_up_to(entries, i as int),
            decreases n - i,
        {
            match self.resolve(&names, i, Ghost(ids@)) {
                Ok(deps) => {
                    let name = self.entries[i].0.as_str();
                    assert(entries[i as int].step_type == name@);
                    dag.add_node_with_id(ids[i], name, deps);
                    assert(target.take(i + 1) =~= target.take(i as int).push(target[i as int]));
                },
                Err(text) => {
                    proof {
                        lemma_first_unknown_unique(entries);
                        let j = choose|j: int|
                            {
                                &&& 0 <= j < entries[i as int].depends_on.len()
                                &&& forall|k: int|
                                    0 <= k < j ==> is_named(
                                        entries,
                                        #[trigger] entries[i as int].depends_on[k],
                                    )
                                &&& !is_named(entries, entries[i as int].depends_on[j])
                                &&& text@ == #[trigger] unknown_text(entries[i as int], j)
                            };
                        assert(first_unknown(entries, i as int, j));
                    }
                    return Err(text);
                },
            }
            i = i + 1;
        }
        assert(target.take(n as int) =~= target);
        assert(dag_nodes(dag.nodes@) == target);
        proof {
            law_builder_refuses_exactly_cycles(entries, ids@);
        }
        if has_schedule(&dag.nodes) {
            Ok(dag)
        } else {
            Err("Cycle detected in DAG".to_owned())
        }
    }

    /// Build the DAG, resolving names to identifiers drawn at random.
    ///
    /// Returns an error if any dependency references a node that doesn't exist,
    /// or if a cycle is detected. Of nodes with one name, a dependency means the
    /// last.
    pub fn build(self) -> (built: Result<DAG, String>)
        ensures
            built is Ok <==> all_known(self@) && !cyclic_entries(self@),
            built matches Ok(dag) ==> {
                &&& unique_ids(dag@.nodes)
                &&& is_random_id(dag@.id)
                &&& dag@.created_at.ordinary()
                &&& exists|drawn: Seq<u128>, ids: Seq<u128>|
                    all_random(drawn) && drawn.len() == self@.len() && #[trigger] made_distinct(
                        drawn,
                        ids,
                    ) && dag@.nodes == resolved_nodes(self@, ids)
            },
            forall|i: int, j: int| #[trigger]
                first_unknown(self@, i, j) ==> built is Err && built->Err_0@ == unknown_text(
                    self@[i],
                    j,
                ),
            all_known(self@) && cyclic_entries(self@) ==> built is Err && built->Err_0@
                == "Cycle detected in DAG"@,
    {
        let mut drawn: Vec<u128> = Vec::new();
        let n: usize = self.entries.len();
        let mut k: usize = 0;
        while k < n
            invariant
                k <= n,
                drawn@.len() == k,
                forall|i: int| 0 <= i < k ==> is_random_id(#[trigger] drawn@[i]),
            decreases n - k,
        {
            drawn.push(random_id());
            k = k + 1;
        }
        let ids: Vec<u128> = distinct_ids(&drawn);
        let id: u128 = random_id();
        let created_at = utc_now();
        self.build_with(id, created_at, ids)
    }
}

/// At most one dependency is the first that names no entry.
proof fn lemma_first_unknown_unique(entries: Seq<EntryView>)
    ensures
        forall|i: int, j: int, a: int, b: int| #[trigger]
            first_unknown(entries, i, j) && #[trigger] first_unknown(entries, a, b) ==> i == a && j
                == b,
        forall|i: int, j: int| #[trigger] first_unknown(entries, i, j) ==> !all_known(entries),
{
    assert forall|i: int, j: int, a: int, b: int| #[trigger]
        first_unknown(entries, i, j) && #[trigger] first_unknown(entries, a, b) implies i == a && j
        == b by {
        let x = entries[i].depends_on[j];
        let y = entries[a].depends_on[b];
    }
    assert forall|i: int, j: int| #[trigger] first_unknown(entries, i, j) implies !all_known(
        entries,
    ) by {
        let x = entries[i].depends_on[j];
    }
}

impl DAG {
    /// Create a builder for constructing a DAG with dependencies given by name.
    pub fn builder() -> (builder: DAGBuilder)
        ensures
            builder@ == Seq::<EntryView>::empty(),
    {
        let builder = DAGBuilder { entries: Vec::new() };
        assert(builder@ =~= Seq::<EntryView>::empty());
        builder
    }
}

} // verus!
