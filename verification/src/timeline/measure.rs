//! Measures: what holds of the revisions that are measured through a
//! registry, whatever the timeline around it does.

use vstd::prelude::*;
use crate::timeline::id::{IdKind, IdView};
use crate::timeline::inputs::{full_depth, RegistryView};

verus! {

/// Where no cell carries a revision later than `r`, the latest revision of
/// any nodes is not later than `r`.
pub proof fn lemma_latest_bounded<T, C, F>(
    registry: RegistryView<T, C, F>,
    deps: Seq<IdView>,
    fuel: nat,
    r: nat,
)
    requires
        registry.bounded(r),
    ensures
        registry.latest(deps, fuel) <= r,
    decreases fuel, deps.len() + 1,
{
    if deps.len() > 0 {
        lemma_latest_bounded(registry, deps.drop_last(), fuel, r);
        lemma_measure_bounded(registry, deps.last(), fuel, r);
    }
}

/// Where no cell carries a revision later than `r`, no node measures later
/// than `r`.
pub proof fn lemma_measure_bounded<T, C, F>(
    registry: RegistryView<T, C, F>,
    node: IdView,
    fuel: nat,
    r: nat,
)
    requires
        registry.bounded(r),
    ensures
        registry.measure(node, fuel) <= r,
    decreases fuel, 0nat,
{
    match node.kind {
        IdKind::CellId => {
            if node.id < registry.cells.len() {
                assert(registry.cells[node.id as int].revision <= r);
            }
        },
        IdKind::DerivedId => {
            if node.id < registry.derived.len() && fuel > 0 {
                lemma_latest_bounded(
                    registry,
                    registry.derived[node.id as int].tag.deps,
                    (fuel - 1) as nat,
                    r,
                );
            }
        },
        IdKind::FunctionId => {
            if node.id < registry.functions.len() && fuel > 0 {
                lemma_latest_bounded(
                    registry,
                    registry.functions[node.id as int].tag.deps,
                    (fuel - 1) as nat,
                    r,
                );
            }
        },
        IdKind::ListId => {},
    }
}

/// `latest` is the maximum: no dependency measures later, some dependency
/// attains it unless there is none, and then it is the constant revision.
pub proof fn lemma_latest_is_maximum<T, C, F>(
    registry: RegistryView<T, C, F>,
    deps: Seq<IdView>,
    fuel: nat,
)
    ensures
        forall|k: int|
            0 <= k < deps.len() ==> registry.measure(#[trigger] deps[k], fuel) <= registry.latest(
                deps,
                fuel,
            ),
        deps.len() == 0 ==> registry.latest(deps, fuel) == 0,
        deps.len() > 0 ==> exists|k: int|
            0 <= k < deps.len() && registry.measure(#[trigger] deps[k], fuel) == registry.latest(
                deps,
                fuel,
            ),
    decreases deps.len(),
{
    if deps.len() > 0 {
        let rest = deps.drop_last();
        lemma_latest_is_maximum(registry, rest, fuel);
        assert forall|k: int| 0 <= k < deps.len() implies registry.measure(#[trigger] deps[k], fuel)
            <= registry.latest(deps, fuel) by {
            if k < rest.len() {
                assert(rest[k] == deps[k]);
            }
        }
        if rest.len() > 0 && registry.measure(deps.last(), fuel) <= registry.latest(rest, fuel) {
            let j = choose|j: int|
                0 <= j < rest.len() && registry.measure(#[trigger] rest[j], fuel) == registry.latest(
                    rest,
                    fuel,
                );
            assert(deps[j] == rest[j]);
        } else {
            assert(registry.measure(deps[deps.len() - 1], fuel) == registry.latest(deps, fuel));
        }
    }
}

/// The revision of a node that has been evaluated is the latest revision
/// that its dependencies have now: none of them measures later, one of
/// them measures exactly that unless there is none, and without a
/// dependency it is the constant revision. A dependency that is a cell
/// measures what the cell's revision is now.
pub proof fn lemma_revision_is_latest_dependency<T, C, F>(
    registry: RegistryView<T, C, F>,
    node: IdView,
)
    requires
        registry.wf(),
        registry.has(node),
        node.kind != IdKind::CellId,
        registry.tag(node).initialized,
    ensures
        registry.revision(node) == Some(
            registry.latest(registry.tag(node).deps, full_depth()),
        ),
        forall|k: int|
            0 <= k < registry.tag(node).deps.len() ==> registry.measure(
                #[trigger] registry.tag(node).deps[k],
                full_depth(),
            ) <= registry.revision(node).unwrap(),
        registry.tag(node).deps.len() == 0 ==> registry.revision(node) == Some(0nat),
        registry.tag(node).deps.len() > 0 ==> exists|k: int|
            0 <= k < registry.tag(node).deps.len() && registry.measure(
                #[trigger] registry.tag(node).deps[k],
                full_depth(),
            ) == registry.revision(node).unwrap(),
        forall|k: int|
            0 <= k < registry.tag(node).deps.len() && (#[trigger] registry.tag(node).deps[k]).kind
                == IdKind::CellId ==> Some(
                registry.measure(registry.tag(node).deps[k], full_depth()),
            ) == registry.revision(registry.tag(node).deps[k]),
{
    let deps = registry.tag(node).deps;
    lemma_latest_is_maximum(registry, deps, full_depth());
    assert(registry.known(deps));
    assert forall|k: int| 0 <= k < deps.len() && (#[trigger] deps[k]).kind == IdKind::CellId implies Some(
        registry.measure(deps[k], full_depth()),
    ) == registry.revision(deps[k]) by {
        assert(registry.has(deps[k]));
    }
}

/// The measure of the nodes `deps` reaches the cells within `fuel`
/// computed nodes in a row: no chain of dependencies from them is longer.
pub open spec fn grounded<T, C, F>(
    registry: RegistryView<T, C, F>,
    deps: Seq<IdView>,
    fuel: nat,
) -> bool
    decreases fuel, deps.len() + 1,
{
    deps.len() == 0 || (grounded(registry, deps.drop_last(), fuel) && node_grounded(
        registry,
        deps.last(),
        fuel,
    ))
}

/// The measure of the node `node` reaches the cells within `fuel` computed
/// nodes in a row.
pub open spec fn node_grounded<T, C, F>(
    registry: RegistryView<T, C, F>,
    node: IdView,
    fuel: nat,
) -> bool
    decreases fuel, 0nat,
{
    match node.kind {
        IdKind::DerivedId => node.id < registry.derived.len() ==> fuel > 0 && grounded(
            registry,
            registry.derived[node.id as int].tag.deps,
            (fuel - 1) as nat,
        ),
        IdKind::FunctionId => node.id < registry.functions.len() ==> fuel > 0 && grounded(
            registry,
            registry.functions[node.id as int].tag.deps,
            (fuel - 1) as nat,
        ),
        _ => true,
    }
}

/// A measure that reaches the cells does not change with more fuel.
pub proof fn lemma_latest_grounded<T, C, F>(
    registry: RegistryView<T, C, F>,
    deps: Seq<IdView>,
    fuel: nat,
    more: nat,
)
    requires
        grounded(registry, deps, fuel),
        fuel <= more,
    ensures
        registry.latest(deps, more) == registry.latest(deps, fuel),
    decreases fuel, deps.len() + 1,
{
    if deps.len() > 0 {
        lemma_latest_grounded(registry, deps.drop_last(), fuel, more);
        lemma_measure_grounded(registry, deps.last(), fuel, more);
    }
}

/// The measure of a node that reaches the cells does not change with more
/// fuel.
pub proof fn lemma_measure_grounded<T, C, F>(
    registry: RegistryView<T, C, F>,
    node: IdView,
    fuel: nat,
    more: nat,
)
    requires
        node_grounded(registry, node, fuel),
        fuel <= more,
    ensures
        registry.measure(node, more) == registry.measure(node, fuel),
    decreases fuel, 0nat,
{
    match node.kind {
        IdKind::DerivedId => {
            if node.id < registry.derived.len() {
                lemma_latest_grounded(
                    registry,
                    registry.derived[node.id as int].tag.deps,
                    (fuel - 1) as nat,
                    (more - 1) as nat,
                );
            }
        },
        IdKind::FunctionId => {
            if node.id < registry.functions.len() {
                lemma_latest_grounded(
                    registry,
                    registry.functions[node.id as int].tag.deps,
                    (fuel - 1) as nat,
                    (more - 1) as nat,
                );
            }
        },
        _ => {},
    }
}

/// The revision of a node that has been evaluated is the latest of the
/// revisions that its dependencies have now, taken through computed
/// dependencies in turn: each dependency measures what its own revision
/// is, in a registry whose chains of dependencies end within the depth of
/// the measure.
pub proof fn lemma_revision_is_latest_revision<T, C, F>(
    registry: RegistryView<T, C, F>,
    node: IdView,
    k: int,
)
    requires
        registry.wf(),
        registry.has(node),
        node.kind != IdKind::CellId,
        registry.tag(node).initialized,
        0 <= k < registry.tag(node).deps.len(),
        node_grounded(registry, registry.tag(node).deps[k], (full_depth() - 1) as nat),
    ensures
        registry.revision(registry.tag(node).deps[k]) == Some(
            registry.measure(registry.tag(node).deps[k], full_depth()),
        ),
        registry.revision(registry.tag(node).deps[k]).unwrap() <= registry.revision(node).unwrap(),
{
    let deps = registry.tag(node).deps;
    let dep = deps[k];
    assert(registry.known(deps));
    assert(registry.has(dep));
    lemma_latest_is_maximum(registry, deps, full_depth());
    lemma_measure_grounded(registry, dep, (full_depth() - 1) as nat, full_depth());
    if dep.kind != IdKind::CellId {
        lemma_latest_grounded(
            registry,
            registry.tag(dep).deps,
            (full_depth() - 2) as nat,
            (full_depth() - 1) as nat,
        );
        lemma_latest_grounded(
            registry,
            registry.tag(dep).deps,
            (full_depth() - 2) as nat,
            full_depth(),
        );
    }
}

/// One of the nodes `deps` depends on the cell `cell`: it is that cell, or
/// it is computed and one of its own dependencies depends on the cell,
/// through at most `fuel` computed nodes in a row.
pub open spec fn depends_on<T, C, F>(
    registry: RegistryView<T, C, F>,
    deps: Seq<IdView>,
    fuel: nat,
    cell: nat,
) -> bool
    decreases fuel, deps.len() + 1,
{
    deps.len() > 0 && (depends_on(registry, deps.drop_last(), fuel, cell) || leads_to(
        registry,
        deps.last(),
        fuel,
        cell,
    ))
}

/// The node `node` is the cell `cell`, or it is computed and one of its
/// dependencies depends on the cell, through at most `fuel` computed nodes
/// in a row.
pub open spec fn leads_to<T, C, F>(
    registry: RegistryView<T, C, F>,
    node: IdView,
    fuel: nat,
    cell: nat,
) -> bool
    decreases fuel, 0nat,
{
    match node.kind {
        IdKind::CellId => node.id == cell,
        IdKind::DerivedId => node.id < registry.derived.len() && fuel > 0 && depends_on(
            registry,
            registry.derived[node.id as int].tag.deps,
            (fuel - 1) as nat,
            cell,
        ),
        IdKind::FunctionId => node.id < registry.functions.len() && fuel > 0 && depends_on(
            registry,
            registry.functions[node.id as int].tag.deps,
            (fuel - 1) as nat,
            cell,
        ),
        IdKind::ListId => false,
    }
}

/// The computed node `node` depends on the cell `cell`, by the
/// dependencies that the nodes have now.
pub open spec fn node_depends_on<T, C, F>(
    registry: RegistryView<T, C, F>,
    node: IdView,
    cell: nat,
) -> bool {
    depends_on(registry, registry.tag(node).deps, full_depth(), cell)
}

/// Nodes that depend on a cell measure no earlier than the cell's
/// revision, in any registry with the same computed nodes.
pub proof fn lemma_latest_sees_cell<T, C, F>(
    registry: RegistryView<T, C, F>,
    other: RegistryView<T, C, F>,
    deps: Seq<IdView>,
    fuel: nat,
    cell: nat,
)
    requires
        other.derived == registry.derived,
        other.functions == registry.functions,
        cell < other.cells.len(),
        depends_on(registry, deps, fuel, cell),
    ensures
        other.cells[cell as int].revision <= other.latest(deps, fuel),
    decreases fuel, deps.len() + 1,
{
    if depends_on(registry, deps.drop_last(), fuel, cell) {
        lemma_latest_sees_cell(registry, other, deps.drop_last(), fuel, cell);
    } else {
        lemma_measure_sees_cell(registry, other, deps.last(), fuel, cell);
    }
}

/// A node that depends on a cell measures no earlier than the cell's
/// revision, in any registry with the same computed nodes.
pub proof fn lemma_measure_sees_cell<T, C, F>(
    registry: RegistryView<T, C, F>,
    other: RegistryView<T, C, F>,
    node: IdView,
    fuel: nat,
    cell: nat,
)
    requires
        other.derived == registry.derived,
        other.functions == registry.functions,
        cell < other.cells.len(),
        leads_to(registry, node, fuel, cell),
    ensures
        other.cells[cell as int].revision <= other.measure(node, fuel),
    decreases fuel, 0nat,
{
    match node.kind {
        IdKind::DerivedId => {
            lemma_latest_sees_cell(
                registry,
                other,
                registry.derived[node.id as int].tag.deps,
                (fuel - 1) as nat,
                cell,
            );
        },
        IdKind::FunctionId => {
            lemma_latest_sees_cell(
                registry,
                other,
                registry.functions[node.id as int].tag.deps,
                (fuel - 1) as nat,
                cell,
            );
        },
        _ => {},
    }
}

/// The registry `later` has every node of `registry`, and each computed
/// one that has been evaluated there is evaluated in `later`, with the
/// dependencies that it has in `registry`.
pub open spec fn keeps_dependencies<T, C, F>(
    registry: RegistryView<T, C, F>,
    later: RegistryView<T, C, F>,
) -> bool {
    &&& registry.cells.len() <= later.cells.len()
    &&& registry.derived.len() <= later.derived.len()
    &&& registry.functions.len() <= later.functions.len()
    &&& forall|i: int|
        0 <= i < registry.derived.len() && registry.derived[i].tag.initialized ==> (
        #[trigger] later.derived[i]).tag.initialized && later.derived[i].tag.deps
            == registry.derived[i].tag.deps
    &&& forall|i: int|
        0 <= i < registry.functions.len() && registry.functions[i].tag.initialized ==> (
        #[trigger] later.functions[i]).tag.initialized && later.functions[i].tag.deps
            == registry.functions[i].tag.deps
}

/// Nodes measure the same in a registry that keeps the dependencies and
/// the revision of every cell that they depend on.
pub proof fn lemma_latest_unchanged<T, C, F>(
    registry: RegistryView<T, C, F>,
    later: RegistryView<T, C, F>,
    deps: Seq<IdView>,
    fuel: nat,
)
    requires
        registry.wf(),
        registry.known(deps),
        keeps_dependencies(registry, later),
        forall|cell: nat|
            cell < registry.cells.len() && #[trigger] depends_on(registry, deps, fuel, cell)
                ==> later.cells[cell as int].revision == registry.cells[cell as int].revision,
    ensures
        later.latest(deps, fuel) == registry.latest(deps, fuel),
    decreases fuel, deps.len() + 1,
{
    if deps.len() > 0 {
        let rest = deps.drop_last();
        assert forall|k: int| 0 <= k < rest.len() implies registry.has(#[trigger] rest[k])
            && registry.evaluated(rest[k]) by {
            assert(rest[k] == deps[k]);
        }
        assert forall|cell: nat|
            cell < registry.cells.len() && #[trigger] depends_on(
                registry,
                rest,
                fuel,
                cell,
            ) implies later.cells[cell as int].revision == registry.cells[cell as int].revision by {
            assert(depends_on(registry, deps, fuel, cell));
        }
        lemma_latest_unchanged(registry, later, rest, fuel);
        assert(registry.has(deps[deps.len() - 1]) && registry.evaluated(deps[deps.len() - 1]));
        assert forall|cell: nat|
            cell < registry.cells.len() && #[trigger] leads_to(
                registry,
                deps.last(),
                fuel,
                cell,
            ) implies later.cells[cell as int].revision == registry.cells[cell as int].revision by {
            assert(depends_on(registry, deps, fuel, cell));
        }
        lemma_measure_unchanged(registry, later, deps.last(), fuel);
    }
}

/// A node measures the same in a registry that keeps the dependencies and
/// the revision of every cell that it depends on.
pub proof fn lemma_measure_unchanged<T, C, F>(
    registry: RegistryView<T, C, F>,
    later: RegistryView<T, C, F>,
    node: IdView,
    fuel: nat,
)
    requires
        registry.wf(),
        registry.has(node),
        registry.evaluated(node),
        keeps_dependencies(registry, later),
        forall|cell: nat|
            cell < registry.cells.len() && #[trigger] leads_to(registry, node, fuel, cell)
                ==> later.cells[cell as int].revision == registry.cells[cell as int].revision,
    ensures
        later.measure(node, fuel) == registry.measure(node, fuel),
    decreases fuel, 0nat,
{
    match node.kind {
        IdKind::CellId => {
            assert(leads_to(registry, node, fuel, node.id));
        },
        IdKind::DerivedId => {
            if fuel > 0 {
                let deps = registry.derived[node.id as int].tag.deps;
                assert(later.derived[node.id as int].tag.deps == deps);
                assert(registry.known(deps));
                assert forall|cell: nat|
                    cell < registry.cells.len() && #[trigger] depends_on(
                        registry,
                        deps,
                        (fuel - 1) as nat,
                        cell,
                    ) implies later.cells[cell as int].revision
                    == registry.cells[cell as int].revision by {
                    assert(leads_to(registry, node, fuel, cell));
                }
                lemma_latest_unchanged(registry, later, deps, (fuel - 1) as nat);
            }
        },
        IdKind::FunctionId => {
            if fuel > 0 {
                let deps = registry.functions[node.id as int].tag.deps;
                assert(later.functions[node.id as int].tag.deps == deps);
                assert(registry.known(deps));
                assert forall|cell: nat|
                    cell < registry.cells.len() && #[trigger] depends_on(
                        registry,
                        deps,
                        (fuel - 1) as nat,
                        cell,
                    ) implies later.cells[cell as int].revision
                    == registry.cells[cell as int].revision by {
                    assert(leads_to(registry, node, fuel, cell));
                }
                lemma_latest_unchanged(registry, later, deps, (fuel - 1) as nat);
            }
        },
        IdKind::ListId => {},
    }
}

/// Nodes depend on the same cells in a registry that keeps the
/// dependencies.
pub proof fn lemma_depends_unchanged<T, C, F>(
    registry: RegistryView<T, C, F>,
    later: RegistryView<T, C, F>,
    deps: Seq<IdView>,
    fuel: nat,
    cell: nat,
)
    requires
        registry.wf(),
        registry.known(deps),
        keeps_dependencies(registry, later),
    ensures
        depends_on(later, deps, fuel, cell) == depends_on(registry, deps, fuel, cell),
    decreases fuel, deps.len() + 1,
{
    if deps.len() > 0 {
        let rest = deps.drop_last();
        assert forall|k: int| 0 <= k < rest.len() implies registry.has(#[trigger] rest[k])
            && registry.evaluated(rest[k]) by {
            assert(rest[k] == deps[k]);
        }
        lemma_depends_unchanged(registry, later, rest, fuel, cell);
        assert(registry.has(deps[deps.len() - 1]) && registry.evaluated(deps[deps.len() - 1]));
        lemma_leads_unchanged(registry, later, deps.last(), fuel, cell);
    }
}

/// A node leads to the same cells in a registry that keeps the
/// dependencies.
pub proof fn lemma_leads_unchanged<T, C, F>(
    registry: RegistryView<T, C, F>,
    later: RegistryView<T, C, F>,
    node: IdView,
    fuel: nat,
    cell: nat,
)
    requires
        registry.wf(),
        registry.has(node),
        registry.evaluated(node),
        keeps_dependencies(registry, later),
    ensures
        leads_to(later, node, fuel, cell) == leads_to(registry, node, fuel, cell),
    decreases fuel, 0nat,
{
    match node.kind {
        IdKind::DerivedId => {
            if fuel > 0 {
                let deps = registry.derived[node.id as int].tag.deps;
                assert(later.derived[node.id as int].tag.deps == deps);
                assert(registry.known(deps));
                lemma_depends_unchanged(registry, later, deps, (fuel - 1) as nat, cell);
            }
        },
        IdKind::FunctionId => {
            if fuel > 0 {
                let deps = registry.functions[node.id as int].tag.deps;
                assert(later.functions[node.id as int].tag.deps == deps);
                assert(registry.known(deps));
                lemma_depends_unchanged(registry, later, deps, (fuel - 1) as nat, cell);
            }
        },
        _ => {},
    }
}

/// The nodes `ids` are cells of both registries, and each has the same
/// revision in both.
pub open spec fn same_cells<T, C, F>(
    first: RegistryView<T, C, F>,
    second: RegistryView<T, C, F>,
    ids: Seq<IdView>,
) -> bool {
    forall|k: int|
        0 <= k < ids.len() ==> {
            &&& (#[trigger] ids[k]).kind == IdKind::CellId
            &&& ids[k].id < first.cells.len()
            &&& ids[k].id < second.cells.len()
            &&& first.cells[ids[k].id as int].revision == second.cells[ids[k].id as int].revision
        }
}

/// The latest revision of cells is a matter of their revisions alone:
/// whatever else two registries hold, and through however many computed
/// nodes one measures.
pub proof fn lemma_latest_of_cells<T, C, F>(
    first: RegistryView<T, C, F>,
    second: RegistryView<T, C, F>,
    ids: Seq<IdView>,
    fuel: nat,
    other_fuel: nat,
)
    requires
        same_cells(first, second, ids),
    ensures
        first.latest(ids, fuel) == second.latest(ids, other_fuel),
    decreases ids.len(),
{
    if ids.len() > 0 {
        let rest = ids.drop_last();
        assert forall|k: int| 0 <= k < rest.len() implies {
            &&& (#[trigger] rest[k]).kind == IdKind::CellId
            &&& rest[k].id < first.cells.len()
            &&& rest[k].id < second.cells.len()
            &&& first.cells[rest[k].id as int].revision == second.cells[rest[k].id as int].revision
        } by {
            assert(rest[k] == ids[k]);
        }
        lemma_latest_of_cells(first, second, rest, fuel, other_fuel);
        let last = ids[ids.len() - 1];
        assert(last.kind == IdKind::CellId);
        assert(first.measure(last, fuel) == first.cells[last.id as int].revision);
        assert(second.measure(last, other_fuel) == second.cells[last.id as int].revision);
    }
}

} // verus!
