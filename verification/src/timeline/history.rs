//! Histories: what holds of a timeline over any run of steps.

use vstd::prelude::*;
use crate::inputs::cell::CellView;
use crate::inputs::derived::DynamicComputation;
use crate::inputs::function::{DynamicCode, DynamicFunction, FunctionNodeView};
use crate::inputs::reactive::DerivedView;
use crate::timeline::evaluation_context::ContextView;
use crate::timeline::id::{IdKind, IdView};
use crate::timeline::inputs::full_depth;
use crate::timeline::measure::{
    depends_on, keeps_dependencies, lemma_depends_unchanged, lemma_latest_bounded,
    lemma_latest_of_cells, lemma_latest_sees_cell, lemma_latest_unchanged, node_depends_on,
    same_cells,
};
use crate::timeline::timeline::TimelineView;

verus! {

/// One step of a timeline: what one call of a transaction does.
pub enum Step<T, C, F> {
    /// A setup adds a cell that holds `value`.
    Cell { value: T },
    /// A setup adds a derived node with the body `computation`.
    Derived { computation: C },
    /// A setup adds the function instance `node`.
    Function { node: FunctionNodeView<T, F> },
    /// An update changes the cell `id` to `value`.
    Update { id: nat, value: T },
    /// A render reads the node `target`, outside of any evaluation, and
    /// the read gives `value`.
    Read { target: IdView, value: T },
}

impl<T, C, F> Step<T, C, F> {
    /// The step is an update of the cell `id`.
    pub open spec fn updates(self, id: nat) -> bool {
        self matches Step::Update { id: cell, .. } && cell == id
    }

    /// The step evaluates a node: it reads one that is computed.
    pub open spec fn evaluates(self) -> bool {
        self matches Step::Read { target, .. } && target.kind != IdKind::CellId
    }
}

impl<T, C, F> TimelineView<T, C, F> {
    /// The timeline as a context in which no evaluation is under way.
    pub open spec fn at_rest(self) -> ContextView<T, C, F> {
        ContextView { frames: Seq::empty(), inputs: self.inputs }
    }
}

/// The step `step` takes the timeline `before` to the timeline `after`.
pub open spec fn next<T: Clone, C: DynamicComputation<T, F>, F: DynamicCode<T, C>>(
    before: TimelineView<T, C, F>,
    step: Step<T, C, F>,
    after: TimelineView<T, C, F>,
) -> bool {
    match step {
        Step::Cell { value } => after == before.with_cell(value),
        Step::Derived { computation } => after == before.with_derived(computation),
        Step::Function { node } => {
            &&& node.wf()
            &&& node.tag == DerivedView::fresh()
            &&& after == before.with_function(node)
        },
        Step::Update { id, value } => {
            &&& before.inputs is Some
            &&& id < before.inputs.unwrap().cells.len()
            &&& after == before.update(id, value)
        },
        Step::Read { target, value } => {
            &&& before.has(target)
            &&& after.clock == before.clock
            &&& before.at_rest().reads(after.at_rest(), target, value)
        },
    }
}

/// A run: each step takes a state to the next one.
pub open spec fn run<T: Clone, C: DynamicComputation<T, F>, F: DynamicCode<T, C>>(
    states: Seq<TimelineView<T, C, F>>,
    steps: Seq<Step<T, C, F>>,
) -> bool {
    &&& states.len() == steps.len() + 1
    &&& forall|i: int| 0 <= i < steps.len() ==> next(states[i], #[trigger] steps[i], states[i + 1])
}

/// A step keeps a timeline well formed and never turns the clock back.
pub proof fn lemma_step_keeps_wf<T: Clone, C: DynamicComputation<T, F>, F: DynamicCode<T, C>>(
    before: TimelineView<T, C, F>,
    step: Step<T, C, F>,
    after: TimelineView<T, C, F>,
)
    requires
        before.wf(),
        next(before, step, after),
    ensures
        after.wf(),
        before.clock <= after.clock,
{
    let earlier = before.registry();
    match step {
        Step::Read { .. } => {},
        Step::Update { id, .. } => {
            let registry = after.inputs.unwrap();
            assert forall|i: int| 0 <= i < registry.cells.len() implies (#[trigger] registry.cells[i]).revision
                <= after.clock by {
                if i != id {
                    assert(registry.cells[i] == earlier.cells[i]);
                }
            }
            assert forall|i: int| 0 <= i < registry.derived.len() implies (
            #[trigger] registry.derived[i]).wf() && registry.known(registry.derived[i].tag.deps) by {
                assert(earlier.known(earlier.derived[i].tag.deps));
            }
            assert forall|i: int| 0 <= i < registry.functions.len() implies (
            #[trigger] registry.functions[i]).wf() && registry.known(
                registry.functions[i].tag.deps,
            ) by {
                assert(earlier.known(earlier.functions[i].tag.deps));
            }
        },
        _ => {
            let registry = after.inputs.unwrap();
            assert forall|i: int| 0 <= i < registry.cells.len() implies (#[trigger] registry.cells[i]).revision
                <= after.clock by {
                if i < earlier.cells.len() {
                    assert(registry.cells[i] == earlier.cells[i]);
                }
            }
            assert forall|i: int| 0 <= i < registry.derived.len() implies {
                &&& (#[trigger] registry.derived[i]).wf()
                &&& registry.known(registry.derived[i].tag.deps)
                &&& !registry.derived[i].tag.modifying
            } by {
                if i < earlier.derived.len() {
                    assert(registry.derived[i] == earlier.derived[i]);
                    assert(earlier.known(earlier.derived[i].tag.deps));
                }
            }
            assert forall|i: int| 0 <= i < registry.functions.len() implies {
                &&& (#[trigger] registry.functions[i]).wf()
                &&& registry.known(registry.functions[i].tag.deps)
                &&& !registry.functions[i].tag.modifying
            } by {
                if i < earlier.functions.len() {
                    assert(registry.functions[i] == earlier.functions[i]);
                    assert(earlier.known(earlier.functions[i].tag.deps));
                }
            }
        },
    }
}

/// Along a run that starts well formed, every state is well formed and the
/// clock never turns back.
pub proof fn lemma_run_keeps_wf<T: Clone, C: DynamicComputation<T, F>, F: DynamicCode<T, C>>(
    states: Seq<TimelineView<T, C, F>>,
    steps: Seq<Step<T, C, F>>,
    j: int,
    i: int,
)
    requires
        states[0].wf(),
        run(states, steps),
        0 <= j <= i < states.len(),
    ensures
        states[i].wf(),
        states[j].wf(),
        states[j].clock <= states[i].clock,
    decreases i,
{
    if i > 0 {
        if j < i {
            lemma_run_keeps_wf(states, steps, j, i - 1);
        } else {
            lemma_run_keeps_wf(states, steps, i - 1, i - 1);
        }
        lemma_step_keeps_wf(states[i - 1], steps[i - 1], states[i]);
    }
}

/// A step that is not an update of the cell `cell` leaves that cell as it
/// is.
pub proof fn lemma_step_keeps_cell<T: Clone, C: DynamicComputation<T, F>, F: DynamicCode<T, C>>(
    before: TimelineView<T, C, F>,
    step: Step<T, C, F>,
    after: TimelineView<T, C, F>,
    cell: nat,
)
    requires
        next(before, step, after),
        cell < before.registry().cells.len(),
        !step.updates(cell),
    ensures
        cell < after.registry().cells.len(),
        after.registry().cells[cell as int] == before.registry().cells[cell as int],
{
}

/// A cell that no step has updated since it was made carries the revision
/// at which it was made, which is a live one, and holds the value that it
/// was made with.
///
/// The run begins with the step that makes the cell.
pub proof fn lemma_untouched_cell_keeps_first_revision<T: Clone, C: DynamicComputation<T, F>, F: DynamicCode<T, C>>(
    states: Seq<TimelineView<T, C, F>>,
    steps: Seq<Step<T, C, F>>,
    value: T,
)
    requires
        states[0].wf(),
        run(states, steps),
        steps.len() >= 1,
        steps[0] == (Step::<T, C, F>::Cell { value }),
        forall|i: int| 1 <= i < steps.len() ==> !(#[trigger] steps[i]).updates(
            states[0].registry().cells.len(),
        ),
    ensures
        states[0].registry().cells.len() < states.last().registry().cells.len(),
        states.last().registry().cells[states[0].registry().cells.len() as int] == (CellView {
            value,
            revision: states[0].clock,
        }),
        states[0].clock >= 1,
    decreases steps.len(),
{
    let cell = states[0].registry().cells.len();
    if steps.len() > 1 {
        let n = steps.len() - 1;
        let shorter_states = states.drop_last();
        let shorter_steps = steps.drop_last();
        lemma_untouched_cell_keeps_first_revision(shorter_states, shorter_steps, value);
        lemma_step_keeps_cell(states[n], steps[n], states[n + 1], cell);
    }
}

/// An update gives its cell a revision later than every revision that any
/// node had before it: the cell holds the new value and the new clock, and
/// the clock outruns whatever a node measured until then.
pub proof fn lemma_update_outruns_every_revision<T: Clone, C: DynamicComputation<T, F>, F: DynamicCode<T, C>>(
    states: Seq<TimelineView<T, C, F>>,
    steps: Seq<Step<T, C, F>>,
    i: int,
    j: int,
    node: IdView,
)
    requires
        states[0].wf(),
        run(states, steps),
        0 <= j <= i < steps.len(),
        steps[i] is Update,
        states[j].has(node),
        states[j].revision(node) is Some,
    ensures
        states[i + 1].registry().cells[steps[i]->Update_id as int].value == steps[i]->Update_value,
        states[i + 1].revision(IdView { id: steps[i]->Update_id, kind: IdKind::CellId }) == Some(
            states[i].clock + 1,
        ),
        states[j].revision(node).unwrap() < states[i].clock + 1,
{
    lemma_run_keeps_wf(states, steps, j, i);
    let registry = states[j].registry();
    if node.kind != IdKind::CellId {
        lemma_latest_bounded(
            registry,
            registry.tag(node).deps,
            full_depth(),
            states[j].clock,
        );
    }
}

/// An update of a cell that a node depends on raises the node's revision
/// to the new clock at once, with no evaluation in between.
pub proof fn lemma_update_raises_revision<T: Clone, C: DynamicComputation<T, F>, F: DynamicCode<T, C>>(
    before: TimelineView<T, C, F>,
    after: TimelineView<T, C, F>,
    cell: nat,
    value: T,
    node: IdView,
)
    requires
        before.wf(),
        next(before, (Step::<T, C, F>::Update { id: cell, value }), after),
        before.has(node),
        node.kind != IdKind::CellId,
        before.revision(node) is Some,
        node_depends_on(before.registry(), node, cell),
    ensures
        after.has(node),
        after.clock == before.clock + 1,
        after.revision(node) == Some(after.clock),
{
    let step = Step::<T, C, F>::Update { id: cell, value };
    lemma_step_keeps_wf(before, step, after);
    let earlier = before.registry();
    let registry = after.registry();
    let tag = earlier.tag(node);
    assert(registry.tag(node) == tag);
    lemma_latest_sees_cell(earlier, registry, tag.deps, full_depth(), cell);
    lemma_latest_bounded(registry, tag.deps, full_depth(), after.clock);
}

/// A step that evaluates nothing leaves every computed node with its tag.
pub proof fn lemma_step_keeps_tag<T: Clone, C: DynamicComputation<T, F>, F: DynamicCode<T, C>>(
    before: TimelineView<T, C, F>,
    step: Step<T, C, F>,
    after: TimelineView<T, C, F>,
    node: IdView,
)
    requires
        next(before, step, after),
        before.has(node),
        node.kind != IdKind::CellId,
        !step.evaluates(),
    ensures
        after.has(node),
        after.registry().tag(node) == before.registry().tag(node),
{
}

/// Over a run that evaluates nothing, a computed node keeps its tag: one
/// that has not been evaluated stays without a revision.
pub proof fn lemma_tag_stable_without_evaluation<T: Clone, C: DynamicComputation<T, F>, F: DynamicCode<T, C>>(
    states: Seq<TimelineView<T, C, F>>,
    steps: Seq<Step<T, C, F>>,
    node: IdView,
)
    requires
        run(states, steps),
        states[0].has(node),
        node.kind != IdKind::CellId,
        forall|i: int| 0 <= i < steps.len() ==> !(#[trigger] steps[i]).evaluates(),
    ensures
        states.last().has(node),
        states.last().registry().tag(node) == states[0].registry().tag(node),
        states[0].revision(node) is None ==> states.last().revision(node) is None,
    decreases steps.len(),
{
    if steps.len() > 0 {
        let n = steps.len() - 1;
        lemma_tag_stable_without_evaluation(states.drop_last(), steps.drop_last(), node);
        assert(states.drop_last().last() == states[n]);
        lemma_step_keeps_tag(states[n], steps[n], states[n + 1], node);
    }
}

/// Over a run whose evaluations leave every node that had been evaluated
/// with the dependencies that it had, the last registry keeps the
/// dependencies of the first. A step that evaluates nothing does so by
/// itself.
pub proof fn lemma_run_keeps_dependencies<T: Clone, C: DynamicComputation<T, F>, F: DynamicCode<T, C>>(
    states: Seq<TimelineView<T, C, F>>,
    steps: Seq<Step<T, C, F>>,
)
    requires
        run(states, steps),
        forall|i: int|
            0 <= i < steps.len() && (#[trigger] steps[i]).evaluates() ==> keeps_dependencies(
                states[i].registry(),
                states[i + 1].registry(),
            ),
    ensures
        keeps_dependencies(states[0].registry(), states.last().registry()),
    decreases steps.len(),
{
    if steps.len() > 0 {
        let n = steps.len() - 1;
        lemma_run_keeps_dependencies(states.drop_last(), steps.drop_last());
        assert(states.drop_last().last() == states[n]);
        assert(next(states[n], steps[n], states[n + 1]));
        assert(keeps_dependencies(states[n].registry(), states[n + 1].registry()));
    }
}

/// A step leaves a computed node that has been evaluated with its
/// dependencies and its revision, unless it updates a cell that the node
/// depends on or evaluates a node that then reads other nodes than the
/// last time.
pub proof fn lemma_step_keeps_revision<T: Clone, C: DynamicComputation<T, F>, F: DynamicCode<T, C>>(
    before: TimelineView<T, C, F>,
    step: Step<T, C, F>,
    after: TimelineView<T, C, F>,
    node: IdView,
)
    requires
        before.wf(),
        next(before, step, after),
        before.has(node),
        node.kind != IdKind::CellId,
        before.revision(node) is Some,
        step.evaluates() ==> keeps_dependencies(before.registry(), after.registry()),
        forall|cell: nat| step.updates(cell) ==> !node_depends_on(before.registry(), node, cell),
    ensures
        after.has(node),
        after.registry().tag(node).deps == before.registry().tag(node).deps,
        after.revision(node) == before.revision(node),
{
    let earlier = before.registry();
    let registry = after.registry();
    let deps = earlier.tag(node).deps;
    assert(keeps_dependencies(earlier, registry));
    assert(registry.tag(node).deps == deps);
    assert(earlier.known(deps));
    assert forall|cell: nat|
        cell < earlier.cells.len() && #[trigger] depends_on(
            earlier,
            deps,
            full_depth(),
            cell,
        ) implies registry.cells[cell as int].revision == earlier.cells[cell as int].revision by {
        assert(node_depends_on(earlier, node, cell));
        assert(!step.updates(cell));
        lemma_step_keeps_cell(before, step, after, cell);
    }
    lemma_latest_unchanged(earlier, registry, deps, full_depth());
}

/// The revision of a computed node is stable: over a run of steps that
/// update no cell that the node depends on, and whose evaluations leave
/// every node that had been evaluated with the dependencies that it had,
/// the node keeps its dependencies and its revision.
pub proof fn lemma_revision_stable<T: Clone, C: DynamicComputation<T, F>, F: DynamicCode<T, C>>(
    states: Seq<TimelineView<T, C, F>>,
    steps: Seq<Step<T, C, F>>,
    node: IdView,
)
    requires
        states[0].wf(),
        run(states, steps),
        states[0].has(node),
        node.kind != IdKind::CellId,
        states[0].revision(node) is Some,
        forall|i: int|
            0 <= i < steps.len() && (#[trigger] steps[i]).evaluates() ==> keeps_dependencies(
                states[i].registry(),
                states[i + 1].registry(),
            ),
        forall|i: int, cell: nat|
            0 <= i < steps.len() && (#[trigger] steps[i]).updates(cell) ==> !#[trigger] node_depends_on(
                states[0].registry(),
                node,
                cell,
            ),
    ensures
        states.last().has(node),
        states.last().registry().tag(node).deps == states[0].registry().tag(node).deps,
        states.last().revision(node) == states[0].revision(node),
    decreases steps.len(),
{
    if steps.len() > 0 {
        let n = steps.len() - 1;
        let shorter_states = states.drop_last();
        let shorter_steps = steps.drop_last();
        assert(run(shorter_states, shorter_steps));
        lemma_revision_stable(shorter_states, shorter_steps, node);
        lemma_run_keeps_dependencies(shorter_states, shorter_steps);
        assert(shorter_states.last() == states[n]);
        assert(shorter_states[0] == states[0]);
        lemma_run_keeps_wf(states, steps, 0, n);
        assert(states[0].registry().known(states[0].registry().tag(node).deps));
        assert forall|cell: nat| steps[n].updates(cell) implies !node_depends_on(
            states[n].registry(),
            node,
            cell,
        ) by {
            assert(!node_depends_on(states[0].registry(), node, cell));
            lemma_depends_unchanged(
                states[0].registry(),
                states[n].registry(),
                states[0].registry().tag(node).deps,
                full_depth(),
                cell,
            );
        }
        lemma_step_keeps_revision(states[n], steps[n], states[n + 1], node);
    }
}

/// The reads `ids` in a row, from the first context of `contexts` to the
/// last, giving `values`.
pub open spec fn reads_in_a_row<T: Clone, C: DynamicComputation<T, F>, F: DynamicCode<T, C>>(
    contexts: Seq<ContextView<T, C, F>>,
    ids: Seq<IdView>,
    values: Seq<T>,
) -> bool {
    &&& contexts.len() == ids.len() + 1
    &&& values.len() == ids.len()
    &&& forall|i: int|
        0 <= i < ids.len() ==> contexts[i].reads(contexts[i + 1], #[trigger] ids[i], values[i])
}

/// Reads are recorded as they are made: after the reads `ids` in a row the
/// top frame holds what it held and then one dependency for each read, in
/// the order of the reads, none left out and none added. The reads add no
/// node and change no cell.
pub proof fn lemma_reads_are_recorded<T: Clone, C: DynamicComputation<T, F>, F: DynamicCode<T, C>>(
    contexts: Seq<ContextView<T, C, F>>,
    ids: Seq<IdView>,
    values: Seq<T>,
)
    requires
        contexts[0].frames.len() > 0,
        contexts[0].inputs is Some,
        reads_in_a_row(contexts, ids, values),
    ensures
        contexts.last().frames.len() == contexts[0].frames.len(),
        contexts.last().frames.last().deps == contexts[0].frames.last().deps + ids,
        contexts.last().frames.last().modifying == contexts[0].frames.last().modifying,
        contexts.last().inputs is Some,
        contexts.last().inputs.unwrap().cells == contexts[0].inputs.unwrap().cells,
        contexts.last().inputs.unwrap().derived.len() == contexts[0].inputs.unwrap().derived.len(),
        contexts.last().inputs.unwrap().functions.len()
            == contexts[0].inputs.unwrap().functions.len(),
    decreases ids.len(),
{
    if ids.len() > 0 {
        let n = ids.len() - 1;
        lemma_reads_are_recorded(contexts.drop_last(), ids.drop_last(), values.drop_last());
        assert(contexts.drop_last().last() == contexts[n]);
        assert(contexts[n].reads(contexts[n + 1], ids[n], values[n]));
        assert(contexts.last().frames.last().deps =~= contexts[0].frames.last().deps + ids) by {
            assert(ids =~= ids.drop_last().push(ids[n]));
        }
    } else {
        assert(contexts[0].frames.last().deps + ids =~= contexts[0].frames.last().deps);
    }
}

/// The dependencies of a derived node are the reads of its last
/// evaluation: one for each read, in the order of the reads, none left out
/// and none added; and the node's revision is the latest revision that the
/// nodes it read have.
///
/// `before` is the context in which the evaluation of the node `id` is
/// entered, `contexts` are the contexts that the body goes through by the
/// reads `ids`, from the one in which it starts, and `computation` is the
/// body that goes back when the evaluation is left.
pub proof fn lemma_dependencies_are_the_reads<T: Clone, C: DynamicComputation<T, F>, F: DynamicCode<T, C>>(
    before: ContextView<T, C, F>,
    id: nat,
    contexts: Seq<ContextView<T, C, F>>,
    ids: Seq<IdView>,
    values: Seq<T>,
    computation: C,
)
    requires
        before.inputs is Some,
        id < before.inputs.unwrap().derived.len(),
        contexts[0] == before.enter_derived(id),
        reads_in_a_row(contexts, ids, values),
    ensures
        contexts.last().leave_derived(id, computation).inputs.unwrap().tag(
            IdView { id, kind: IdKind::DerivedId },
        ).deps == ids,
        contexts.last().leave_derived(id, computation).inputs.unwrap().revision(
            IdView { id, kind: IdKind::DerivedId },
        ) == Some(
            contexts.last().leave_derived(id, computation).inputs.unwrap().latest(
                ids,
                full_depth(),
            ),
        ),
{
    lemma_reads_are_recorded(contexts, ids, values);
    assert(Seq::<IdView>::empty() + ids =~= ids);
}

/// The dependencies of a function instance are the reads of its last
/// evaluation, and its revision is the latest revision that the nodes it
/// read have: what `lemma_dependencies_are_the_reads` says of a derived
/// node.
pub proof fn lemma_instance_dependencies_are_the_reads<T: Clone, C: DynamicComputation<T, F>, F: DynamicCode<T, C>>(
    before: ContextView<T, C, F>,
    id: nat,
    contexts: Seq<ContextView<T, C, F>>,
    ids: Seq<IdView>,
    values: Seq<T>,
    code: DynamicFunction<T, F>,
)
    requires
        before.inputs is Some,
        id < before.inputs.unwrap().functions.len(),
        contexts[0] == before.enter_function(id),
        reads_in_a_row(contexts, ids, values),
    ensures
        contexts.last().leave_function(id, code).inputs.unwrap().tag(
            IdView { id, kind: IdKind::FunctionId },
        ).deps == ids,
        contexts.last().leave_function(id, code).inputs.unwrap().revision(
            IdView { id, kind: IdKind::FunctionId },
        ) == Some(
            contexts.last().leave_function(id, code).inputs.unwrap().latest(
                ids,
                full_depth(),
            ),
        ),
{
    lemma_reads_are_recorded(contexts, ids, values);
    assert(Seq::<IdView>::empty() + ids =~= ids);
}

/// Evaluating a derived node again changes its revision only if a cell it
/// reads has changed: two evaluations that read the same cells, none of
/// them updated in between, leave the node with the same revision.
///
/// `first` and `second` are the contexts in which the two evaluations are
/// entered; the rest is as in `lemma_dependencies_are_the_reads`, once for
/// each evaluation.
pub proof fn lemma_revision_stable_over_evaluations_of_cells<T: Clone, C: DynamicComputation<T, F>, F: DynamicCode<T, C>>(
    first: ContextView<T, C, F>,
    second: ContextView<T, C, F>,
    id: nat,
    first_contexts: Seq<ContextView<T, C, F>>,
    second_contexts: Seq<ContextView<T, C, F>>,
    ids: Seq<IdView>,
    first_values: Seq<T>,
    second_values: Seq<T>,
    computation: C,
)
    requires
        first.inputs is Some,
        second.inputs is Some,
        id < first.inputs.unwrap().derived.len(),
        id < second.inputs.unwrap().derived.len(),
        first_contexts[0] == first.enter_derived(id),
        second_contexts[0] == second.enter_derived(id),
        reads_in_a_row(first_contexts, ids, first_values),
        reads_in_a_row(second_contexts, ids, second_values),
        same_cells(first.inputs.unwrap(), second.inputs.unwrap(), ids),
    ensures
        first_contexts.last().leave_derived(id, computation).inputs.unwrap().revision(
            IdView { id, kind: IdKind::DerivedId },
        ) == second_contexts.last().leave_derived(id, computation).inputs.unwrap().revision(
            IdView { id, kind: IdKind::DerivedId },
        ),
{
    lemma_dependencies_are_the_reads(first, id, first_contexts, ids, first_values, computation);
    lemma_dependencies_are_the_reads(second, id, second_contexts, ids, second_values, computation);
    lemma_reads_are_recorded(first_contexts, ids, first_values);
    lemma_reads_are_recorded(second_contexts, ids, second_values);
    lemma_latest_of_cells(
        first_contexts.last().leave_derived(id, computation).inputs.unwrap(),
        second_contexts.last().leave_derived(id, computation).inputs.unwrap(),
        ids,
        full_depth(),
        full_depth(),
    );
}

/// Evaluating a function instance again changes its revision only if a
/// cell it reads has changed: what
/// `lemma_revision_stable_over_evaluations_of_cells` says of a derived
/// node.
pub proof fn lemma_instance_revision_stable_over_evaluations_of_cells<T: Clone, C: DynamicComputation<T, F>, F: DynamicCode<T, C>>(
    first: ContextView<T, C, F>,
    second: ContextView<T, C, F>,
    id: nat,
    first_contexts: Seq<ContextView<T, C, F>>,
    second_contexts: Seq<ContextView<T, C, F>>,
    ids: Seq<IdView>,
    first_values: Seq<T>,
    second_values: Seq<T>,
    code: DynamicFunction<T, F>,
)
    requires
        first.inputs is Some,
        second.inputs is Some,
        id < first.inputs.unwrap().functions.len(),
        id < second.inputs.unwrap().functions.len(),
        first_contexts[0] == first.enter_function(id),
        second_contexts[0] == second.enter_function(id),
        reads_in_a_row(first_contexts, ids, first_values),
        reads_in_a_row(second_contexts, ids, second_values),
        same_cells(first.inputs.unwrap(), second.inputs.unwrap(), ids),
    ensures
        first_contexts.last().leave_function(id, code).inputs.unwrap().revision(
            IdView { id, kind: IdKind::FunctionId },
        ) == second_contexts.last().leave_function(id, code).inputs.unwrap().revision(
            IdView { id, kind: IdKind::FunctionId },
        ),
{
    lemma_instance_dependencies_are_the_reads(first, id, first_contexts, ids, first_values, code);
    lemma_instance_dependencies_are_the_reads(second, id, second_contexts, ids, second_values, code);
    lemma_reads_are_recorded(first_contexts, ids, first_values);
    lemma_reads_are_recorded(second_contexts, ids, second_values);
    lemma_latest_of_cells(
        first_contexts.last().leave_function(id, code).inputs.unwrap(),
        second_contexts.last().leave_function(id, code).inputs.unwrap(),
        ids,
        full_depth(),
        full_depth(),
    );
}

/// An output that was updated on a cell mirrors the cell for as long as no
/// cell is updated: what the update gave is a clone of the value that the
/// cell holds at the end of the run.
///
/// The run begins with the read of the cell that the update of the output
/// makes.
pub proof fn lemma_output_mirrors_cell<T: Clone, C: DynamicComputation<T, F>, F: DynamicCode<T, C>>(
    states: Seq<TimelineView<T, C, F>>,
    steps: Seq<Step<T, C, F>>,
    cell: nat,
    value: T,
)
    requires
        run(states, steps),
        steps.len() >= 1,
        steps[0] == (Step::<T, C, F>::Read { target: IdView { id: cell, kind: IdKind::CellId }, value }),
        forall|i: int| 1 <= i < steps.len() ==> !((#[trigger] steps[i]) is Update),
    ensures
        cell < states.last().registry().cells.len(),
        cloned(states.last().registry().cells[cell as int].value, value),
    decreases steps.len(),
{
    if steps.len() > 1 {
        let n = steps.len() - 1;
        let shorter_states = states.drop_last();
        let shorter_steps = steps.drop_last();
        lemma_output_mirrors_cell(shorter_states, shorter_steps, cell, value);
        lemma_step_keeps_cell(states[n], steps[n], states[n + 1], cell);
    }
}

/// An output that was updated on a derived node holds what the node's body
/// gave: the body ran in the timeline at rest with the evaluation of the
/// node entered, went as reads go to some context, gave there the value
/// that the output now holds, and the evaluation was left.
///
/// The step is the read of the node that the update of the output makes.
pub proof fn lemma_output_holds_what_body_gives<T: Clone, C: DynamicComputation<T, F>, F: DynamicCode<T, C>>(
    before: TimelineView<T, C, F>,
    after: TimelineView<T, C, F>,
    id: nat,
    value: T,
)
    requires
        next(
            before,
            (Step::<T, C, F>::Read { target: IdView { id, kind: IdKind::DerivedId }, value }),
            after,
        ),
    ensures
        exists|computed: ContextView<T, C, F>|
            {
                &&& #[trigger] before.inputs.unwrap().derived[id as int].computation.unwrap().gives(
                    before.at_rest().enter_derived(id),
                    computed,
                    value,
                )
                &&& computed.extends(before.at_rest().enter_derived(id))
                &&& after.at_rest() == computed.leave_derived(
                    id,
                    before.inputs.unwrap().derived[id as int].computation.unwrap(),
                )
            },
{
    let computed = choose|computed: ContextView<T, C, F>| #[trigger]
        before.at_rest().evaluates_derived(computed, after.at_rest(), id, value);
    assert(before.inputs.unwrap().derived[id as int].computation.unwrap().gives(
        before.at_rest().enter_derived(id),
        computed,
        value,
    ));
}

/// An output that was updated on a derived node whose body can give one
/// value only, whatever it reads, holds that value.
pub proof fn lemma_output_holds_the_only_value<T: Clone, C: DynamicComputation<T, F>, F: DynamicCode<T, C>>(
    before: TimelineView<T, C, F>,
    after: TimelineView<T, C, F>,
    id: nat,
    value: T,
    only: T,
)
    requires
        next(
            before,
            (Step::<T, C, F>::Read { target: IdView { id, kind: IdKind::DerivedId }, value }),
            after,
        ),
        forall|computed: ContextView<T, C, F>, given: T| #[trigger]
            before.inputs.unwrap().derived[id as int].computation.unwrap().gives(
                before.at_rest().enter_derived(id),
                computed,
                given,
            ) ==> given == only,
    ensures
        value == only,
{
    lemma_output_holds_what_body_gives(before, after, id, value);
}

/// The body `body` computes its value from the cells alone, as `f` says:
/// whatever it reads, what it gives is `f` of the cells of the registry in
/// which it runs.
pub open spec fn computes_from_cells<T, C: DynamicComputation<T, F>, F>(
    body: C,
    f: spec_fn(Seq<CellView<T>>) -> T,
) -> bool {
    forall|before: ContextView<T, C, F>, after: ContextView<T, C, F>, value: T|
        before.inputs is Some && #[trigger] body.gives(before, after, value) ==> value == f(
            before.inputs.unwrap().cells,
        )
}

/// An output that is updated twice on a derived node whose body computes
/// its value from the cells alone holds the same value both times, where no
/// cell has changed between the two updates: the value that the body's
/// function gives of the cells.
///
/// The two steps are the reads of the node that the two updates make.
pub proof fn lemma_output_reproduces_value<T: Clone, C: DynamicComputation<T, F>, F: DynamicCode<T, C>>(
    id: nat,
    f: spec_fn(Seq<CellView<T>>) -> T,
    first: TimelineView<T, C, F>,
    first_after: TimelineView<T, C, F>,
    first_value: T,
    second: TimelineView<T, C, F>,
    second_after: TimelineView<T, C, F>,
    second_value: T,
)
    requires
        next(
            first,
            (Step::<T, C, F>::Read { target: IdView { id, kind: IdKind::DerivedId }, value: first_value }),
            first_after,
        ),
        next(
            second,
            (Step::<T, C, F>::Read { target: IdView { id, kind: IdKind::DerivedId }, value: second_value }),
            second_after,
        ),
        computes_from_cells(first.inputs.unwrap().derived[id as int].computation.unwrap(), f),
        second.inputs.unwrap().derived[id as int].computation
            == first.inputs.unwrap().derived[id as int].computation,
        second.inputs.unwrap().cells == first.inputs.unwrap().cells,
    ensures
        first_value == f(first.inputs.unwrap().cells),
        second_value == first_value,
{
    lemma_output_holds_what_body_gives(first, first_after, id, first_value);
    lemma_output_holds_what_body_gives(second, second_after, id, second_value);
}

/// An output that was updated on a function instance holds what the
/// instance's code gave: the code ran on the handle of the instance's
/// argument, in the timeline at rest with the evaluation of the instance
/// entered, went as reads go to some context, gave there the value that the
/// output now holds, and the evaluation was left.
///
/// The step is the read of the instance that the update of the output
/// makes.
pub proof fn lemma_output_holds_what_code_gives<T: Clone, C: DynamicComputation<T, F>, F: DynamicCode<T, C>>(
    before: TimelineView<T, C, F>,
    after: TimelineView<T, C, F>,
    id: nat,
    value: T,
)
    requires
        next(
            before,
            (Step::<T, C, F>::Read { target: IdView { id, kind: IdKind::FunctionId }, value }),
            after,
        ),
    ensures
        exists|computed: ContextView<T, C, F>|
            {
                &&& #[trigger] before.inputs.unwrap().functions[id as int].code.unwrap().code().gives(
                    before.at_rest().enter_function(id),
                    before.inputs.unwrap().functions[id as int].args,
                    computed,
                    value,
                )
                &&& computed.extends(before.at_rest().enter_function(id))
                &&& after.at_rest() == computed.leave_function(
                    id,
                    before.inputs.unwrap().functions[id as int].code.unwrap(),
                )
            },
{
    let computed = choose|computed: ContextView<T, C, F>| #[trigger]
        before.at_rest().evaluates_function(computed, after.at_rest(), id, value);
    assert(before.inputs.unwrap().functions[id as int].code.unwrap().code().gives(
        before.at_rest().enter_function(id),
        before.inputs.unwrap().functions[id as int].args,
        computed,
        value,
    ));
}

} // verus!
