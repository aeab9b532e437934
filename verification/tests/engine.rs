use everafter::inputs::inputs::ReactiveInput;
use everafter::inputs::iterable::CopyIntoReactiveList;
use everafter::inputs::{DynamicCode, DynamicComputation, DynamicFunction, ReactiveFunction, ReactiveTag};
use everafter::timeline::id::{IdKind, InputId};
use everafter::timeline::{
    CellId, DerivedId, DynId, EvaluationContext, FunctionId, Timeline, TypedInputIdWithKind,
};
use everafter::{GetReactiveKey, Key, Revision, TypedInputId};

type Context<'a> = EvaluationContext<'a, i64, Computation, Function>;

struct Computation(Box<dyn Fn(&mut Context<'_>) -> i64>);

impl DynamicComputation<i64, Function> for Computation {
    fn compute(&self, ctx: &mut Context<'_>) -> i64 {
        (self.0)(ctx)
    }
}

#[derive(Clone)]
struct Function(fn(&mut Context<'_>, DynId) -> i64);

impl DynamicCode<i64, Computation> for Function {
    fn call(&self, ctx: &mut Context<'_>, arg: DynId) -> i64 {
        (self.0)(ctx, arg)
    }
}

type Engine = Timeline<i64, Computation, Function>;

type Cell = TypedInputIdWithKind<i64, CellId<i64>>;

fn derived(timeline: &mut Engine, body: impl Fn(&mut Context<'_>) -> i64 + 'static) -> TypedInputId<i64> {
    timeline.setup().derived(Computation(Box::new(body))).into()
}

fn render(timeline: &mut Engine, id: TypedInputId<i64>) -> i64 {
    let mut output = timeline.output(id);
    let mut transaction = timeline.begin();
    output.update(&mut transaction);
    transaction.commit();
    output.value()
}

fn revision(n: u64) -> Option<Revision> {
    Some(Revision::timestamp(n))
}

fn dependencies(timeline: &Engine, id: TypedInputId<i64>) -> Vec<ReactiveTag> {
    let tag = timeline.derived_tag(id);
    (0..tag.len()).map(|i| tag.dep(i)).collect()
}

#[test]
fn the_clock_starts_at_one_and_the_constant_is_zero() {
    assert_eq!(Revision::start(), Revision::timestamp(1));
    assert_eq!(Revision::start().value(), 1);
    assert_eq!(Revision::constant().value(), 0);
    assert!(Revision::constant() < Revision::start());
    assert_eq!(Revision::start().increment(), Revision::timestamp(2));
    assert_eq!(Revision::timestamp(41).increment().value(), 42);
    assert_eq!(Revision::timestamp(3).latest(Revision::timestamp(7)), Revision::timestamp(7));
    assert_eq!(Revision::timestamp(7).latest(Revision::timestamp(3)), Revision::timestamp(7));
    assert_eq!(Revision::constant().latest(Revision::constant()), Revision::constant());
}

#[test]
fn numbers_of_nodes_start_at_zero() {
    let first = InputId::first();
    assert_eq!(first.index(), 0);
    assert_eq!(first.next().index(), 1);
    assert_eq!(first.next().next().index(), 2);

    let mut timeline = Engine::new();
    let a = timeline.setup().cell(10);
    let b = timeline.setup().cell(20);
    let d = timeline.setup().derived(Computation(Box::new(|_| 0)));
    assert_eq!(a.as_unchecked_id().index(), 0);
    assert_eq!(b.as_unchecked_id().index(), 1);
    assert_eq!(d.as_unchecked_id().index(), 0);
    assert_eq!(a.kind(), IdKind::CellId);
    assert_eq!(d.kind(), IdKind::DerivedId);
    assert_eq!(a.next().as_unchecked_id().index(), 1);
}

#[test]
fn handles_keep_their_number_and_kind() {
    let id: TypedInputId<i64> = TypedInputId::new(InputId::first().next(), IdKind::DerivedId);
    assert_eq!(id.kind(), IdKind::DerivedId);
    assert_eq!(id.as_unchecked().0.index(), 1);
    assert_eq!(id.as_unchecked().1, IdKind::DerivedId);

    let typed = id.downcast(DerivedId::new());
    assert_eq!(typed.as_unchecked_id().index(), 1);
    assert_eq!(typed.kind(), IdKind::DerivedId);
    let back: TypedInputId<i64> = typed.into();
    assert_eq!(back.kind(), IdKind::DerivedId);
    assert_eq!(back.as_unchecked().0.index(), 1);

    assert!(id.try_downcast(DerivedId::new()).is_some());
    assert!(id.try_downcast(CellId::new()).is_none());
    assert!(id.try_downcast(FunctionId::new()).is_none());

    let typed: TypedInputIdWithKind<i64, FunctionId<i64>> =
        InputId::first().typed(FunctionId::new());
    assert_eq!(typed.kind(), IdKind::FunctionId);
    assert_eq!(typed.as_unchecked_id().index(), 0);
}

#[test]
fn a_handle_without_its_type_gives_the_type_back_only_where_it_fits() {
    let id: TypedInputId<i64> = TypedInputId::new(InputId::first().next().next(), IdKind::CellId);
    let erased = id.to_dyn();

    let same = erased.downcast::<i64>().expect("the type is the one the handle was made for");
    assert_eq!(same.kind(), IdKind::CellId);
    assert_eq!(same.as_unchecked().0.index(), 2);

    assert!(erased.downcast::<String>().is_none());
    assert!(erased.downcast::<u64>().is_none());
    assert!(DynId::new::<String>(InputId::first(), IdKind::CellId).downcast::<i64>().is_none());
    assert!(DynId::new::<String>(InputId::first(), IdKind::CellId).downcast::<String>().is_some());
}

#[test]
fn a_handle_made_with_an_identity_answers_to_that_identity() {
    let number = std::any::TypeId::of::<i64>();
    let string = std::any::TypeId::of::<String>();
    let id = DynId::with_key(InputId::first().next(), IdKind::DerivedId, number);

    let back: TypedInputId<i64> = id.downcast_as(number).expect("the identity it was made with");
    assert_eq!(back.kind(), IdKind::DerivedId);
    assert_eq!(back.as_unchecked().0.index(), 1);
    assert!(id.downcast_as::<i64>(string).is_none());
    assert!(id.downcast::<i64>().is_some());
    assert!(id.downcast::<String>().is_none());
    assert!(DynId::new::<i64>(InputId::first(), IdKind::CellId).downcast_as::<i64>(number).is_some());
}

#[test]
fn a_wrong_type_stops_one_read_and_leaves_the_timeline_usable() {
    let mut timeline = Engine::new();
    let a = timeline.setup().cell(7);
    let erased = a.to_dyn();
    let wrong = derived(&mut timeline, move |ctx| match erased.downcast::<String>() {
        Some(_) => 1,
        None => {
            let id = erased.downcast::<i64>().expect("a node of numbers");
            -ctx.value(id)
        }
    });

    assert!(erased.downcast::<String>().is_none());
    assert_eq!(render(&mut timeline, wrong), -7);
    assert_eq!(render(&mut timeline, a.into()), 7);
}

#[test]
fn a_cell_that_is_not_updated_keeps_the_revision_of_its_creation() {
    let mut timeline = Engine::new();
    assert_eq!(timeline.now(), Revision::start());

    let a = timeline.setup().cell(1);
    let b = timeline.setup().cell(2);
    assert_eq!(timeline.revision(a.into()), revision(1));
    assert_eq!(timeline.revision(b.into()), revision(1));

    timeline.update().update(b, 20);
    timeline.update().update(b, 21);
    let c = timeline.setup().cell(3);
    let sum = derived(&mut timeline, move |ctx| ctx.value(a.into()) + ctx.value(c.into()));
    assert_eq!(render(&mut timeline, sum), 4);

    assert_eq!(timeline.now(), Revision::timestamp(3));
    assert_eq!(timeline.revision(a.into()), revision(1));
    assert_eq!(timeline.revision(b.into()), revision(3));
    assert_eq!(timeline.revision(c.into()), revision(3));
}

#[test]
fn an_update_outruns_every_earlier_revision() {
    let mut timeline = Engine::new();
    let a = timeline.setup().cell(1);
    let b = timeline.setup().cell(2);
    let sum = derived(&mut timeline, move |ctx| ctx.value(a.into()) + ctx.value(b.into()));
    assert_eq!(render(&mut timeline, sum), 3);

    let mut seen = vec![
        timeline.revision(a.into()).unwrap(),
        timeline.revision(b.into()).unwrap(),
        timeline.revision(sum).unwrap(),
    ];

    let mut update = timeline.update();
    update.update(a, 5);
    update.update(b, 6);
    update.update(a, 7);
    update.commit();
    assert_eq!(timeline.revision(b.into()), revision(3));
    assert_eq!(timeline.revision(a.into()), revision(4));
    for earlier in seen.iter() {
        assert!(timeline.revision(a.into()).unwrap() > *earlier);
        assert!(timeline.revision(b.into()).unwrap() > *earlier);
    }

    assert_eq!(render(&mut timeline, sum), 13);
    seen.push(timeline.revision(a.into()).unwrap());
    seen.push(timeline.revision(b.into()).unwrap());
    seen.push(timeline.revision(sum).unwrap());

    timeline.update().update(b, 8);
    assert_eq!(timeline.revision(b.into()), revision(5));
    for earlier in seen.iter() {
        assert!(timeline.revision(b.into()).unwrap() > *earlier);
    }
    assert_eq!(render(&mut timeline, b.into()), 8);
}

#[test]
fn the_revision_of_a_derived_node_is_the_latest_of_what_it_read() {
    let mut timeline = Engine::new();
    let a = timeline.setup().cell(1);
    let b = timeline.setup().cell(2);
    let c = timeline.setup().cell(3);
    timeline.update().update(b, 20);
    timeline.update().update(c, 30);

    let first_two = derived(&mut timeline, move |ctx| ctx.value(a.into()) + ctx.value(b.into()));
    let only_first = derived(&mut timeline, move |ctx| ctx.value(a.into()));
    let nothing = derived(&mut timeline, |_| 99);

    assert_eq!(timeline.revision(first_two), None);
    assert_eq!(timeline.revision(only_first), None);
    assert_eq!(timeline.revision(nothing), None);

    assert_eq!(render(&mut timeline, first_two), 21);
    assert_eq!(render(&mut timeline, only_first), 1);
    assert_eq!(render(&mut timeline, nothing), 99);

    assert_eq!(timeline.revision(first_two), revision(2));
    assert_eq!(timeline.revision(only_first), revision(1));
    assert_eq!(timeline.revision(nothing), Some(Revision::constant()));
}

#[test]
fn a_derived_node_without_reads_is_constant_whatever_cells_do() {
    let mut timeline = Engine::new();
    let a = timeline.setup().cell(1);
    let nothing = derived(&mut timeline, |_| 99);
    let mut output = timeline.output(nothing);

    for round in 0..5 {
        let mut transaction = timeline.begin();
        output.update(&mut transaction);
        assert_eq!(output.value(), 99);
        assert_eq!(timeline.revision(nothing), Some(Revision::constant()));
        timeline.update().update(a, round);
    }
    assert_eq!(timeline.revision(a.into()), revision(6));
    assert_eq!(timeline.revision(nothing), Some(Revision::constant()));
}

#[test]
fn the_revision_of_a_derived_node_follows_the_cells_it_read() {
    let mut timeline = Engine::new();
    let a = timeline.setup().cell(1);
    let b = timeline.setup().cell(2);
    let sum = derived(&mut timeline, move |ctx| ctx.value(a.into()) + ctx.value(b.into()));

    assert_eq!(render(&mut timeline, sum), 3);
    assert_eq!(timeline.revision(sum), revision(1));

    // adding nodes and reading cells changes nothing for the node
    let c = timeline.setup().cell(3);
    let other = derived(&mut timeline, move |ctx| ctx.value(c.into()));
    assert_eq!(render(&mut timeline, a.into()), 1);
    assert_eq!(render(&mut timeline, other), 3);
    assert_eq!(timeline.output(sum).is_initialized(), false);
    assert_eq!(timeline.revision(sum), revision(1));

    // an update of a cell that the node did not read changes nothing for it
    timeline.update().update(c, 30);
    assert_eq!(timeline.revision(c.into()), revision(2));
    assert_eq!(timeline.revision(other), revision(2));
    assert_eq!(timeline.revision(sum), revision(1));

    // evaluating twice with no update between gives the same value and revision
    assert_eq!(render(&mut timeline, sum), 3);
    assert_eq!(render(&mut timeline, sum), 3);
    assert_eq!(timeline.revision(sum), revision(1));

    // an update of a cell that the node read is seen at once, before the
    // node is evaluated again
    timeline.update().update(b, 10);
    assert_eq!(timeline.revision(sum), revision(3));
    assert_eq!(render(&mut timeline, sum), 11);
    assert_eq!(timeline.revision(sum), revision(3));
}

#[test]
fn updates_reach_a_derived_node_without_a_render() {
    let mut timeline = Engine::new();
    let a = timeline.setup().cell(1);
    let b = timeline.setup().cell(2);
    let sum = derived(&mut timeline, move |ctx| ctx.value(a.into()) + ctx.value(b.into()));
    let twice = derived(&mut timeline, move |ctx| 2 * ctx.value(sum));
    assert_eq!(timeline.revision(sum), None);

    assert_eq!(render(&mut timeline, twice), 6);
    assert_eq!(timeline.revision(sum), revision(1));
    assert_eq!(timeline.revision(twice), revision(1));

    timeline.update().update(a, 5);
    assert_eq!(timeline.revision(sum), revision(2));
    assert_eq!(timeline.revision(twice), revision(2));
    timeline.update().update(b, 10);
    assert_eq!(timeline.now(), Revision::timestamp(3));
    assert_eq!(timeline.revision(a.into()), revision(2));
    assert_eq!(timeline.revision(b.into()), revision(3));
    assert_eq!(timeline.revision(sum), revision(3));
    assert_eq!(timeline.revision(twice), revision(3));

    assert_eq!(render(&mut timeline, twice), 30);
    assert_eq!(timeline.revision(sum), revision(3));
    assert_eq!(timeline.revision(twice), revision(3));
}

#[test]
fn the_dependencies_of_a_derived_node_are_its_reads_in_order() {
    let mut timeline = Engine::new();
    let a = timeline.setup().cell(1);
    let b = timeline.setup().cell(2);
    timeline.update().update(b, 20);

    // reads `a` twice and `b` once
    let inner = derived(&mut timeline, move |ctx| {
        ctx.value(a.into()) + ctx.value(b.into()) + ctx.value(a.into())
    });
    // reads `inner` once, and nothing else
    let outer = derived(&mut timeline, move |ctx| ctx.value(inner) * 2);

    assert_eq!(render(&mut timeline, outer), 44);

    let tag = timeline.derived_tag(inner);
    assert!(tag.is_initialized());
    assert!(!tag.is_modifying());
    assert_eq!(tag.len(), 3);
    assert_eq!(
        dependencies(&timeline, inner),
        vec![
            ReactiveTag::Tag(a.as_unchecked_id()),
            ReactiveTag::Tag(b.as_unchecked_id()),
            ReactiveTag::Tag(a.as_unchecked_id()),
        ]
    );
    assert_eq!(timeline.revision(tag.dep(0).typed()), revision(1));
    assert_eq!(timeline.revision(tag.dep(1).typed()), revision(2));
    assert_eq!(timeline.revision(inner), revision(2));

    // one dependency for the one node that was read, not one for each cell
    // behind it
    assert_eq!(dependencies(&timeline, outer), vec![ReactiveTag::Derived(inner.as_unchecked().0)]);
    assert_eq!(timeline.revision(outer), revision(2));

    // the next evaluation starts from no dependencies
    assert_eq!(render(&mut timeline, inner), 22);
    assert_eq!(timeline.derived_tag(inner).len(), 3);
    assert_eq!(timeline.tag(a.into()), ReactiveTag::Tag(a.as_unchecked_id()));
    assert_eq!(timeline.tag(inner), ReactiveTag::Derived(inner.as_unchecked().0));
    assert_eq!(timeline.revision(a.into()), revision(1));
}

#[test]
fn outputs_mirror_their_cell_after_each_render() {
    let mut timeline = Engine::new();
    let c = timeline.setup().cell(1);
    let mut o1 = timeline.output(c.into());
    let mut o2 = timeline.output(c.into());
    assert!(!o1.is_initialized());
    assert_eq!(o1.primitive().kind(), IdKind::CellId);

    let mut transaction = timeline.begin();
    o1.update(&mut transaction);
    o2.update(&mut transaction);
    assert!(o1.is_initialized());
    assert_eq!(o1.value(), 1);
    assert_eq!(o2.value(), 1);

    // nothing but an update of a cell changes what the outputs mirror
    let d = derived(&mut timeline, move |ctx| ctx.value(c.into()) + 1);
    assert_eq!(render(&mut timeline, d), 2);
    assert_eq!(o1.value(), 1);

    timeline.update().update(c, 2);

    let mut transaction = timeline.begin();
    o1.update(&mut transaction);
    o2.update(&mut transaction);
    assert_eq!(o1.value(), 2);
    assert_eq!(o2.value(), 2);
}

#[test]
fn the_revision_of_a_cell_moves_with_updates_only() {
    let mut timeline = Engine::new();
    let c = timeline.setup().cell(1);
    let r0 = timeline.revision(c.into()).unwrap();

    let mut o1 = timeline.output(c.into());
    let mut o2 = timeline.output(c.into());
    assert_eq!(timeline.revision(c.into()), Some(r0));

    timeline.update().update(c, 2);
    let r1 = timeline.revision(c.into()).unwrap();
    assert!(r1 > r0);

    let mut transaction = timeline.begin();
    o1.update(&mut transaction);
    o2.update(&mut transaction);
    assert_eq!(timeline.revision(c.into()), Some(r1));
}

#[test]
fn an_update_changes_only_what_is_derived_from_it() {
    let mut timeline = Engine::new();
    let a = timeline.setup().cell(1);
    let b = timeline.setup().cell(2);
    let c = timeline.setup().cell(3);
    let d = timeline.setup().cell(4);

    let left = derived(&mut timeline, move |ctx| ctx.value(a.into()) * 10 + ctx.value(b.into()));
    let right = derived(&mut timeline, move |ctx| ctx.value(c.into()) * 10 + ctx.value(d.into()));
    let print_left = derived(&mut timeline, move |ctx| -ctx.value(left));
    let print_right = derived(&mut timeline, move |ctx| -ctx.value(right));

    assert_eq!(render(&mut timeline, print_left), -12);
    assert_eq!(render(&mut timeline, print_right), -34);

    timeline.update().update(d, 5);
    assert_eq!(timeline.revision(left), revision(1));
    assert_eq!(timeline.revision(print_left), revision(1));
    assert_eq!(timeline.revision(right), revision(2));
    assert_eq!(timeline.revision(print_right), revision(2));

    assert_eq!(render(&mut timeline, print_left), -12);
    assert_eq!(render(&mut timeline, print_right), -35);
    assert_eq!(timeline.revision(print_left), revision(1));
    assert_eq!(timeline.revision(print_right), revision(2));
}

#[test]
fn what_cannot_be_read_is_refused_without_a_change() {
    let mut timeline = Engine::new();

    // nothing is registered before the first node
    assert!(!timeline.inputs.is_registered());
    let missing: TypedInputId<i64> = TypedInputId::new(InputId::first(), IdKind::CellId);
    assert!(!timeline.has(missing));
    {
        let mut transaction = timeline.begin();
        assert!(!transaction.has(missing));
        assert!(!transaction.ctx.can_read(missing));
        assert_eq!(transaction.ctx.try_value(missing), None);
    }

    let a = timeline.setup().cell(5);
    assert!(timeline.inputs.is_registered());
    assert!(timeline.has(a.into()));

    let beyond: TypedInputId<i64> = a.next().into();
    let list: TypedInputId<i64> = TypedInputId::new(InputId::first(), IdKind::ListId);
    let no_derived: TypedInputId<i64> = TypedInputId::new(InputId::first(), IdKind::DerivedId);
    let no_function: TypedInputId<i64> = TypedInputId::new(InputId::first(), IdKind::FunctionId);
    assert!(!timeline.has(beyond));
    assert!(!timeline.has(list));
    assert!(!timeline.has(no_derived));
    assert!(!timeline.has(no_function));

    let mut transaction = timeline.begin();
    assert_eq!(transaction.ctx.try_value(beyond), None);
    assert_eq!(transaction.ctx.try_value(list), None);
    assert_eq!(transaction.ctx.try_value(no_derived), None);
    assert_eq!(transaction.ctx.try_value(no_function), None);
    assert_eq!(transaction.ctx.try_value(a.into()), Some(5));
    assert_eq!(transaction.ctx.stack.depth(), 0);
    transaction.commit();
    assert_eq!(timeline.revision(a.into()), revision(1));
}

#[test]
fn a_node_cannot_be_read_while_it_is_evaluated() {
    let mut timeline = Engine::new();
    let a = timeline.setup().cell(5);

    // the body asks whether its own node can be read, and reads it if so
    let own: TypedInputId<i64> = TypedInputId::new(InputId::first(), IdKind::DerivedId);
    let cyclic = derived(&mut timeline, move |ctx| {
        assert_eq!(ctx.stack.depth(), 1);
        match ctx.try_value(own) {
            Some(value) => value,
            None => ctx.value(a.into()) + 100,
        }
    });
    assert_eq!(cyclic.as_unchecked().0.index(), 0);

    assert_eq!(render(&mut timeline, cyclic), 105);
    // the refused read left no dependency
    assert_eq!(dependencies(&timeline, cyclic), vec![ReactiveTag::Tag(a.as_unchecked_id())]);
    assert_eq!(render(&mut timeline, cyclic), 105);
}

#[test]
fn every_cell_is_found_under_its_own_number() {
    let mut timeline = Engine::new();
    let mut cells: Vec<Cell> = Vec::new();
    for n in 0..40 {
        cells.push(timeline.setup().cell(n * n));
        if n % 3 == 0 {
            timeline.update().update(cells[0], -1);
        }
    }
    for (n, cell) in cells.iter().enumerate() {
        assert_eq!(cell.as_unchecked_id().index(), n as u64);
        if n > 0 {
            assert_eq!(render(&mut timeline, (*cell).into()), (n * n) as i64);
            // the clock had advanced once for each multiple of three before
            assert_eq!(timeline.revision((*cell).into()), revision(1 + (n as u64 + 2) / 3));
        }
    }
    timeline.update().update(cells[17], 1000);
    assert_eq!(render(&mut timeline, cells[17].into()), 1000);
    assert_eq!(render(&mut timeline, cells[16].into()), 256);
    assert_eq!(render(&mut timeline, cells[18].into()), 324);
    let beyond: TypedInputId<i64> = cells[39].next().into();
    assert!(!timeline.has(beyond));
}

#[derive(Debug, Clone, PartialEq)]
struct Item {
    id: u8,
    name: &'static str,
}

impl GetReactiveKey for Item {
    fn get_reactive_key(&self) -> Key {
        Key::pair(self.name.to_string(), self.id as u128)
    }
}

fn string(text: &str) -> String {
    text.to_string()
}

#[test]
fn keys_hold_a_string_a_number_or_both() {
    assert_eq!(Key::string(string("niko")), Key::string(String::from("niko")));
    assert_ne!(Key::string(string("niko")), Key::string(string("andres")));
    assert_ne!(Key::string(string("niko")), Key::string(String::new()));
    assert_eq!(Key::number(7), Key::number(7u128));
    assert_ne!(Key::number(7), Key::number(8));
    assert_ne!(Key::string(string("7")), Key::number(7));
    assert_eq!(Key::pair(string("niko"), 7), Key::pair(String::from("niko"), 7));
    assert_ne!(Key::pair(string("niko"), 7), Key::pair(string("niko"), 8));
    assert_ne!(Key::pair(string("niko"), 7), Key::pair(string("nico"), 7));
    assert_ne!(Key::pair(string("niko"), 7), Key::string(string("niko")));
    assert_ne!(Key::pair(string("niko"), 7), Key::number(7));
    assert_eq!(Key::pair(string("niko"), 7).clone(), Key::pair(string("niko"), 7));
    assert_eq!(Key::number(u128::MAX), Key::number(u128::MAX));
    assert_ne!(Key::number(u128::MAX), Key::number(0));

    let item = Item { id: 3, name: "santiago" };
    assert_eq!(item.get_reactive_key(), Key::pair(string("santiago"), 3));
}

#[test]
fn handles_of_one_kind_are_equal_when_their_numbers_are() {
    let mut timeline = Engine::new();
    let a = timeline.setup().cell(1);
    let b = timeline.setup().cell(1);
    assert!(a == a);
    assert!(a != b);
    assert!(a.next() == b);

    let erased: TypedInputId<i64> = a.into();
    let again: TypedInputId<i64> = TypedInputId::new(InputId::first(), IdKind::CellId);
    assert_eq!(erased, again);
    assert_ne!(erased, TypedInputId::new(InputId::first(), IdKind::DerivedId));
    assert_ne!(erased, TypedInputId::new(InputId::first().next(), IdKind::CellId));
    assert_eq!(InputId::first().next(), InputId::first().next());
    assert_ne!(InputId::first(), InputId::first().next());
}

#[test]
fn a_vector_of_keyed_items_copies_into_a_list() {
    let items = vec![Item { id: 1, name: "a" }, Item { id: 2, name: "b" }, Item { id: 3, name: "c" }];
    assert_eq!(items.copy_into_reactive_list().len(), 3);
    assert_eq!(items.len(), 3);

    let none: Vec<Item> = Vec::new();
    assert_eq!(none.copy_into_reactive_list().len(), 0);
}

#[test]
fn a_node_is_read_by_the_rule_of_its_kind() {
    let mut timeline = Engine::new();
    let a = timeline.setup().cell(3);
    let double = timeline.setup().derived(Computation(Box::new(move |ctx| 2 * a.value(ctx))));
    let either = derived(&mut timeline, move |ctx| {
        ReactiveInput::Cell(a).value(ctx) + ReactiveInput::Derived(double).value(ctx)
    });

    fn negate(ctx: &mut Context<'_>, arg: DynId) -> i64 {
        let id = arg.downcast::<i64>().expect("a node of numbers");
        -id.value(ctx)
    }
    let negate: ReactiveFunction<i64, i64, Function> =
        ReactiveFunction::new(DynamicFunction::from_macro::<i64>(Function(negate)));
    let negated = timeline.setup().function(&negate, either);
    assert_eq!(negated.kind(), IdKind::FunctionId);

    assert_eq!(render(&mut timeline, a.into()), 3);
    assert_eq!(render(&mut timeline, double.into()), 6);
    assert_eq!(render(&mut timeline, either), 9);
    assert_eq!(render(&mut timeline, negated.into()), -9);

    timeline.update().update(a, 10);
    assert_eq!(render(&mut timeline, negated.into()), -30);
    assert_eq!(timeline.revision(negated.into()), revision(2));
    assert_eq!(timeline.revision(double.into()), revision(2));

    // the instance read one node, which read two, one of which read one
    let double: TypedInputId<i64> = double.into();
    assert_eq!(
        dependencies(&timeline, negated.into()),
        vec![ReactiveTag::Derived(either.as_unchecked().0)]
    );
    assert_eq!(
        dependencies(&timeline, either),
        vec![ReactiveTag::Tag(a.as_unchecked_id()), ReactiveTag::Derived(double.as_unchecked().0)]
    );
    assert_eq!(dependencies(&timeline, double), vec![ReactiveTag::Tag(a.as_unchecked_id())]);
    assert_eq!(timeline.tag(negated.into()), ReactiveTag::Function(negated.as_unchecked_id()));

    // an update reaches the instance through both nodes
    timeline.update().update(a, 11);
    assert_eq!(timeline.revision(double), revision(3));
    assert_eq!(timeline.revision(either), revision(3));
    assert_eq!(timeline.revision(negated.into()), revision(3));
}

#[test]
fn the_registry_answers_for_its_nodes() {
    let mut timeline = Engine::new();
    let a = timeline.setup().cell(3);
    let b = timeline.setup().cell(4);
    let sum = timeline.setup().derived(Computation(Box::new(move |ctx| a.value(ctx) + b.value(ctx))));
    timeline.update().update(b, 5);

    let inputs = &timeline.inputs;
    assert!(inputs.is_registered());
    assert!(inputs.has(a.into()));
    assert!(inputs.is_readable(sum.into()));
    assert_eq!(inputs.revision(a.into()), revision(1));
    assert_eq!(inputs.revision(b.into()), revision(2));
    assert_eq!(inputs.revision(sum.into()), None);
    assert_eq!(a.revision(inputs), revision(1));
    assert_eq!(b.revision(inputs), revision(2));
    assert_eq!(sum.revision(inputs), None);
    let erased: TypedInputId<i64> = b.into();
    assert_eq!(erased.revision(inputs), revision(2));

    assert_eq!(inputs.read_cell(b), 5);
    assert_eq!(inputs.tag(a.into()), ReactiveTag::Tag(a.as_unchecked_id()));
    assert_eq!(inputs.tag(sum.into()), ReactiveTag::Derived(sum.as_unchecked_id()));
    assert_eq!(inputs.derived_tag(sum.into()).len(), 0);

    let registry = inputs.read_map_for();
    assert!(registry.has(b.into()));
    assert!(!registry.has(b.next().into()));
    assert!(registry.is_readable(a.into()));
    assert_eq!(registry.revision(b.into()), revision(2));
    assert_eq!(registry.read_cell(a), 3);
    assert_eq!(inputs.map_for().revision(a.into()), Some(Revision::start()));
    assert_eq!(registry.tag(b.into()), ReactiveTag::Tag(b.as_unchecked_id()));
    assert_eq!(registry.measure(ReactiveTag::Tag(b.as_unchecked_id()), 0), Revision::timestamp(2));
    assert_eq!(registry.measure(ReactiveTag::Tag(b.next().as_unchecked_id()), 0), Revision::constant());

    assert_eq!(render(&mut timeline, sum.into()), 8);
    assert_eq!(sum.revision(&timeline.inputs), revision(2));
    let registry = timeline.inputs.read_map_for();
    let tag = registry.derived_tag(sum.into());
    assert_eq!(registry.latest(tag, 0), Revision::timestamp(2));
    assert_eq!(registry.latest(tag, u128::MAX), Revision::timestamp(2));
    // without fuel a computed node is not measured through
    assert_eq!(registry.measure(ReactiveTag::Derived(sum.as_unchecked_id()), 0), Revision::constant());
    assert_eq!(registry.measure(ReactiveTag::Derived(sum.as_unchecked_id()), 1), Revision::timestamp(2));
}

#[test]
fn a_read_goes_by_kind_and_number_not_by_number_alone() {
    let mut timeline = Engine::new();
    let c = timeline.setup().cell(10);
    let d = timeline.setup().derived(Computation(Box::new(|_| 99)));
    assert_eq!(c.as_unchecked_id().index(), 0);
    assert_eq!(d.as_unchecked_id().index(), 0);

    let mut oc = timeline.output(c.into());
    let mut od = timeline.output(d.into());
    let mut transaction = timeline.begin();
    oc.update(&mut transaction);
    od.update(&mut transaction);
    assert_eq!(oc.value(), 10);
    assert_eq!(od.value(), 99);
}

#[test]
fn an_update_of_an_output_replaces_what_it_held() {
    let mut timeline = Engine::new();
    let a = timeline.setup().cell(1);
    let b = timeline.setup().cell(2);
    let sum = derived(&mut timeline, move |ctx| ctx.value(a.into()) + ctx.value(b.into()));
    let mut output = timeline.output(sum);

    let mut transaction = timeline.begin();
    output.update(&mut transaction);
    assert_eq!(output.value(), 3);

    // a second render without an update gives the same value
    let mut transaction = timeline.begin();
    output.update(&mut transaction);
    assert_eq!(output.value(), 3);

    timeline.update().update(a, 5);
    assert_eq!(output.value(), 3);
    let mut transaction = timeline.begin();
    output.update(&mut transaction);
    assert_eq!(output.value(), 7);

    timeline.update().update(b, 10);
    let mut transaction = timeline.begin();
    output.update(&mut transaction);
    assert_eq!(output.value(), 15);
}

#[test]
fn a_revision_is_measured_through_every_node_in_between() {
    let mut timeline = Engine::new();
    let a = timeline.setup().cell(1);
    let b = timeline.setup().cell(2);
    let first = derived(&mut timeline, move |ctx| ctx.value(a.into()) + 1);
    let second = derived(&mut timeline, move |ctx| ctx.value(first) + 1);
    assert_eq!(render(&mut timeline, second), 3);

    // nodes that are added later, and that a node in between comes to read
    let third = derived(&mut timeline, move |ctx| ctx.value(b.into()) + 1);
    let fourth = derived(&mut timeline, move |ctx| ctx.value(third) + 1);
    let switch = timeline.setup().cell(0);
    let chain = derived(&mut timeline, move |ctx| {
        if ctx.value(switch.into()) == 0 {
            ctx.value(second)
        } else {
            ctx.value(second) + ctx.value(fourth)
        }
    });
    let top = derived(&mut timeline, move |ctx| ctx.value(chain));
    assert_eq!(render(&mut timeline, top), 3);
    assert_eq!(timeline.revision(top), revision(1));

    timeline.update().update(switch, 1);
    assert_eq!(timeline.revision(top), revision(2));
    // `chain` is evaluated again, `top` is not
    assert_eq!(render(&mut timeline, chain), 7);
    timeline.update().update(b, 5);
    assert_eq!(timeline.revision(third), revision(3));
    assert_eq!(timeline.revision(fourth), revision(3));
    assert_eq!(timeline.revision(chain), revision(3));
    assert_eq!(timeline.revision(top), revision(3));
    assert_eq!(timeline.revision(second), revision(1));

    let registry = timeline.inputs.read_map_for();
    let tag = registry.derived_tag(top);
    assert_eq!(registry.latest(tag, 0), Revision::constant());
    assert_eq!(registry.latest(tag, 1), Revision::timestamp(2));
    assert_eq!(registry.latest(tag, 2), Revision::timestamp(2));
    assert_eq!(registry.latest(tag, 3), Revision::timestamp(3));
}

#[test]
fn a_function_made_with_an_identity_runs_like_one_made_for_the_type() {
    fn negate(ctx: &mut Context<'_>, arg: DynId) -> i64 {
        let id = arg.downcast::<i64>().expect("a node of numbers");
        -id.value(ctx)
    }
    let keyed: ReactiveFunction<i64, i64, Function> = ReactiveFunction::new(
        DynamicFunction::with_key(Function(negate), std::any::TypeId::of::<i64>()),
    );
    let typed: ReactiveFunction<i64, i64, Function> =
        ReactiveFunction::new(DynamicFunction::from_macro::<i64>(Function(negate)));

    let mut timeline = Engine::new();
    let a = timeline.setup().cell(4);
    let first = timeline.setup().function(&keyed, a.into());
    let second = timeline.setup().function(&typed, a.into());
    assert_eq!(render(&mut timeline, first.into()), -4);
    assert_eq!(render(&mut timeline, second.into()), -4);
    assert_eq!(timeline.revision(first.into()), revision(1));
    timeline.update().update(a, 6);
    assert_eq!(timeline.revision(first.into()), revision(2));
    assert_eq!(timeline.revision(second.into()), revision(2));
    assert_eq!(render(&mut timeline, first.into()), -6);
}
