use everafter::inputs::{DynamicCode, DynamicComputation, DynamicFunction, ReactiveFunction};
use everafter::outputs::PrimitiveOutput;
use everafter::timeline::{
    CellId, DerivedId, DynId, EvaluationContext, IdKindFor, RenderTransaction, Timeline,
    TypedInputIdWithKind,
};
use everafter::{GetReactiveKey, Key, Revision, TypedInputId};

type Context<'a> = EvaluationContext<'a, Value, Computation, Function>;

struct Computation(Box<dyn Fn(&mut Context<'_>) -> Value>);

impl DynamicComputation<Value, Function> for Computation {
    fn compute(&self, ctx: &mut Context<'_>) -> Value {
        (self.0)(ctx)
    }
}

#[derive(Clone)]
struct Function(fn(&mut Context<'_>, DynId) -> Value);

impl DynamicCode<Value, Computation> for Function {
    fn call(&self, ctx: &mut Context<'_>, arg: DynId) -> Value {
        (self.0)(ctx, arg)
    }
}

#[derive(Debug, Clone, Eq, PartialEq)]
enum Location {
    UnitedStates,
    Uruguay,
    Ecuador,
    Greece,
}

#[derive(Debug, Clone, Eq, PartialEq)]
struct Person {
    id: u128,
    name: String,
    location: Location,
}

impl Person {
    fn new(name: impl Into<String>, location: Location) -> Person {
        let name = name.into();
        Person { id: name.len() as u128, name, location }
    }
}

impl GetReactiveKey for Person {
    fn get_reactive_key(&self) -> Key {
        Key::number(self.id)
    }
}

/// The values of these timelines: people go in, lists of people and text
/// come out.
#[derive(Debug, Clone, Eq, PartialEq)]
enum Value {
    Person(Person),
    People(Vec<Person>),
    Text(String),
}

impl Value {
    fn person(self) -> Person {
        match self {
            Value::Person(person) => person,
            other => panic!("expected a person, found {:?}", other),
        }
    }

    fn people(self) -> Vec<Person> {
        match self {
            Value::People(people) => people,
            other => panic!("expected people, found {:?}", other),
        }
    }
}

impl From<&str> for Value {
    fn from(text: &str) -> Value {
        Value::Text(text.to_string())
    }
}

fn person(name: &str, location: Location) -> Value {
    Value::Person(Person::new(name, location))
}

/// Reads the node behind `arg`, which must be a node of this timeline.
fn read(ctx: &mut Context<'_>, arg: DynId) -> Value {
    let id = arg.downcast::<Value>().expect("the argument is no node of values");
    ctx.value(id)
}

struct Test {
    timeline: Timeline<Value, Computation, Function>,
}

impl Test {
    fn new() -> Test {
        Test { timeline: Timeline::new() }
    }

    fn begin(&mut self) -> RenderTransaction<'_, Value, Computation, Function> {
        self.timeline.begin()
    }

    fn cell(&mut self, desc: &'static str, value: Value) -> TestReactive<CellId<Value>> {
        let mut timeline = self.timeline.setup();
        let cell = timeline.cell(value);
        let revision = self
            .timeline
            .revision(cell.into())
            .expect("cell unexpectedly initialized with a None revision");

        TestReactive { desc, handle: cell, last_revision: Some(revision) }
    }

    fn derived(&mut self, desc: &'static str, computation: Computation) -> TestReactive<DerivedId<Value>> {
        let mut timeline = self.timeline.setup();
        let derived = timeline.derived(computation);

        TestReactive { desc, handle: derived, last_revision: None }
    }
}

#[allow(dead_code)]
struct TestReactive<K> {
    desc: &'static str,
    handle: TypedInputIdWithKind<Value, K>,
    last_revision: Option<Revision>,
}

impl<K: IdKindFor<Value>> TestReactive<K> {
    fn dyn_id(&self) -> DynId {
        self.handle.to_dyn()
    }

    fn output(&self, desc: &'static str, test: &Test) -> TestPrimitiveOutput {
        TestPrimitiveOutput { desc, output: test.timeline.output(self.handle.into()) }
    }
}

impl TestReactive<CellId<Value>> {
    fn update(&mut self, test: &mut Test, value: Value) {
        test.timeline.update().update(self.handle, value);
    }
}

struct TestPrimitiveOutput {
    desc: &'static str,
    output: PrimitiveOutput<Value>,
}

impl TestPrimitiveOutput {
    fn expect(&self, expected: impl Into<Value>, reason: &'static str) {
        let actual = self.output.value().clone();

        assert_eq!(actual, expected.into(), "{}: {}", self.desc, reason)
    }

    fn update(&mut self, test: &mut RenderTransaction<'_, Value, Computation, Function>) {
        self.output.update(test);
    }
}

#[test]
fn primitive_function_one_arg() {
    let mut timeline: Timeline<Value, Computation, Function> = Timeline::new();

    fn code(ctx: &mut Context<'_>, arg: DynId) -> Value {
        let person = read(ctx, arg).person();
        Value::Text(format!("{} in {:?}", person.name, person.location))
    }

    let print_person: ReactiveFunction<Value, Value, Function> =
        ReactiveFunction::new(DynamicFunction::from_macro::<Value>(Function(code)));

    // initialize inputs
    let mut transaction = timeline.setup();
    let p1 = transaction.cell(person("Niko Matsakis", Location::UnitedStates));
    let printed_p1 = transaction.function(&print_person, p1.into());
    let p2 = transaction.cell(person("Andres Robalino", Location::Ecuador));
    let printed_p2 = transaction.function(&print_person, p2.into());
    let p3 = transaction.cell(person("Santiago Pastorino", Location::Uruguay));
    let printed_p3 = transaction.function(&print_person, p3.into());

    // initialize outputs
    let mut output1 = timeline.output(printed_p1.into());
    let mut output2 = timeline.output(printed_p2.into());
    let mut output3 = timeline.output(printed_p3.into());

    // archive
    let mut transaction = timeline.begin();
    output1.update(&mut transaction);
    output2.update(&mut transaction);
    output3.update(&mut transaction);

    assert_eq!(output1.value(), "Niko Matsakis in UnitedStates".into());
    assert_eq!(output2.value(), "Andres Robalino in Ecuador".into());
    assert_eq!(output3.value(), "Santiago Pastorino in Uruguay".into());

    // edit
    timeline
        .update()
        .update(p1, person("Niko Matsakis", Location::Greece));

    // archive
    let mut transaction = timeline.begin();
    output1.update(&mut transaction);
    output2.update(&mut transaction);
    output3.update(&mut transaction);

    assert_eq!(output1.value(), "Niko Matsakis in Greece".into());
    assert_eq!(output2.value(), "Andres Robalino in Ecuador".into());
    assert_eq!(output3.value(), "Santiago Pastorino in Uruguay".into());
}

#[test]
fn primitive_function_n_args() {
    let mut test = Test::new();

    fn print_people(person1: DynId, person2: DynId) -> Computation {
        Computation(Box::new(move |ctx: &mut Context<'_>| {
            let person1 = read(ctx, person1).person();
            let person2 = read(ctx, person2).person();
            Value::Text(format!("{} and {}", person1.name, person2.name))
        }))
    }

    // initialize inputs
    let mut p1 = test.cell("niko", person("Niko Matsakis", Location::UnitedStates));
    let p2 = test.cell("andres", person("Andres Robalino", Location::Ecuador));
    let p3 = test.cell("santiago", person("Santiago Pastorino", Location::Uruguay));
    let mut p4 = test.cell("yehuda", person("Yehuda Katz", Location::UnitedStates));

    let printed_rust_peeps = test.derived("rust peeps", print_people(p1.dyn_id(), p3.dyn_id()));
    let printed_nu_peeps = test.derived("nu peeps", print_people(p2.dyn_id(), p4.dyn_id()));

    // initialize outputs
    let mut output1 = printed_rust_peeps.output("printed rust peeps", &test);
    let mut output2 = printed_nu_peeps.output("printed nu peeps", &test);

    // archive
    let mut transaction = test.begin();
    output1.update(&mut transaction);
    output2.update(&mut transaction);

    output1.expect("Niko Matsakis and Santiago Pastorino", "initialized");
    output2.expect("Andres Robalino and Yehuda Katz", "initialized");

    // edit
    p1.update(&mut test, person("Niko Matsakis", Location::Greece));
    p4.update(&mut test, person("Yehuda S. Katz", Location::UnitedStates));

    // archive
    let mut transaction = test.begin();
    output1.update(&mut transaction);
    output2.update(&mut transaction);

    output1.expect("Niko Matsakis and Santiago Pastorino", "after update");
    output2.expect("Andres Robalino and Yehuda S. Katz", "after update");
}

#[test]
fn test_function_calling_function() {
    let mut test = Test::new();

    fn people(person1: DynId, person2: DynId) -> Computation {
        Computation(Box::new(move |ctx: &mut Context<'_>| {
            let person1 = read(ctx, person1).person();
            let person2 = read(ctx, person2).person();
            Value::People(vec![person1, person2])
        }))
    }

    fn print_people(people: DynId) -> Computation {
        Computation(Box::new(move |ctx: &mut Context<'_>| {
            let people = read(ctx, people).people();
            let names: Vec<String> = people.iter().map(|p| p.name.clone()).collect();
            Value::Text(names.join(" and "))
        }))
    }

    // initialize inputs
    let mut p1 = test.cell("niko", person("Niko Matsakis", Location::UnitedStates));
    let p2 = test.cell("andres", person("Andres Robalino", Location::Ecuador));
    let p3 = test.cell("santiago", person("Santiago Pastorino", Location::Uruguay));
    let mut p4 = test.cell("yehuda", person("Yehuda Katz", Location::UnitedStates));

    let rust_peeps = test.derived("rust peeps", people(p1.dyn_id(), p3.dyn_id()));
    let nu_peeps = test.derived("nu peeps", people(p2.dyn_id(), p4.dyn_id()));

    let printed_rust_peeps = test.derived("printed rust peeps", print_people(rust_peeps.dyn_id()));
    let printed_nu_peeps = test.derived("printed nu peeps", print_people(nu_peeps.dyn_id()));

    // initialize outputs
    let mut output1 = printed_rust_peeps.output("printed rust peeps", &test);
    let mut output2 = printed_nu_peeps.output("printed nu peeps", &test);

    // archive
    let mut transaction = test.begin();
    output1.update(&mut transaction);
    output2.update(&mut transaction);

    output1.expect("Niko Matsakis and Santiago Pastorino", "initialized");
    output2.expect("Andres Robalino and Yehuda Katz", "initialized");

    // edit
    p1.update(&mut test, person("Niko Matsakis", Location::Greece));
    p4.update(&mut test, person("Yehuda S. Katz", Location::UnitedStates));

    // archive
    let mut transaction = test.begin();
    output1.update(&mut transaction);
    output2.update(&mut transaction);

    output1.expect("Niko Matsakis and Santiago Pastorino", "after update");
    output2.expect("Andres Robalino and Yehuda S. Katz", "after update");
}

#[test]
fn function_instances_change_only_with_their_argument() {
    let mut timeline: Timeline<Value, Computation, Function> = Timeline::new();

    fn code(ctx: &mut Context<'_>, arg: DynId) -> Value {
        let person = read(ctx, arg).person();
        Value::Text(format!("{} in {:?}", person.name, person.location))
    }

    let print: ReactiveFunction<Value, Value, Function> =
        ReactiveFunction::new(DynamicFunction::from_macro::<Value>(Function(code)));

    let mut setup = timeline.setup();
    let p1 = setup.cell(person("Niko Matsakis", Location::UnitedStates));
    let p2 = setup.cell(person("Andres Robalino", Location::Ecuador));
    let f1: TypedInputId<Value> = setup.function(&print, p1.into()).into();
    let f2: TypedInputId<Value> = setup.function(&print, p2.into()).into();

    // an instance has no revision before it is evaluated
    assert_eq!(timeline.revision(f1), None);
    assert_eq!(timeline.revision(f2), None);

    let mut output1 = timeline.output(f1);
    let mut output2 = timeline.output(f2);
    let mut render = timeline.begin();
    output1.update(&mut render);
    output2.update(&mut render);
    let before = output2.value();

    assert_eq!(timeline.revision(f1), Some(Revision::timestamp(1)));
    assert_eq!(timeline.revision(f2), Some(Revision::timestamp(1)));

    timeline.update().update(p1, person("Niko Matsakis", Location::Greece));

    // the update reaches the instance that read the cell, and no other
    assert_eq!(timeline.revision(f1), Some(Revision::timestamp(2)));
    assert_eq!(timeline.revision(f2), Some(Revision::timestamp(1)));

    let mut render = timeline.begin();
    output1.update(&mut render);
    output2.update(&mut render);

    assert_eq!(output1.value(), "Niko Matsakis in Greece".into());
    assert_eq!(output2.value(), before);
    assert_eq!(timeline.revision(f1), Some(Revision::timestamp(2)));
    assert_eq!(timeline.revision(f2), Some(Revision::timestamp(1)));
}
