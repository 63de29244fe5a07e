use flatlite::entity_import::{
    entity_row, import_document, import_node, EntityDefinition, EntityId, EntityRow, ImportStep,
    ParseFailure, State,
};
use flatlite::kdl_doc::{DocEntry, DocNode, EntryName};

fn positional(value: &str) -> DocEntry {
    DocEntry { name: None, value: value.to_string() }
}

fn named(name: &str, value: &str) -> DocEntry {
    DocEntry {
        name: Some(EntryName { value: name.to_string(), text: name.to_string() }),
        value: value.to_string(),
    }
}

fn node(name: &str, entries: Vec<DocEntry>, children: Vec<DocNode>) -> DocNode {
    DocNode { name: name.to_string(), name_repr: Some(name.to_string()), entries, children, text: name.to_string() }
}

fn inserted(step: &ImportStep) -> &EntityRow {
    match step {
        ImportStep::Insert(row) => row,
        ImportStep::Skip(name) => panic!("unexpected skip of {}", name),
    }
}

#[test]
fn entity_id_parse() {
    match EntityId::parse("task.t1 rest") {
        Ok((rest, id)) => {
            assert_eq!(rest, " rest");
            assert_eq!(id.entity_type, "task");
            assert_eq!(id.entity_id, "t1");
        }
        Err(_) => panic!("must parse"),
    }
    assert_eq!(EntityId::parse("task.").err(), Some(ParseFailure));
    assert_eq!(EntityId::parse(".t1").err(), Some(ParseFailure));
    assert_eq!(EntityId::parse("task-t1").err(), Some(ParseFailure));
}

#[test]
fn entity_definition_parse() {
    match EntityDefinition::parse(".task.t1") {
        Ok(("", EntityDefinition::WithId(id))) => {
            assert_eq!(id.entity_type, "task");
            assert_eq!(id.entity_id, "t1");
        }
        _ => panic!("expected a definition with an id"),
    }
    match EntityDefinition::parse(".task") {
        Ok(("", d)) => {
            assert!(matches!(d, EntityDefinition::AutoId(ref t) if t == "task"));
            assert_eq!(d.entity_type(), "task");
        }
        _ => panic!("expected a definition without id"),
    }
    // with the id part not alphanumeric, the type alone is read
    match EntityDefinition::parse(".task.-x") {
        Ok((rest, d)) => {
            assert_eq!(rest, ".-x");
            assert_eq!(d.entity_type(), "task");
        }
        _ => panic!("expected a definition without id"),
    }
    assert!(EntityDefinition::parse("task").is_err());
    assert!(EntityDefinition::parse(".").is_err());
    assert!(matches!(EntityDefinition::parse_auto_id("abc.d"), Ok((".d", EntityDefinition::AutoId(_)))));
    assert!(EntityDefinition::parse_with_id("abc").is_err());
}

#[test]
fn entity_row_with_an_id_and_a_parent() {
    let n = node(".task.t1", vec![positional("Do"), named("prio", "1"), positional("it")], Vec::new());
    let parent = EntityId { entity_type: "status".to_string(), entity_id: "open".to_string() };
    let mut state = State(0);
    let row = match entity_row(&mut state, Some(&parent), &n) {
        Some(r) => r,
        None => panic!("a record"),
    };
    assert_eq!(state.0, 0);
    assert_eq!(row.id.entity_type, "task");
    assert_eq!(row.id.entity_id, "t1");
    assert_eq!(row.columns, vec!["id", "status_id", "prio", "title"]);
    assert_eq!(row.values, vec!["t1", "open", "1", "Do it"]);
    assert_eq!(row.query, "INSERT INTO task (id,status_id,prio,title) VALUES (?,?,?,?)");
}

#[test]
fn entity_rows_without_id_are_numbered() {
    let mut state = State(4);
    let first = match entity_row(&mut state, None, &node(".recipe", vec![positional("pancakes")], Vec::new())) {
        Some(r) => r,
        None => panic!("a record"),
    };
    assert_eq!(first.id.entity_id, "auto-4");
    assert_eq!(first.columns, vec!["id", "title"]);
    assert_eq!(first.values, vec!["auto-4", "pancakes"]);
    let second = match entity_row(&mut state, None, &node(".recipe", Vec::new(), Vec::new())) {
        Some(r) => r,
        None => panic!("a record"),
    };
    assert_eq!(second.id.entity_id, "auto-5");
    // no positional value: no title column
    assert_eq!(second.columns, vec!["id"]);
    assert_eq!(second.query, "INSERT INTO recipe (id) VALUES (?)");
    assert_eq!(state.0, 6);
}

#[test]
fn nodes_that_define_nothing_give_no_row() {
    let mut state = State(1);
    assert!(entity_row(&mut state, None, &node("plain", vec![positional("x")], Vec::new())).is_none());
    assert_eq!(state.0, 1);
}

#[test]
fn import_node_visits_children_under_their_parent() {
    let tree = node(
        ".recipe.r1",
        vec![positional("Pancakes")],
        vec![
            node(".ingredient", vec![positional("flour"), named("amount", "200")], Vec::new()),
            node("note", vec![positional("skipped")], vec![node(".ingredient", Vec::new(), Vec::new())]),
            node(".ingredient.egg", Vec::new(), Vec::new()),
        ],
    );
    let mut state = State(0);
    let steps = match import_node(&mut state, None, &tree) {
        Some(s) => s,
        None => panic!("the counter does not overflow"),
    };
    assert_eq!(steps.len(), 4);
    assert_eq!(inserted(&steps[0]).values, vec!["r1", "Pancakes"]);
    let flour = inserted(&steps[1]);
    assert_eq!(flour.columns, vec!["id", "recipe_id", "amount", "title"]);
    assert_eq!(flour.values, vec!["auto-0", "r1", "200", "flour"]);
    // a node that defines nothing is skipped with its children
    assert!(matches!(&steps[2], ImportStep::Skip(name) if name == "note"));
    assert_eq!(inserted(&steps[3]).values, vec!["egg", "r1"]);
    assert_eq!(state.0, 1);
}

#[test]
fn import_node_stops_before_the_counter_overflows() {
    let mut state = State(i32::MAX);
    assert!(import_node(&mut state, None, &node(".a", Vec::new(), Vec::new())).is_none());
    let mut state = State(i32::MAX);
    // records with an id do not use the counter
    assert!(import_node(&mut state, None, &node(".a.x", Vec::new(), Vec::new())).is_some());
}

#[test]
fn import_document_reads_kdl() {
    let text = ".recipe.r1 Pancakes {\n    .ingredient flour amount=200\n}\n.status open \"Open now\"\n";
    let mut state = State(0);
    let steps = match import_document(&mut state, text) {
        Ok(Some(s)) => s,
        _ => panic!("the document must import"),
    };
    assert_eq!(steps.len(), 3);
    assert_eq!(inserted(&steps[0]).query, "INSERT INTO recipe (id,title) VALUES (?,?)");
    assert_eq!(inserted(&steps[1]).values, vec!["auto-0", "r1", "200", "flour"]);
    // a value that is not a plain identifier keeps its KDL quotes
    assert_eq!(inserted(&steps[2]).values, vec!["auto-1", "open \"Open now\""]);
    assert_eq!(state.0, 2);
    assert!(import_document(&mut state, "a {").is_err());
    assert_eq!(state.0, 2);
}

#[test]
fn node_accessors() {
    let n = node("table", vec![named("file", "a.csv"), positional("todo"), named("file", "b.csv")], Vec::new());
    assert!(n.is_written_as("table"));
    assert!(!n.is_written_as("\"table\""));
    assert_eq!(n.first_argument().map(|s| s.as_str()), Some("todo"));
    // the last property of a name wins
    assert_eq!(n.property("file").map(|s| s.as_str()), Some("b.csv"));
    assert!(n.property("missing").is_none());
}
