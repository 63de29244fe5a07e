use flatlite::dbconfig::{Config, ConfigError};
use flatlite::kdl_doc::{DocEntry, DocNode, EntryName};
use flatlite::schema::{FieldId, FieldType, Schema, SchemaError, TableId};

const EXAMPLE: &str = r#"
schema {
    table "todo" file="todo.csv" {
        field "id"
        field "title"
        field "status" type="select" {
            option "open" label="Open"
            option "doing" label="In progress"
            option "done"
        }
        field "milestone_id" type="belongs_to" related_entity="milestone" related_key="id"
    }
    table "milestone" file="milestone.csv" {
        field "id"
        field "title" type="string"
    }
}
"#;

fn example_config() -> Config {
    match Config::parse_from_str(EXAMPLE, "config/db.kdl") {
        Ok(c) => c,
        Err(_) => panic!("the example configuration must parse"),
    }
}

#[test]
fn test_parse() {
    let config = example_config();
    assert_eq!(config.config_source, "config/db.kdl");
    assert_eq!(config.tables.len(), 2);
    assert_eq!(config.tables[0].id, TableId(0));
    assert_eq!(config.tables[0].name, "todo");
    assert_eq!(config.tables[0].source_file, "config/todo.csv");
    assert_eq!(config.tables[1].id, TableId(1));
    assert_eq!(config.tables[1].name, "milestone");
    assert_eq!(config.tables[1].source_file, "config/milestone.csv");

    let names: Vec<&str> = config.fields.iter().map(|f| f.name.as_str()).collect();
    assert_eq!(names, vec!["id", "title", "status", "milestone_id", "id", "title"]);
    for (i, f) in config.fields.iter().enumerate() {
        assert_eq!(f.id, FieldId(i));
    }
    assert_eq!(config.fields[0].table_id, TableId(0));
    assert_eq!(config.fields[4].table_id, TableId(1));

    let status = &config.fields[2];
    assert_eq!(status.field_type_name.as_deref(), Some("select"));
    assert_eq!(status.options.len(), 3);
    assert_eq!(status.options[0].key, "open");
    assert_eq!(status.options[0].label.as_deref(), Some("Open"));
    // A value that is not a plain identifier keeps the quotes KDL writes it with.
    assert_eq!(status.options[1].label.as_deref(), Some("\"In progress\""));
    assert_eq!(status.options[2].label, None);

    let related = &config.fields[3];
    assert_eq!(related.field_type_name.as_deref(), Some("belongs_to"));
    assert_eq!(related.related_entity.as_deref(), Some("milestone"));
    assert_eq!(related.related_key.as_deref(), Some("id"));
    assert_eq!(config.fields[0].field_type_name, None);
    assert_eq!(config.fields[5].field_type_name.as_deref(), Some("string"));
}

#[test]
fn test_schema_from_config() {
    let config = example_config();
    let schema = match Schema::try_from(&config) {
        Ok(s) => s,
        Err(e) => panic!("schema refused: {}", e.message()),
    };
    assert_eq!(schema.tables.len(), 2);
    assert_eq!(schema.fields.len(), 6);

    let todo = schema.table(TableId(0));
    assert_eq!(todo.name, "todo");
    assert_eq!(todo.fields, vec![FieldId(0), FieldId(1), FieldId(2), FieldId(3)]);
    assert_eq!(todo.id_field, Some(FieldId(0)));
    assert_eq!(todo.title_field, Some(FieldId(1)));
    assert_eq!(todo.source_file, "config/todo.csv");

    let milestone = schema.table(TableId(1));
    assert_eq!(milestone.fields, vec![FieldId(4), FieldId(5)]);
    assert_eq!(milestone.id_field, Some(FieldId(4)));
    assert_eq!(milestone.title_field, Some(FieldId(5)));

    assert!(matches!(schema.field(FieldId(0)).field_type, FieldType::StringField));
    assert!(matches!(schema.field(FieldId(5)).field_type, FieldType::StringField));
    match &schema.field(FieldId(2)).field_type {
        FieldType::SelectField { options } => {
            assert_eq!(options.len(), 3);
            assert_eq!(options[2].key, "done");
        }
        _ => panic!("status must be a select field"),
    }
    assert!(matches!(
        schema.field(FieldId(3)).field_type,
        FieldType::BelongsToField(TableId(1), FieldId(4))
    ));
}

#[test]
fn parse_rejects_text_that_is_not_kdl() {
    let r = Config::parse_from_str("schema { table \"x\" ", "db.kdl");
    assert!(matches!(r, Err(ConfigError::Syntax(_))));
}

#[test]
fn parse_reports_a_table_without_file() {
    let r = Config::parse_from_str("schema {\n table \"todo\"\n}\n", "db.kdl");
    match r {
        Err(ConfigError::MissingProperty(key, node)) => {
            assert_eq!(key, "file");
            assert_eq!(node.trim(), "table \"todo\"");
        }
        _ => panic!("expected a missing property"),
    }
}

#[test]
fn parse_reports_a_table_without_name() {
    let r = Config::parse_from_str("schema {\n table file=\"a.csv\"\n}\n", "db.kdl");
    match r {
        Err(ConfigError::MissingName(node)) => assert_eq!(node.trim(), "table file=\"a.csv\""),
        _ => panic!("expected a missing name"),
    }
}

#[test]
fn parse_reports_an_option_without_name() {
    let text = "schema {\n table \"t\" file=\"t.csv\" {\n field \"s\" type=\"select\" {\n option label=\"x\"\n }\n }\n}\n";
    match Config::parse_from_str(text, "db.kdl") {
        Err(ConfigError::MissingName(node)) => assert_eq!(node.trim(), "option label=\"x\""),
        _ => panic!("expected a missing name"),
    }
}

#[test]
fn parse_skips_unknown_nodes() {
    let text = "other {\n table \"x\" file=\"x.csv\"\n}\nschema {\n note \"n\"\n table \"t\" file=\"t.csv\" {\n comment \"c\"\n field \"a\"\n }\n}\n";
    let config = match Config::parse_from_str(text, "db.kdl") {
        Ok(c) => c,
        Err(_) => panic!("must parse"),
    };
    assert_eq!(config.tables.len(), 1);
    assert_eq!(config.tables[0].name, "t");
    assert_eq!(config.tables[0].source_file, "t.csv");
    assert_eq!(config.fields.len(), 1);
    assert_eq!(config.fields[0].name, "a");
}

#[test]
fn add_table_and_field_number_them_by_position() {
    let mut config = Config::default();
    let t = config.add_table("a".to_string(), "a.csv".to_string());
    let u = config.add_table("b".to_string(), "b.csv".to_string());
    assert_eq!(t, TableId(0));
    assert_eq!(u, TableId(1));
    let f = config.add_field(u, "x".to_string(), None, None, None, Vec::new());
    let g = config.add_field(t, "y".to_string(), Some("string".to_string()), None, None, Vec::new());
    assert_eq!(f, FieldId(0));
    assert_eq!(g, FieldId(1));
    assert_eq!(config.fields[0].table_id, TableId(1));
    assert_eq!(config.fields[1].field_type_name.as_deref(), Some("string"));
}

fn schema_error(text: &str) -> SchemaError {
    let config = match Config::parse_from_str(text, "db.kdl") {
        Ok(c) => c,
        Err(_) => panic!("must parse"),
    };
    match Schema::try_from(&config) {
        Ok(_) => panic!("expected an error"),
        Err(e) => e,
    }
}

#[test]
fn schema_rejects_an_unknown_type() {
    let e = schema_error("schema {\n table \"t\" file=\"t.csv\" {\n field \"a\" type=\"number\"\n }\n}\n");
    assert!(matches!(e, SchemaError::InvalidFieldType(ref s) if s == "number"));
    assert_eq!(e.message(), "Invalid field type number");
}

#[test]
fn schema_rejects_a_relation_without_entity() {
    let e = schema_error("schema {\n table \"t\" file=\"t.csv\" {\n field \"a\" type=\"belongs_to\" related_key=\"id\"\n }\n}\n");
    assert!(matches!(e, SchemaError::MissingRelatedEntity));
    assert_eq!(e.message(), "Missing related_entity field for belongs_to relation");
}

#[test]
fn schema_rejects_a_relation_without_key() {
    let e = schema_error("schema {\n table \"t\" file=\"t.csv\" {\n field \"a\" type=\"belongs_to\" related_entity=\"t\"\n }\n}\n");
    assert!(matches!(e, SchemaError::MissingRelatedKey));
    assert_eq!(e.message(), "Missing related_key field for belongs_to relation");
}

#[test]
fn schema_rejects_a_relation_to_a_missing_table() {
    let e = schema_error("schema {\n table \"t\" file=\"t.csv\" {\n field \"a\" type=\"belongs_to\" related_entity=\"u\" related_key=\"id\"\n }\n}\n");
    assert!(matches!(e, SchemaError::TableNotFound(ref s) if s == "u"));
    assert_eq!(e.message(), "Table u not found");
}

#[test]
fn schema_rejects_a_relation_to_a_missing_field() {
    let e = schema_error("schema {\n table \"t\" file=\"t.csv\" {\n field \"a\" type=\"belongs_to\" related_entity=\"t\" related_key=\"id\"\n }\n}\n");
    assert!(matches!(e, SchemaError::FieldNotFound(ref s) if s == "id"));
    assert_eq!(e.message(), "Field id not found");
}

#[test]
fn schema_reports_the_first_failing_field() {
    let e = schema_error("schema {\n table \"t\" file=\"t.csv\" {\n field \"a\" type=\"x\"\n field \"b\" type=\"belongs_to\"\n }\n}\n");
    assert!(matches!(e, SchemaError::InvalidFieldType(ref s) if s == "x"));
}

#[test]
fn schema_lookups() {
    let config = example_config();
    let schema = match Schema::try_from(&config) {
        Ok(s) => s,
        Err(_) => panic!("must build"),
    };
    assert_eq!(schema.table_by_name("milestone").map(|t| t.id), Some(TableId(1)));
    assert!(schema.table_by_name("nothing").is_none());
    assert_eq!(schema.field_by_name(TableId(1), "title").map(|f| f.id), Some(FieldId(5)));
    assert_eq!(schema.field_by_name(TableId(0), "title").map(|f| f.id), Some(FieldId(1)));
    assert!(schema.field_by_name(TableId(1), "status").is_none());
    let names: Vec<&str> = schema.fields_for_table(TableId(1)).iter().map(|f| f.name.as_str()).collect();
    assert_eq!(names, vec!["id", "title"]);
    assert_eq!(schema.field_query(&vec![FieldId(3), FieldId(0), FieldId(1)]), "milestone_id, id, title");
    assert_eq!(schema.field_query(&Vec::new()), "");
}

#[test]
fn config_from_nodes_reads_the_same_as_the_text() {
    let file = DocEntry {
        name: Some(EntryName { value: "file".to_string(), text: "file".to_string() }),
        value: "t.csv".to_string(),
    };
    let name = DocEntry { name: None, value: "t".to_string() };
    let field = node("field", vec![DocEntry { name: None, value: "a".to_string() }], Vec::new());
    let nodes = vec![node("schema", Vec::new(), vec![node("table", vec![name, file], vec![field])])];
    let config = match Config::from_nodes(&nodes, "dir/db.kdl") {
        Ok(c) => c,
        Err(_) => panic!("must read"),
    };
    assert_eq!(config.tables.len(), 1);
    assert_eq!(config.tables[0].name, "t");
    assert_eq!(config.tables[0].source_file, "dir/t.csv");
    assert_eq!(config.fields.len(), 1);
    assert_eq!(config.fields[0].name, "a");
}

fn node(name: &str, entries: Vec<DocEntry>, children: Vec<DocNode>) -> DocNode {
    DocNode { name: name.to_string(), name_repr: Some(name.to_string()), entries, children, text: name.to_string() }
}
