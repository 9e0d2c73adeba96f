use headmaster::tools::chartdoc::{
    collect_rows, format_default, generate_chart_readme, generate_from_texts, render_table,
    required_fields, schema_type_str, SourceError,
};
use headmaster::tools::crdgen::{
    after_placing, apply_crd_schemas, crd_filename, extract_spec_schema, key_for, place_definitions,
    simplify_k8s_fields, values_key_for_kind, Definition,
};
use headmaster::tools::files::{compare, stale_files, Finding};
use serde_json::Value;

fn v(text: &str) -> Value {
    serde_json::from_str(text).unwrap()
}

#[test]
fn types_in_words() {
    for (prop, word) in [
        (r#"{"type": "string"}"#, "string"),
        (r#"{"type": "boolean"}"#, "bool"),
        (r#"{"type": "integer"}"#, "integer"),
        (r#"{"type": "number"}"#, "number"),
        (r#"{"type": "object"}"#, "object"),
        (r#"{"type": "array"}"#, "list"),
        (r#"{"type": "array", "items": {"type": "integer"}}"#, "list"),
        (r#"{"type": "array", "items": {"type": "string"}}"#, "list(string)"),
        (r#"{"type": "null"}"#, "any"),
        (r#"{"type": ["string", "null"]}"#, "any"),
        ("{}", "any"),
        (r#"{"type": "string", "enum": ["a", 1, "b"]}"#, "a / b"),
        (r#"{"enum": []}"#, ""),
    ] {
        assert_eq!(schema_type_str(&v(prop)), word, "{prop}");
    }
}

#[test]
fn defaults_in_words() {
    for (value, word) in [
        ("null", "-"),
        ("true", "`true`"),
        ("false", "`false`"),
        ("10", "`10`"),
        ("-1.5", "`-1.5`"),
        (r#""""#, "`\"\"`"),
        (r#""x""#, "`x`"),
        ("[]", "`[]`"),
        ("[1]", "-"),
        ("{}", "`{}`"),
        (r#"{"a": 1}"#, "-"),
    ] {
        assert_eq!(format_default(&v(value)), word, "{value}");
    }
}

#[test]
fn required_names() {
    assert_eq!(
        required_fields(&v(r#"{"required": ["a", 2, "b"]}"#)),
        vec!["a", "b"]
    );
    assert!(required_fields(&v("{}")).is_empty());
    assert!(required_fields(&v(r#"{"required": "a"}"#)).is_empty());
}

#[test]
fn rows_of_a_property() {
    let mut rows: Vec<[String; 5]> = vec![];
    let prop = v(r#"{
        "type": "object",
        "description": " First | line.\r\n\n  Second line. ",
        "required": ["size"],
        "default": {},
        "properties": {
            "size": { "type": "string", "default": "1Gi" },
            "class": { "type": "string" }
        }
    }"#);
    collect_rows(&mut rows, "storage", &prop, true, Some(&v(r#"{"size": "5Gi"}"#)));
    let want = [
        ["`storage`", "`object`", "-", "yes", "First \\| line. Second line."],
        ["`storage.class`", "`string`", "-", "no", "-"],
        ["`storage.size`", "`string`", "`5Gi`", "yes", "-"],
    ];
    assert_eq!(rows.len(), 3);
    for (row, want) in rows.iter().zip(want) {
        assert_eq!(row.to_vec(), want.to_vec());
    }
}

#[test]
fn tables_are_padded() {
    let row = |cells: [&str; 5]| cells.map(str::to_string);
    assert_eq!(
        render_table(
            &["A", "Bee", "C", "D", "E"],
            &[row(["aa", "b", "é", "", "e"])]
        ),
        "| A  | Bee | C  | D | E |\n\
         | -- | --- | -- | - | - |\n\
         | aa | b   | é  |   | e |\n"
    );
    assert_eq!(render_table(&["A"], &[]), "| A |\n| - |\n");
    assert_eq!(
        render_table(&["A"], &[row(["1234", "b", "c", "d", "e"])]),
        "| A    |\n| ---- |\n| 1234 |\n"
    );
}

const SCHEMA: &str = r#"{
    "required": ["image"],
    "properties": {
        "image": { "type": "string", "description": "The image." },
        "replicas": { "type": "integer", "default": 1 },
        "global": { "type": "object" },
        "headscaleInstances": {
            "type": "object",
            "additionalProperties": {
                "required": ["serverUrl"],
                "properties": {
                    "serverUrl": { "type": "string", "description": "The URL." }
                }
            }
        }
    }
}"#;

const README: &str = "# Chart Values\n\
\n\
<!-- Generated from `chart/values.schema.json` by `task generate`. Do not edit by hand. -->\n\
\n\
## Operator\n\
\n\
| Value      | Type      | Default | Required | Description |\n\
| ---------- | --------- | ------- | -------- | ----------- |\n\
| `image`    | `string`  | `x:1`   | yes      | The image.  |\n\
| `replicas` | `integer` | `1`     | no       | -           |\n\
\n\
## HeadscaleInstance\n\
\n\
The following fields are set per-instance under `headscaleInstances.<name>`.\n\
\n\
| Field       | Type     | Default | Required | Description |\n\
| ----------- | -------- | ------- | -------- | ----------- |\n\
| `serverUrl` | `string` | -       | yes      | The URL.    |\n";

#[test]
fn readme_of_a_chart() {
    let values = v(r#"{"image": "x:1"}"#);
    assert_eq!(generate_chart_readme(&v(SCHEMA), &values), README);
}

#[test]
fn readme_from_the_files() {
    match generate_from_texts(SCHEMA, "# values\nimage: x:1\n") {
        Ok(readme) => assert_eq!(readme, README),
        Err(_) => panic!("both can be read"),
    }
    assert!(matches!(
        generate_from_texts("{", "image: x"),
        Err(SourceError::Schema(_))
    ));
    assert!(matches!(
        generate_from_texts(SCHEMA, "a: ["),
        Err(SourceError::Values(_))
    ));
}

fn definition(kind: &str, spec_schema: Option<&str>) -> Definition {
    Definition {
        kind: kind.to_string(),
        plural: format!("{}s", kind.to_lowercase()),
        spec_schema: spec_schema.map(v),
    }
}

#[test]
fn keys_of_kinds() {
    assert_eq!(values_key_for_kind("HeadscaleInstance"), "headscaleInstances");
    assert_eq!(values_key_for_kind("İx"), "i\u{307}xs");
    assert_eq!(values_key_for_kind(""), "");
    assert_eq!(key_for("h", "Headscale"), "headscales");
    assert_eq!(
        crd_filename(&definition("HeadscaleInstance", None)),
        "headscaleinstances.yaml"
    );
}

#[test]
fn resources_are_opaque() {
    let schema = r#"{
        "properties": {
            "resources": {
                "type": "object",
                "properties": { "limits": {} }
            },
            "other": { "properties": {} }
        }
    }"#;
    let simple = v(r#"{
        "properties": {
            "resources": {
                "type": "object",
                "x-kubernetes-preserve-unknown-fields": true
            },
            "other": { "properties": {} }
        }
    }"#);
    assert_eq!(simplify_k8s_fields(v(schema)), simple);
    assert_eq!(simplify_k8s_fields(simple.clone()), simple);
    assert_eq!(simplify_k8s_fields(v("[]")), v("[]"));
    assert_eq!(
        simplify_k8s_fields(v(r#"{"properties": {"resources": true}}"#)),
        v(r#"{"properties": {"resources": true}}"#)
    );
}

#[test]
fn schemas_are_put_in_their_places() {
    let values = r#"{
        "properties": {
            "things": { "additionalProperties": {} },
            "image": { "type": "string" }
        }
    }"#;
    let definitions = vec![
        definition("Thing", Some(r#"{"type": "object", "properties": {"resources": {}}}"#)),
        definition("Absent", Some(r#"{"type": "object"}"#)),
        definition("Image", Some("{}")),
        definition("Thing", None),
    ];
    let want = r#"{
  "properties": {
    "image": {
      "type": "string"
    },
    "things": {
      "additionalProperties": {
        "properties": {
          "resources": {
            "x-kubernetes-preserve-unknown-fields": true
          }
        },
        "type": "object"
      }
    }
  }
}
"#;
    let first = match apply_crd_schemas(&definitions, values) {
        Ok(text) => text,
        Err(e) => panic!("{e}"),
    };
    assert_eq!(first, want);
    let again = match apply_crd_schemas(&definitions, &first) {
        Ok(text) => text,
        Err(e) => panic!("{e}"),
    };
    assert_eq!(again, first);
    assert!(apply_crd_schemas(&definitions, "{").is_err());
    assert_eq!(
        place_definitions(v(values), &vec![]),
        v(values),
        "without definitions nothing changes"
    );
}

#[test]
fn schema_of_the_first_version() {
    let manifest = |versions: &str| v(&format!(r#"{{"spec": {{"versions": {versions}}}}}"#));
    let version = r#"{"schema": {"openAPIV3Schema": {"properties": {"spec": {"type": "object"}}}}}"#;
    assert_eq!(
        extract_spec_schema(&manifest(&format!("[{version}, {{}}]"))),
        Some(v(r#"{"type": "object"}"#))
    );
    for versions in [
        "[]".to_string(),
        "{}".to_string(),
        format!("[{{}}, {version}]"),
        r#"[{"schema": {}}]"#.to_string(),
        r#"[{"schema": {"openAPIV3Schema": {}}}]"#.to_string(),
        r#"[{"schema": {"openAPIV3Schema": {"properties": {"status": {}}}}}]"#.to_string(),
    ] {
        assert_eq!(extract_spec_schema(&manifest(&versions)), None, "{versions}");
    }
    assert_eq!(extract_spec_schema(&v("{}")), None);
}

#[test]
fn odd_kinds_lead_where_the_pointer_leads() {
    let values = r#"{"properties": {"odd": {"Kinds": {"additionalProperties": 1}}}}"#;
    let deeper = r#"{"properties": {"odd": {"Kinds": {"additionalProperties": {"a": true}}}}}"#;
    let definitions = vec![definition("Odd/Kind", Some(r#"{"a": true}"#))];
    assert_eq!(place_definitions(v(values), &definitions), v(deeper));
    let listed = r#"{"properties": [{"additionalProperties": 1}]}"#;
    let definitions = vec![definition("Kind", Some(r#"{"a": true}"#))];
    assert_eq!(place_definitions(v(listed), &definitions), v(listed));
}

#[test]
fn place_or_leave() {
    assert_eq!(after_placing(v("1"), Some(v("2"))), v("2"));
    assert_eq!(after_placing(v("1"), None), v("1"));
}

#[test]
fn findings_about_files() {
    assert_eq!(compare(Some("a"), "a"), None);
    assert_eq!(compare(Some("a"), "b"), Some(Finding::OutOfDate));
    assert_eq!(compare(None, "b"), Some(Finding::NotFound));
    assert_eq!(
        Finding::OutOfDate.message("crds/x.yaml"),
        "crds/x.yaml is out of date — run: task generate"
    );
    assert_eq!(
        Finding::NotFound.message("x"),
        "x not found — run: task generate"
    );
    assert_eq!(
        Finding::UnknownCrd.message("x"),
        "x is not a known CRD — run: task generate"
    );
    let names: Vec<String> = ["a.yaml", "b.yaml", ".yaml", "c.yml", "..yaml", "yaml"]
        .iter()
        .map(|s| s.to_string())
        .collect();
    assert_eq!(
        stale_files(&names, &vec!["a.yaml".to_string()]),
        vec!["b.yaml", "..yaml"]
    );
}
