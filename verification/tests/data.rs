use rustaclysm_core::infos::{aliases, finalize_fields, id_value, literal_ids, LiteralEntry, Literals};
use rustaclysm_core::json::{get_field, merge_missing, remove_field, JsonValue};

fn text(s: &str) -> JsonValue {
    JsonValue::Text(String::from(s))
}

fn object(fields: Vec<(&str, JsonValue)>) -> Vec<(String, JsonValue)> {
    fields.into_iter().map(|(k, v)| (String::from(k), v)).collect()
}

fn texts_of(v: &Option<Vec<String>>) -> Option<Vec<&str>> {
    v.as_ref().map(|names| names.iter().map(|n| n.as_str()).collect())
}

fn field_text<'a>(fields: &'a Vec<(String, JsonValue)>, key: &str) -> Option<&'a str> {
    match get_field(fields, key) {
        Some(JsonValue::Text(t)) => Some(t.as_str()),
        _ => None,
    }
}

fn known() -> Vec<String> {
    vec![String::from("GENERIC"), String::from("TOOL"), String::from("recipe"), String::from("MIGRATION"), String::from("dream")]
}

fn entry<'a>(entries: &'a [LiteralEntry], id: &str) -> Option<&'a LiteralEntry> {
    entries.iter().find(|e| e.id == id)
}

#[test]
fn fields_are_found_removed_and_merged() {
    let mut fields = object(vec![("id", text("rock")), ("weight", JsonValue::Number(String::from("3")))]);
    assert_eq!(field_text(&fields, "id"), Some("rock"));
    assert!(get_field(&fields, "volume").is_none());
    let removed = remove_field(&mut fields, "id");
    assert!(matches!(removed, Some(JsonValue::Text(t)) if t == "rock"));
    assert_eq!(fields.len(), 1);
    let parent = object(vec![("weight", JsonValue::Number(String::from("9"))), ("volume", JsonValue::Number(String::from("1")))]);
    merge_missing(&mut fields, &parent);
    assert_eq!(fields.len(), 2);
    assert!(matches!(get_field(&fields, "weight"), Some(JsonValue::Number(n)) if n == "3"));
    assert!(matches!(get_field(&fields, "volume"), Some(JsonValue::Number(n)) if n == "1"));
}

#[test]
fn ids_of_literals() {
    let plain = object(vec![("type", text("GENERIC")), ("id", text("rock"))]);
    assert_eq!(texts_of(&literal_ids(&plain)), Some(vec!["rock"]));
    let many = object(vec![("type", text("GENERIC")), ("id", JsonValue::Array(vec![text("a"), text("b")]))]);
    assert_eq!(texts_of(&literal_ids(&many)), Some(vec!["a", "b"]));
    let both = object(vec![("type", text("GENERIC")), ("id", text("a")), ("abstract", text("b"))]);
    assert!(literal_ids(&both).is_none());
    let none = object(vec![("type", text("GENERIC"))]);
    assert!(literal_ids(&none).is_none());
    let bad_array = object(vec![("type", text("GENERIC")), ("id", JsonValue::Array(vec![text("a"), JsonValue::Null]))]);
    assert!(literal_ids(&bad_array).is_none());
}

#[test]
fn ids_of_recipes() {
    let suffixed = object(vec![("type", text("recipe")), ("result", text("knife")), ("id_suffix", text("crude"))]);
    assert!(matches!(id_value(&suffixed), Some(JsonValue::Text(t)) if t == "knife crude"));
    let copied = object(vec![("type", text("recipe")), ("copy-from", text("axe")), ("id_suffix", text("2"))]);
    assert_eq!(texts_of(&literal_ids(&copied)), Some(vec!["axe 2"]));
    let plain = object(vec![("type", text("recipe")), ("result", text("spear"))]);
    assert_eq!(texts_of(&literal_ids(&plain)), Some(vec!["spear"]));
    let abstract_recipe = object(vec![("type", text("recipe")), ("abstract", text("base")), ("result", text("spear"))]);
    assert_eq!(texts_of(&literal_ids(&abstract_recipe)), Some(vec!["base"]));
    let with_id = object(vec![("type", text("recipe")), ("id", text("x")), ("result", text("spear"))]);
    assert!(literal_ids(&with_id).is_none());
}

#[test]
fn aliases_of_literals() {
    let none = object(vec![("type", text("GENERIC")), ("id", text("rock"))]);
    assert_eq!(texts_of(&aliases(&none)), Some(Vec::new()));
    let some = object(vec![("id", text("rock")), ("alias", JsonValue::Array(vec![text("stone")]))]);
    assert_eq!(texts_of(&aliases(&some)), Some(vec!["stone"]));
    let bad = object(vec![("id", text("rock")), ("alias", JsonValue::Bool(true))]);
    assert!(aliases(&bad).is_none());
}

#[test]
fn literals_keep_the_last_and_add_missing_aliases() {
    let mut literals = Literals::new();
    let unused = vec![String::from("dream")];
    assert!(literals.add_literal(&object(vec![("type", text("GENERIC")), ("id", text("rock")), ("color", text("grey"))]), &known(), &unused));
    assert!(literals.add_literal(
        &object(vec![("type", text("GENERIC")), ("id", text("stone")), ("alias", text("rock"))]),
        &known(),
        &unused
    ));
    assert!(literals.add_literal(&object(vec![("type", text("dream")), ("id", text("nightmare"))]), &known(), &unused));
    assert!(literals.add_literal(&object(vec![("type", text("GENERIC")), ("id", text("rock")), ("color", text("red"))]), &known(), &unused));
    assert!(!literals.add_literal(&object(vec![("type", text("MONSTER")), ("id", text("zombie"))]), &known(), &unused));
    assert_eq!(literals.entries.len(), 3);
    let enriched = literals.enrich(&Vec::new()).unwrap();
    assert_eq!(enriched.len(), 2);
    let rock = entry(&enriched, "rock").unwrap();
    assert_eq!(field_text(&rock.fields, "color"), Some("red"));
    assert!(get_field(&rock.fields, "id").is_none());
}

#[test]
fn copy_from_fills_in_missing_fields() {
    let mut literals = Literals::new();
    let unused = Vec::new();
    assert!(literals.add_literal(
        &object(vec![("type", text("TOOL")), ("abstract", text("base_tool")), ("weight", text("1 kg")), ("color", text("grey"))]),
        &known(),
        &unused
    ));
    assert!(literals.add_literal(
        &object(vec![("type", text("GENERIC")), ("id", text("hammer")), ("copy-from", text("base_tool")), ("color", text("brown"))]),
        &known(),
        &unused
    ));
    assert!(literals.add_literal(
        &object(vec![("type", text("GENERIC")), ("id", text("big_hammer")), ("copy-from", text("hammer")), ("weight", text("3 kg"))]),
        &known(),
        &unused
    ));
    assert!(literals.add_literal(
        &object(vec![("type", text("GENERIC")), ("id", text("orphan")), ("copy-from", text("missing"))]),
        &known(),
        &unused
    ));
    let enriched = literals.enrich(&Vec::new()).unwrap();
    assert_eq!(enriched.len(), 2);
    let hammer = entry(&enriched, "hammer").unwrap();
    assert_eq!(field_text(&hammer.fields, "color"), Some("brown"));
    assert_eq!(field_text(&hammer.fields, "weight"), Some("1 kg"));
    assert!(get_field(&hammer.fields, "copy-from").is_none());
    let big = entry(&enriched, "big_hammer").unwrap();
    assert_eq!(field_text(&big.fields, "weight"), Some("3 kg"));
    assert_eq!(field_text(&big.fields, "color"), Some("brown"));
    assert_eq!(field_text(&big.fields, "abstract"), Some("base_tool"));
    assert!(entry(&enriched, "orphan").is_none());
}

#[test]
fn copy_from_that_is_no_text_breaks_the_data() {
    let mut literals = Literals::new();
    assert!(literals.add_literal(
        &object(vec![("type", text("GENERIC")), ("id", text("odd")), ("copy-from", JsonValue::Bool(false))]),
        &known(),
        &Vec::new()
    ));
    assert!(literals.enrich(&Vec::new()).is_none());
}

#[test]
fn too_long_copy_chains_break_the_data() {
    let mut literals = Literals::new();
    for i in 0..12 {
        let id = format!("item{}", i);
        let mut fields = vec![(String::from("type"), text("GENERIC")), (String::from("id"), JsonValue::Text(id))];
        if i > 0 {
            fields.push((String::from("copy-from"), JsonValue::Text(format!("item{}", i - 1))));
        }
        assert!(literals.add_literal(&fields, &known(), &Vec::new()));
    }
    assert!(literals.enrich(&Vec::new()).is_none());
}

#[test]
fn migrations_replace_by_new_id_or_to() {
    let migration = vec![String::from("MIGRATION")];
    let fields = object(vec![("id", text("old_knife")), ("new_id", text("knife"))]);
    let done = finalize_fields(&String::from("MIGRATION"), fields, &migration).unwrap();
    assert_eq!(field_text(&done, "replace"), Some("knife"));
    assert!(get_field(&done, "new_id").is_none());
    assert!(get_field(&done, "id").is_none());
    let to = object(vec![("id", text("old_axe")), ("to", text("axe"))]);
    let done = finalize_fields(&String::from("MIGRATION"), to, &migration).unwrap();
    assert_eq!(field_text(&done, "replace"), Some("axe"));
    let conflict = object(vec![("id", text("x")), ("new_id", text("y")), ("to", text("z"))]);
    assert!(finalize_fields(&String::from("MIGRATION"), conflict, &migration).is_none());
    let other = object(vec![("id", text("x")), ("new_id", text("y"))]);
    let kept = finalize_fields(&String::from("GENERIC"), other, &migration).unwrap();
    assert_eq!(field_text(&kept, "new_id"), Some("y"));
}

#[test]
fn data_files_are_read_into_literals() {
    let mut literals = Literals::new();
    let file = r#"[
        {"type": "GENERIC", "id": ["rock", "stone"], "weight": 3, "tags": ["HARD"], "broken": null, "ok": true},
        {"type": "dream", "id": "nightmare"}
    ]"#;
    assert!(literals.add_file(file, &known(), &vec![String::from("dream")]));
    assert_eq!(literals.entries.len(), 2);
    let rock = entry(&literals.entries, "rock").expect("rock should be read");
    assert_eq!(rock.type_id, "GENERIC");
    assert_eq!(field_text(&rock.fields, "type"), Some("GENERIC"));
    let weight = get_field(&rock.fields, "weight");
    assert!(matches!(weight, Some(JsonValue::Number(n)) if n == "3"));
    assert!(matches!(get_field(&rock.fields, "tags"), Some(JsonValue::Array(items)) if items.len() == 1));
    assert!(matches!(get_field(&rock.fields, "broken"), Some(JsonValue::Null)));
    assert!(matches!(get_field(&rock.fields, "ok"), Some(JsonValue::Bool(true))));
    assert!(entry(&literals.entries, "stone").is_some());
}

#[test]
fn broken_data_files_are_refused() {
    let mut literals = Literals::new();
    assert!(!literals.add_file("not json", &known(), &Vec::new()));
    assert!(!literals.add_file(r#"{"type": "GENERIC", "id": "rock"}"#, &known(), &Vec::new()));
    assert!(!literals.add_file(r#"[1, 2]"#, &known(), &Vec::new()));
    assert!(literals.entries.is_empty());
    let file = r#"[{"type": "GENERIC", "id": "rock"}, {"type": "MONSTER", "id": "zombie"}, {"type": "GENERIC", "id": "tree"}]"#;
    assert!(!literals.add_file(file, &known(), &Vec::new()));
    assert_eq!(literals.entries.len(), 1);
    assert!(entry(&literals.entries, "rock").is_some());
}
