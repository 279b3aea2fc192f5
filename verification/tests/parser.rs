use nebulis::dsl::{parse_fields_and_relations, validate_field_type, Relation};

fn parse(groups: &[&str]) -> Result<(Vec<nebulis::dsl::Field>, Vec<Relation>), String> {
    let v: Vec<String> = groups.iter().map(|s| s.to_string()).collect();
    parse_fields_and_relations(&v)
}

#[test]
fn parses_single_field_with_rules() {
    let (fields, relations) = parse(&["title:String|required minLength=3"]).unwrap();
    assert_eq!(fields.len(), 1);
    assert_eq!(relations.len(), 0);
    assert_eq!(fields[0].name, "title");
    assert_eq!(fields[0].ty, "String");
    assert!(fields[0].validation.required);
    assert_eq!(fields[0].validation.min_length, Some(3));
    assert_eq!(fields[0].validation.max_length, None);
    assert!(!fields[0].validation.unique);
}

#[test]
fn parses_comma_separated_definitions() {
    let (fields, relations) = parse(&["title:String|required, count:i32, hasMany->Comment"])
        .unwrap();
    assert_eq!(fields.len(), 2);
    assert_eq!(fields[0].name, "title");
    assert_eq!(fields[1].name, "count");
    assert_eq!(fields[1].ty, "i32");
    assert_eq!(relations.len(), 1);
    match &relations[0] {
        Relation::HasMany(t) => assert_eq!(t, "Comment"),
        _ => panic!("expected a has-many relation"),
    }
}

#[test]
fn parses_all_relation_kinds() {
    let (fields, relations) = parse(&["hasOne->Profile", "belongsTo->User"]).unwrap();
    assert_eq!(fields.len(), 0);
    assert_eq!(relations.len(), 2);
    assert!(matches!(&relations[0], Relation::HasOne(t) if t == "Profile"));
    assert!(matches!(&relations[1], Relation::BelongsTo(t) if t == "User"));
}

#[test]
fn unknown_relation_role_is_named_in_error() {
    let err = parse(&["has->User"]).unwrap_err();
    assert_eq!(err, "Invalid relation type: has");
    let err = parse(&["HASONE->User"]).unwrap_err();
    assert_eq!(err, "Invalid relation type: HASONE");
}

#[test]
fn relation_with_three_parts_is_rejected() {
    let err = parse(&["hasOne->User->Group"]).unwrap_err();
    assert_eq!(err, "Invalid relation format: hasOne->User->Group");
}

#[test]
fn field_without_colon_is_rejected() {
    let err = parse(&["justaname"]).unwrap_err();
    assert_eq!(
        err,
        "Invalid field format: justaname. Expected format: name:type|validation1 validation2"
    );
}

#[test]
fn field_with_two_colons_is_rejected() {
    let err = parse(&["a:b:c"]).unwrap_err();
    assert_eq!(
        err,
        "Invalid field format: a:b:c. Expected format: name:type|validation1 validation2"
    );
}

#[test]
fn unknown_type_error_names_tag_and_lists_valid_types() {
    let err = parse(&["title:Strng"]).unwrap_err();
    assert!(err.starts_with("Invalid type: Strng. Valid types are: "));
    for tag in [
        "String", "i32", "i64", "f32", "f64", "bool", "DateTime", "Vec<String>", "Option<String>",
        "u32", "u64", "usize", "Email", "Phone", "Url", "Password", "Json", "Money", "Uuid",
        "Slug", "HasOne", "HasMany", "BelongsTo", "Status", "Role",
    ] {
        assert!(err.contains(tag), "error must mention {tag}");
    }
}

#[test]
fn validate_field_type_accepts_every_listed_tag() {
    for tag in ["String", "Email", "Status", "Role", "DateTime", "Vec<String>"] {
        assert!(validate_field_type(tag).is_ok());
    }
    assert!(validate_field_type("string").is_err());
}

#[test]
fn unknown_validation_rule_is_named_in_error() {
    let err = parse(&["title:String|required title_length"]).unwrap_err();
    assert_eq!(err, "Unknown validation rule: title_length");
}

#[test]
fn malformed_duplicate_key_definition_fails_naming_the_bad_token() {
    // The stray token drags a second colon into the definition, so the
    // field-format check rejects it before rule parsing; the error still
    // carries the offending text.
    let err = parse(&["title:String|required title_length title:minLength=3"]).unwrap_err();
    assert!(err.contains("title_length"));
    assert!(err.starts_with("Invalid field format: "));
}

#[test]
fn rule_values_are_parsed_and_checked() {
    let err = parse(&["title:String|minLength"]).unwrap_err();
    assert_eq!(err, "minLength requires a value");
    let err = parse(&["title:String|maxLength"]).unwrap_err();
    assert_eq!(err, "maxLength requires a value");
    let err = parse(&["title:String|minLength=abc"]).unwrap_err();
    assert_eq!(err, "Invalid minLength value: abc");
    let err = parse(&["title:String|maxLength=-1"]).unwrap_err();
    assert_eq!(err, "Invalid maxLength value: -1");
    let err = parse(&["title:String|min"]).unwrap_err();
    assert_eq!(err, "min requires a value");
    let err = parse(&["title:String|max"]).unwrap_err();
    assert_eq!(err, "max requires a value");
    let err = parse(&["title:String|pattern"]).unwrap_err();
    assert_eq!(err, "pattern requires a value");
}

#[test]
fn later_rule_occurrences_overwrite_earlier_ones() {
    let (fields, _) = parse(&["title:String|minLength=3 minLength=7"]).unwrap();
    assert_eq!(fields[0].validation.min_length, Some(7));
}

#[test]
fn rule_kinds_fill_their_slots() {
    let (fields, _) = parse(
        &["u:Url|required unique email url min=1 max=9 minLength=2 maxLength=8 pattern=^x$"],
    )
    .unwrap();
    let v = &fields[0].validation;
    assert!(v.required && v.unique && v.email && v.url);
    assert_eq!(v.min.as_deref(), Some("1"));
    assert_eq!(v.max.as_deref(), Some("9"));
    assert_eq!(v.min_length, Some(2));
    assert_eq!(v.max_length, Some(8));
    assert_eq!(v.pattern.as_deref(), Some("^x$"));
}

#[test]
fn rules_after_second_separator_are_ignored() {
    let (fields, _) = parse(&["title:String|required|unique"]).unwrap();
    assert!(fields[0].validation.required);
    assert!(!fields[0].validation.unique);
}

#[test]
fn names_and_targets_are_trimmed() {
    let (fields, relations) = parse(&[" title : String , hasOne-> Profile "]).unwrap();
    assert_eq!(fields[0].name, "title");
    assert_eq!(fields[0].ty, "String");
    assert!(matches!(&relations[0], Relation::HasOne(t) if t == "Profile"));
}

#[test]
fn first_error_aborts_the_whole_parse() {
    let err = parse(&["a:String", "b:Nope", "c:String"]).unwrap_err();
    assert!(err.starts_with("Invalid type: Nope."));
}
