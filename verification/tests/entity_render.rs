use nebulis::dsl::FieldValidation;
use nebulis::entity::{
    execute_entity, generate_entity_content, generate_field_with_validation,
};

fn groups(gs: &[&str]) -> Vec<String> {
    gs.iter().map(|s| s.to_string()).collect()
}

#[test]
fn field_rendering_reproduces_name_type_and_rules() {
    let mut v = FieldValidation::default();
    v.required = true;
    v.min_length = Some(3);
    let rendered = generate_field_with_validation("title", "String", &v);
    assert_eq!(
        rendered,
        "    #[validate(required)]\n    #[validate(length(min = 3))]\n    pub title: String"
    );
}

#[test]
fn field_rendering_orders_all_attributes() {
    let mut v = FieldValidation::default();
    v.required = true;
    v.unique = true;
    v.email = true;
    v.url = true;
    v.min = Some("1".to_string());
    v.max = Some("9".to_string());
    v.min_length = Some(2);
    v.max_length = Some(8);
    v.pattern = Some("^x$".to_string());
    let rendered = generate_field_with_validation("u", "Url", &v);
    let expected = "    #[validate(required)]\n    #[validate(custom = \"validate_unique\")]\n    #[validate(email)]\n    #[validate(url)]\n    #[validate(range(min = \"1\"))]\n    #[validate(range(max = \"9\"))]\n    #[validate(length(min = 2))]\n    #[validate(length(max = 8))]\n    #[validate(regex(path = \"^x$\"))]\n    pub u: Url";
    assert_eq!(rendered, expected);
}

#[test]
fn entity_content_holds_every_section() {
    let (fields, relations) = nebulis::dsl::parse_fields_and_relations(&groups(
        &["title:String|required minLength=3, count:i32, active:bool, hasMany->Comment"],
    ))
    .unwrap();
    let content = generate_entity_content("Post", &fields, &relations);
    assert!(content.starts_with("use serde::{Deserialize, Serialize};\n"));
    assert!(content.contains("use crate::entities::comment::Comment;"));
    assert!(content.contains("pub struct Post {"));
    assert!(content.contains(
        "    #[validate(required)]\n    #[validate(length(min = 3))]\n    pub title: String"
    ));
    assert!(content.contains("    pub comment: Vec<Comment>"));
    assert!(content.contains("            title: title::default()"));
    assert!(content.contains("            comment: Vec::new()"));
    assert!(content.contains("pub struct PostInput {"));
    assert!(content.contains("pub struct PostFilter {"));
    assert!(content.contains("    pub title_contains: Option<String>"));
    assert!(content.contains("    pub count_min: Option<i32>,\n    pub count_max: Option<i32>"));
    assert!(content.contains("    pub active: Option<bool>"));
    assert!(content.contains("pub enum PostSortField {\n    CreatedAt,\n    UpdatedAt,\n    Title"));
    assert!(content.contains("pub struct PostPagination {"));
    assert!(content.ends_with("pub enum SortOrder {\n    Asc,\n    Desc,\n}"));
}

#[test]
fn has_many_relation_gets_presence_and_count_filters() {
    let (fields, relations) =
        nebulis::dsl::parse_fields_and_relations(&groups(&["hasMany->Comment"])).unwrap();
    let content = generate_entity_content("Post", &fields, &relations);
    assert!(content.contains(
        "    pub has_comment: Option<bool>,\n    pub comment_count_min: Option<i32>,\n    pub comment_count_max: Option<i32>"
    ));
}

#[test]
fn has_one_and_belongs_to_get_presence_filters_only() {
    let (fields, relations) = nebulis::dsl::parse_fields_and_relations(&groups(
        &["hasOne->Profile, belongsTo->User"],
    ))
    .unwrap();
    let content = generate_entity_content("Post", &fields, &relations);
    assert!(content.contains("    pub has_profile: Option<bool>"));
    assert!(content.contains("    pub has_user: Option<bool>"));
    assert!(!content.contains("profile_count_min"));
    assert!(content.contains("    pub user_id: ID,\n    pub user: Option<User>"));
    assert!(content.contains("            user_id: ID::default(),\n            user: None"));
    assert!(content.contains("            profile: None"));
}

#[test]
fn input_fields_carry_only_the_required_rule() {
    let (fields, relations) = nebulis::dsl::parse_fields_and_relations(&groups(
        &["title:String|required unique, body:String"],
    ))
    .unwrap();
    let content = generate_entity_content("Post", &fields, &relations);
    assert!(content.contains("        #[validate(required)]\n    pub title: String"));
    assert!(content.contains("    \n    pub body: String"));
}

#[test]
fn execute_entity_requires_a_project_root() {
    let err = execute_entity(false, "Post", &groups(&["title:String"])).unwrap_err();
    assert_eq!(err, "Not in a Nebulis project directory");
}

#[test]
fn execute_entity_checks_marker_before_parsing() {
    let err = execute_entity(false, "Post", &groups(&["broken"])).unwrap_err();
    assert_eq!(err, "Not in a Nebulis project directory");
}

#[test]
fn execute_entity_yields_path_content_and_relations() {
    let plan = execute_entity(true, "Post", &groups(&["title:String, hasMany->Comment"]))
        .unwrap();
    assert_eq!(plan.entity_path, "backend/src/entities/post.rs");
    assert!(plan.entity_content.contains("pub struct Post {"));
    assert_eq!(plan.relations.len(), 1);
}

#[test]
fn execute_entity_propagates_parse_errors() {
    let err = execute_entity(true, "Post", &groups(&["title:String|required title_length"]))
        .unwrap_err();
    assert_eq!(err, "Unknown validation rule: title_length");
    let plan = execute_entity(true, "Post", &groups(&["title:String|required minLength=3"]))
        .unwrap();
    assert!(plan.entity_content.contains(
        "    #[validate(required)]\n    #[validate(length(min = 3))]\n    pub title: String"
    ));
}
