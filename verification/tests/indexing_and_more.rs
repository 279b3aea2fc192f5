use nebulis::dsl::Relation;
use nebulis::indexing::{update_entities_index, update_module_index};
use nebulis::names::{pluralize, trim_end_char};
use nebulis::resolver::{execute_resolver, generate_resolver_content};
use nebulis::templates::{
    backend_directories, get_cargo_toml_template, get_docker_compose_content, get_env_template,
    get_main_rs_template, get_package_json_template,
};

#[test]
fn module_index_appends_declaration_and_reexport() {
    let updated = update_module_index("", "post", "*");
    assert_eq!(updated, "pub mod post;\npub use post::*;\n");
    let updated2 = update_module_index(&updated, "user", "*");
    assert_eq!(
        updated2,
        "pub mod post;\npub use post::*;\n\npub mod user;\npub use user::*;\n"
    );
}

#[test]
fn module_index_update_is_idempotent() {
    let once = update_module_index("", "post", "*");
    let twice = update_module_index(&once, "post", "*");
    assert_eq!(once, twice);
    let base = "// header\npub mod legacy;\npub use legacy::*;\n";
    let once = update_module_index(base, "post", "*");
    let twice = update_module_index(&once, "post", "*");
    assert_eq!(once, twice);
    assert!(once.starts_with(base));
}

#[test]
fn entities_index_registers_entity_and_relation_targets() {
    let rels = vec![Relation::HasMany("Comment".to_string())];
    let updated = update_entities_index("", "Post", &rels);
    assert_eq!(
        updated,
        "pub mod post;\npub use post::Post;\npub mod comment;\npub use comment::Comment;\n"
    );
}

#[test]
fn entities_index_skips_targets_already_declared() {
    let rels = vec![Relation::BelongsTo("User".to_string())];
    let base = "pub mod user;\npub use user::User;\n";
    let updated = update_entities_index(base, "Post", &rels);
    assert_eq!(
        updated,
        "pub mod user;\npub use user::User;\n\npub mod post;\npub use post::Post;\n"
    );
}

#[test]
fn entities_index_update_is_idempotent() {
    let rels = vec![Relation::HasMany("Comment".to_string())];
    let once = update_entities_index("", "Post", &rels);
    let twice = update_entities_index(&once, "Post", &rels);
    assert_eq!(once, twice);
}

#[test]
fn casing_transforms_feed_the_generators() {
    // PascalCase reaches the artifact text; snake_case reaches the file name;
    // lowercase reaches module names. A repeated transform changes nothing.
    let content = generate_resolver_content("blog_post");
    assert!(content.contains("pub struct BlogPost;"));
    assert!(content.contains("use crate::entities::blog_post::BlogPost;"));
    let content = generate_resolver_content("BlogPost");
    assert!(content.contains("pub struct BlogPost;"));
    assert!(content.contains("use crate::entities::blogpost::BlogPost;"));
    let plan = nebulis::migration::execute_migration("create users", "").unwrap();
    assert_eq!(plan.filename, "create_users");
    let plan = nebulis::migration::execute_migration("create_users", "").unwrap();
    assert_eq!(plan.filename, "create_users");
}

#[test]
fn pluralize_appends_s_unless_present() {
    assert_eq!(pluralize("user"), "users");
    assert_eq!(pluralize("users"), "users");
    assert_eq!(pluralize(""), "s");
    assert_eq!(trim_end_char("users", 's'), "user");
    assert_eq!(trim_end_char("boss", 's'), "bo");
    assert_eq!(trim_end_char("user", 's'), "user");
}

#[test]
fn resolver_content_holds_the_five_stubs() {
    let content = generate_resolver_content("post");
    assert!(content.starts_with("use async_graphql::{Context, Object, Result, ID};\n"));
    assert!(content.contains("use crate::entities::post::Post;"));
    assert!(content.contains("use crate::services::post::PostService;"));
    assert!(content.contains("pub struct Post;"));
    assert!(content.contains("async fn get_post(&self, ctx: &Context<'_>, id: ID) -> Result<Option<Post>>"));
    assert!(content.contains("async fn list_posts("));
    assert!(content.contains("async fn create_post("));
    assert!(content.contains("async fn update_post("));
    assert!(content.contains("async fn delete_post("));
    assert!(content.contains("service.find_by_id(&id).await"));
    assert!(content.contains("service.delete(&id).await"));
}

#[test]
fn execute_resolver_requires_a_project_root() {
    let err = execute_resolver(false, "post").unwrap_err();
    assert_eq!(err, "Not in a Nebulis project directory");
    let plan = execute_resolver(true, "Post").unwrap();
    assert_eq!(plan.resolver_path, "backend/src/graphql/resolvers/post.rs");
    assert!(plan.resolver_content.contains("pub struct Post;"));
}

#[test]
fn templates_carry_the_project_name() {
    let cargo = get_cargo_toml_template("shop");
    assert!(cargo.starts_with("[package]\nname = \"shop_backend\"\n"));
    assert!(cargo.contains("surrealdb = { version = \"1.0.0\" }"));
    let main_rs = get_main_rs_template();
    assert!(main_rs.contains("async fn main()"));
    assert!(main_rs.contains("Nebulis Backend API"));
    let env = get_env_template();
    assert!(env.starts_with("# Database Configuration\n"));
    let compose = get_docker_compose_content("shop");
    assert!(compose.contains("container_name: shop_db"));
    assert!(compose.contains("name: shop_network"));
    let pkg = get_package_json_template("shop");
    assert!(pkg.contains("\"name\": \"shop_frontend\""));
}

#[test]
fn backend_directory_list_is_complete_and_ordered() {
    let dirs = backend_directories("proj/backend");
    assert_eq!(
        dirs,
        vec![
            "proj/backend/src/graphql/mutations",
            "proj/backend/src/graphql/queries",
            "proj/backend/src/graphql/types",
            "proj/backend/src/graphql/scalars",
            "proj/backend/src/migrations",
            "proj/backend/src/entities",
            "proj/backend/src/repositories",
            "proj/backend/src/services",
            "proj/backend/src/utils",
        ]
    );
}

#[test]
fn generated_entity_round_trips_through_extraction() {
    let groups: Vec<String> = vec!["title:String|required minLength=3, count:i32".to_string()];
    let plan = nebulis::entity::execute_entity(true, "Post", &groups).unwrap();
    let fields = nebulis::migration::entity_fields_from_source(&plan.entity_content);
    assert!(fields.iter().any(|f| f.name == "title" && f.validation.required));
    let op = nebulis::migration::MigrationOperation::CreateTable("posts".to_string());
    let up = op.up_sql(&fields);
    assert!(up.contains("DEFINE FIELD title ON posts TYPE string;"));
}
