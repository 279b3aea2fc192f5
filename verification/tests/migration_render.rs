use nebulis::migration::{
    entity_fields_from_source, execute_migration, execute_pending_migrations, list_migrations,
    rollback_migrations, MigrationOperation,
};

#[test]
fn name_inference_matches_the_recognized_shapes() {
    match MigrationOperation::from_name("create users").unwrap() {
        MigrationOperation::CreateTable(t) => assert_eq!(t, "users"),
        _ => panic!("expected a create-table operation"),
    }
    match MigrationOperation::from_name("add email to users").unwrap() {
        MigrationOperation::AddColumn(t, c, ty) => {
            assert_eq!(t, "users");
            assert_eq!(c, "email");
            assert_eq!(ty, "String");
        },
        _ => panic!("expected an add-column operation"),
    }
    match MigrationOperation::from_name("remove email from users").unwrap() {
        MigrationOperation::RemoveColumn(t, c) => {
            assert_eq!(t, "users");
            assert_eq!(c, "email");
        },
        _ => panic!("expected a remove-column operation"),
    }
    match MigrationOperation::from_name("rename login to email on users").unwrap() {
        MigrationOperation::RenameColumn(t, o, n) => {
            assert_eq!(t, "users");
            assert_eq!(o, "login");
            assert_eq!(n, "email");
        },
        _ => panic!("expected a rename-column operation"),
    }
    match MigrationOperation::from_name("add index on users fields email name").unwrap() {
        MigrationOperation::AddIndex(t, cols) => {
            assert_eq!(t, "users");
            assert_eq!(cols, vec!["email".to_string(), "name".to_string()]);
        },
        _ => panic!("expected an add-index operation"),
    }
    match MigrationOperation::from_name("add relation posts to users").unwrap() {
        MigrationOperation::AddRelation(f, t, k) => {
            assert_eq!(f, "posts");
            assert_eq!(t, "users");
            assert_eq!(k, "BelongsTo");
        },
        _ => panic!("expected an add-relation operation"),
    }
}

#[test]
fn bare_table_names_are_pluralized_naively() {
    match MigrationOperation::from_name("users").unwrap() {
        MigrationOperation::CreateTable(t) => assert_eq!(t, "users"),
        _ => panic!("expected a create-table operation"),
    }
    match MigrationOperation::from_name("user").unwrap() {
        MigrationOperation::CreateTable(t) => assert_eq!(t, "users"),
        _ => panic!("expected a create-table operation"),
    }
}

#[test]
fn camel_case_names_normalize_before_inference() {
    match MigrationOperation::from_name("AddEmailToUsers").unwrap() {
        MigrationOperation::AddColumn(t, c, _) => {
            assert_eq!(t, "users");
            assert_eq!(c, "email");
        },
        _ => panic!("expected an add-column operation"),
    }
}

#[test]
fn unrecognized_shapes_are_rejected() {
    assert!(MigrationOperation::from_name("add index users").is_none());
    assert!(MigrationOperation::from_name("drop the table now").is_none());
    let err = execute_migration("add index users", "").unwrap_err();
    assert_eq!(err, "Invalid migration name format: add index users");
}

#[test]
fn create_table_down_is_one_remove_table_statement() {
    let op = MigrationOperation::CreateTable("orders".to_string());
    assert_eq!(op.down_sql(), "REMOVE TABLE orders;");
    let op = MigrationOperation::CreateTable("Orders".to_string());
    assert_eq!(op.down_sql(), "REMOVE TABLE orders;");
}

#[test]
fn down_statements_of_the_other_operations() {
    let op = MigrationOperation::AddColumn("Users".into(), "Email".into(), "String".into());
    assert_eq!(op.down_sql(), "REMOVE FIELD email ON users;");
    let op = MigrationOperation::RemoveColumn("users".into(), "email".into());
    assert_eq!(op.down_sql(), "DEFINE FIELD email ON users TYPE string;");
    let op = MigrationOperation::RenameColumn("users".into(), "login".into(), "email".into());
    assert_eq!(
        op.down_sql(),
        "DEFINE FIELD login ON users TYPE string;\nUPDATE users SET login = email;\nREMOVE FIELD email ON users;"
    );
    let op = MigrationOperation::AddIndex("users".into(), vec!["email".into(), "name".into()]);
    assert_eq!(op.down_sql(), "REMOVE INDEX idx_users_email_name ON users;");
    let op = MigrationOperation::AddRelation("posts".into(), "users".into(), "BelongsTo".into());
    assert_eq!(
        op.down_sql(),
        "REMOVE FIELD users_id ON posts;\nREMOVE INDEX idx_posts_users ON posts;"
    );
}

#[test]
fn up_statements_of_the_simple_operations() {
    let op = MigrationOperation::AddColumn("Users".into(), "Email".into(), "String".into());
    assert_eq!(op.up_sql(&Vec::new()), "DEFINE FIELD email ON users TYPE string;");
    let op = MigrationOperation::RemoveColumn("users".into(), "email".into());
    assert_eq!(op.up_sql(&Vec::new()), "REMOVE FIELD email ON users;");
    let op = MigrationOperation::RenameColumn("users".into(), "login".into(), "email".into());
    assert_eq!(
        op.up_sql(&Vec::new()),
        "DEFINE FIELD email ON users TYPE string;\nUPDATE users SET email = login;\nREMOVE FIELD login ON users;"
    );
    let op = MigrationOperation::AddIndex("users".into(), vec!["Email".into(), "Name".into()]);
    assert_eq!(
        op.up_sql(&Vec::new()),
        "DEFINE INDEX idx_users_email_name ON users FIELDS email, name;"
    );
    let op = MigrationOperation::AddRelation("posts".into(), "users".into(), "BelongsTo".into());
    assert_eq!(
        op.up_sql(&Vec::new()),
        "DEFINE FIELD users_id ON posts TYPE record(users);\nDEFINE INDEX idx_posts_users ON posts FIELDS users_id;"
    );
}

#[test]
fn create_table_up_with_no_entity_fields() {
    let op = MigrationOperation::CreateTable("users".to_string());
    let expected = "DEFINE TABLE users SCHEMAFULL;\n\n// Champs système\nDEFINE FIELD id ON users TYPE ulid;\n\n// Champs de l'entité\n\n// Champs de timestamps\nDEFINE FIELD created_at ON users TYPE datetime VALUE $before OR time::now();\nDEFINE FIELD updated_at ON users TYPE datetime VALUE $before OR time::now();\nDEFINE FIELD deleted_at ON users TYPE datetime VALUE $before OR time::now();\n\n// Indexes\nDEFINE INDEX idx_users_id ON users FIELDS id;\nDEFINE INDEX idx_users_created ON users FIELDS created_at;\nDEFINE INDEX idx_users_updated ON users FIELDS updated_at;\nDEFINE INDEX idx_users_deleted ON users FIELDS deleted_at;";
    assert_eq!(op.up_sql(&Vec::new()), expected);
}

#[test]
fn create_table_up_renders_extracted_fields_with_storage_types() {
    let source = "    #[validate(required)]\n    pub title: String,\n\n    #[validate(email)]\n    pub contact: Email,\n\n    #[validate(required)]\n    pub count: i32,\n";
    let fields = entity_fields_from_source(source);
    assert_eq!(fields.len(), 3);
    assert_eq!(fields[0].name, "title");
    assert!(fields[0].validation.required);
    assert!(fields[1].validation.email);
    let op = MigrationOperation::CreateTable("posts".to_string());
    let up = op.up_sql(&fields);
    assert!(up.contains("DEFINE FIELD title ON posts TYPE string;"));
    assert!(up.contains("DEFINE FIELD contact ON posts TYPE string;"));
    assert!(up.contains("DEFINE FIELD count ON posts TYPE int;"));
}

#[test]
fn extraction_skips_system_fields_and_degrades_to_empty() {
    let source = "    #[validate(required)]\n    pub id: String,\n    #[validate(required)]\n    pub created_at: DateTime,\n";
    assert_eq!(entity_fields_from_source(source).len(), 0);
    assert_eq!(entity_fields_from_source("not an entity artifact at all").len(), 0);
    assert_eq!(entity_fields_from_source("").len(), 0);
}

#[test]
fn duplicate_extracted_fields_keep_the_first_occurrence() {
    let source = "    #[validate(required)]\n    pub title: String,\n    #[validate(required)]\n    pub title: i32,\n";
    let fields = entity_fields_from_source(source);
    assert_eq!(fields.len(), 2);
    let op = MigrationOperation::CreateTable("posts".to_string());
    let up = op.up_sql(&fields);
    assert!(up.contains("DEFINE FIELD title ON posts TYPE string;"));
    assert!(!up.contains("DEFINE FIELD title ON posts TYPE int;"));
}

#[test]
fn migration_plan_holds_paths_contents_and_version() {
    let plan = execute_migration("create users", "").unwrap();
    assert_eq!(plan.filename, "create_users");
    assert_eq!(plan.up_path, "database/schema/create_users.up.surql");
    assert_eq!(plan.down_path, "database/schema/create_users.down.surql");
    assert_eq!(plan.rust_path, "backend/src/migrations/create_users.rs");
    assert!(plan.up_content.starts_with("DEFINE TABLE users SCHEMAFULL;"));
    assert_eq!(plan.down_content, "REMOVE TABLE users;");
    assert!(plan.rust_content.contains("pub struct CreateUsers;"));
    assert!(plan.rust_content.contains("impl Migration for CreateUsers {"));
    assert!(plan.rust_content.contains("\"database/schema/create_users.up.surql\""));
    assert!(plan.rust_content.contains("\"database/schema/create_users.down.surql\""));
    assert!(plan.rust_content.contains(&format!("\"{}\"", plan.version)));
    assert_eq!(plan.version.len(), 14);
    assert!(plan.version.chars().all(|c| c.is_ascii_digit()));
}

#[test]
fn create_table_entity_source_path_singularizes() {
    let op = MigrationOperation::from_name("create users").unwrap();
    assert_eq!(op.entity_source_path().unwrap(), "backend/src/entities/user.rs");
    let op = MigrationOperation::AddColumn("users".into(), "email".into(), "String".into());
    assert!(op.entity_source_path().is_none());
}

#[test]
fn listing_requires_the_migrations_directory() {
    let err = list_migrations(false, &Vec::new()).unwrap_err();
    assert_eq!(err, "No migrations directory found");
    assert_eq!(execute_pending_migrations(false).unwrap_err(), "No migrations directory found");
    assert_eq!(rollback_migrations(false, 2).unwrap_err(), "No migrations directory found");
    assert!(execute_pending_migrations(true).is_ok());
    assert!(rollback_migrations(true, 1).is_ok());
}

#[test]
fn listing_filters_the_aggregator_and_sorts() {
    let names: Vec<String> = ["mod.rs", "b_second.rs", "notes.txt", "a_first.rs", "c_third.rs"]
        .iter()
        .map(|s| s.to_string())
        .collect();
    let listed = list_migrations(true, &names).unwrap();
    assert_eq!(listed, vec!["a_first.rs", "b_second.rs", "c_third.rs"]);
}
