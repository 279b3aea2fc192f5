//! Fixed scaffolding templates: the backend manifest and entry point, the
//! environment file, the container orchestration file, the frontend package
//! stub, and the backend directory tree. All pure text from a project name.
use vstd::prelude::*;

verus! {

/// The manifest text of a scaffolded backend, named after the project.
pub open spec fn spec_cargo_toml_template(project_name: Seq<char>) -> Seq<char> {
    "[package]\nname = \""@ + project_name
        + "_backend\"\nversion = \"0.1.0\"\nedition = \"2021\"\n\n[dependencies]\ntokio = { version = \"1.0\", features = [\"full\"] }\naxum = { version = \"0.7\", features = [\"macros\"] }\nasync-graphql = { version = \"7.0\", features = [\"chrono\"] }\nasync-graphql-axum = \"7.0\"\nsurrealdb = { version = \"1.0.0\" }\nserde = { version = \"1.0\", features = [\"derive\"] }\nserde_json = \"1.0\"\ntower = \"0.4\"\ntower-http = { version = \"0.5\", features = [\"cors\"] }\ndotenvy = \"0.15\"\ntracing = \"0.1\"\ntracing-subscriber = { version = \"0.3\", features = [\"env-filter\"] }\nthiserror = \"1.0\"\nchrono = { version = \"0.4\", features = [\"serde\"] }\nvalidator = { version = \"0.16\", features = [\"derive\"] }"@
}

/// Renders the backend manifest for a project name.
pub fn get_cargo_toml_template(project_name: &str) -> (r: String)
    ensures
        r@ == spec_cargo_toml_template(project_name@),
{
    let mut out = String::from_str("[package]\nname = \"");
    out.append(project_name);
    out.append(
        "_backend\"\nversion = \"0.1.0\"\nedition = \"2021\"\n\n[dependencies]\ntokio = { version = \"1.0\", features = [\"full\"] }\naxum = { version = \"0.7\", features = [\"macros\"] }\nasync-graphql = { version = \"7.0\", features = [\"chrono\"] }\nasync-graphql-axum = \"7.0\"\nsurrealdb = { version = \"1.0.0\" }\nserde = { version = \"1.0\", features = [\"derive\"] }\nserde_json = \"1.0\"\ntower = \"0.4\"\ntower-http = { version = \"0.5\", features = [\"cors\"] }\ndotenvy = \"0.15\"\ntracing = \"0.1\"\ntracing-subscriber = { version = \"0.3\", features = [\"env-filter\"] }\nthiserror = \"1.0\"\nchrono = { version = \"0.4\", features = [\"serde\"] }\nvalidator = { version = \"0.16\", features = [\"derive\"] }",
    );
    out
}

/// The entry-point source of a scaffolded backend, a fixed text.
pub open spec fn spec_main_rs_template() -> Seq<char> {
    "mod db;\nmod graphql;\nmod entities;\nmod repositories;\nmod services;\nmod utils;\n\nuse async_graphql::{EmptySubscription, Schema};\nuse async_graphql_axum::GraphQLHandler;\nuse axum::{\n    routing::get,\n    Router,\n};\n\n#[tokio::main]\nasync fn main() {\n    // Initialize tracing\n    tracing_subscriber::fmt::init();\n\n    // Load environment variables\n    dotenvy::dotenv().ok();\n\n    // Build our GraphQL schema\n    let schema = Schema::new(\n        graphql::QueryRoot::default(),\n        graphql::MutationRoot::default(),\n        EmptySubscription,\n    );\n\n    // Build our application with routes\n    let app = Router::new()\n        .route(\"/\", get(|| async { \"Nebulis Backend API\" }))\n        .route(\"/graphql\",\n            get(GraphQLHandler::new(schema.clone()))\n            .post(GraphQLHandler::new(schema))\n        );\n\n    // Run our application\n    let listener = tokio::net::TcpListener::bind(\"0.0.0.0:3000\")\n        .await\n        .unwrap();\n    println!(\"Server running on http://localhost:3000\");\n    axum::serve(listener, app).await.unwrap();\n}"@
}

/// Returns the fixed backend entry-point source.
pub fn get_main_rs_template() -> (r: String)
    ensures
        r@ == spec_main_rs_template(),
{
    String::from_str(
        "mod db;\nmod graphql;\nmod entities;\nmod repositories;\nmod services;\nmod utils;\n\nuse async_graphql::{EmptySubscription, Schema};\nuse async_graphql_axum::GraphQLHandler;\nuse axum::{\n    routing::get,\n    Router,\n};\n\n#[tokio::main]\nasync fn main() {\n    // Initialize tracing\n    tracing_subscriber::fmt::init();\n\n    // Load environment variables\n    dotenvy::dotenv().ok();\n\n    // Build our GraphQL schema\n    let schema = Schema::new(\n        graphql::QueryRoot::default(),\n        graphql::MutationRoot::default(),\n        EmptySubscription,\n    );\n\n    // Build our application with routes\n    let app = Router::new()\n        .route(\"/\", get(|| async { \"Nebulis Backend API\" }))\n        .route(\"/graphql\",\n            get(GraphQLHandler::new(schema.clone()))\n            .post(GraphQLHandler::new(schema))\n        );\n\n    // Run our application\n    let listener = tokio::net::TcpListener::bind(\"0.0.0.0:3000\")\n        .await\n        .unwrap();\n    println!(\"Server running on http://localhost:3000\");\n    axum::serve(listener, app).await.unwrap();\n}",
    )
}

/// The environment file of a scaffolded backend, a fixed text.
pub open spec fn spec_env_template() -> Seq<char> {
    "# Database Configuration\nDATABASE_URL=\"ws://localhost:8000\"\nDB_USER=\"root\"\nDB_PASS=\"root\"\nDB_NAMESPACE=\"test\"\nDB_DATABASE=\"test\"\n\n# Server Configuration\nPORT=3000\nHOST=\"0.0.0.0\"\n\n# Environment\nRUST_ENV=\"development\"\n"@
}

/// Returns the fixed environment-file text.
pub fn get_env_template() -> (r: String)
    ensures
        r@ == spec_env_template(),
{
    String::from_str(
        "# Database Configuration\nDATABASE_URL=\"ws://localhost:8000\"\nDB_USER=\"root\"\nDB_PASS=\"root\"\nDB_NAMESPACE=\"test\"\nDB_DATABASE=\"test\"\n\n# Server Configuration\nPORT=3000\nHOST=\"0.0.0.0\"\n\n# Environment\nRUST_ENV=\"development\"\n",
    )
}

/// The container orchestration file, named after the project twice: once for
/// the database container, once for the network.
pub open spec fn spec_docker_compose_content(project_name: Seq<char>) -> Seq<char> {
    "version: '3.8'\n\nservices:\nsurrealdb:\n  image: surrealdb/surrealdb:latest\n  container_name: "@
        + project_name
        + "_db\n  ports:\n    - \"8000:8000\"\n  volumes:\n    - ./database:/data\n  command: start --user root --pass root file:/data/database.db\n  healthcheck:\n    test: [\"CMD\", \"curl\", \"-f\", \"http://localhost:8000/health\"]\n    interval: 30s\n    timeout: 10s\n    retries: 3\n\nnetworks:\ndefault:\n  name: "@
        + project_name + "_network"@
}

/// Renders the container orchestration file for a project name.
pub fn get_docker_compose_content(project_name: &str) -> (r: String)
    ensures
        r@ == spec_docker_compose_content(project_name@),
{
    let mut out = String::from_str(
        "version: '3.8'\n\nservices:\nsurrealdb:\n  image: surrealdb/surrealdb:latest\n  container_name: ",
    );
    out.append(project_name);
    out.append(
        "_db\n  ports:\n    - \"8000:8000\"\n  volumes:\n    - ./database:/data\n  command: start --user root --pass root file:/data/database.db\n  healthcheck:\n    test: [\"CMD\", \"curl\", \"-f\", \"http://localhost:8000/health\"]\n    interval: 30s\n    timeout: 10s\n    retries: 3\n\nnetworks:\ndefault:\n  name: ",
    );
    out.append(project_name);
    out.append("_network");
    out
}

/// The frontend package stub, named after the project.
pub open spec fn spec_package_json_template(project_name: Seq<char>) -> Seq<char> {
    "{\n  \"name\": \""@ + project_name
        + "_frontend\",\n  \"private\": true,\n  \"sideEffects\": false,\n  \"type\": \"module\",\n  \"scripts\": {\n    \"build\": \"remix build\",\n    \"dev\": \"remix dev\",\n    \"start\": \"remix-serve build/index.js\",\n    \"typecheck\": \"tsc\"\n  },\n  \"dependencies\": {\n    \"@remix-run/css-bundle\": \"^2.5.0\",\n    \"@remix-run/deno\": \"^2.5.0\",\n    \"@remix-run/react\": \"^2.5.0\",\n    \"react\": \"^18.2.0\",\n    \"react-dom\": \"^18.2.0\",\n    \"urql\": \"^4.0.0\"\n  },\n  \"devDependencies\": {\n    \"@remix-run/dev\": \"^2.5.0\",\n    \"@types/react\": \"^18.2.0\",\n    \"@types/react-dom\": \"^18.2.0\",\n    \"typescript\": \"^5.1.0\"\n  },\n  \"engines\": {\n    \"node\": \">=18.0.0\"\n  }\n}"@
}

/// Renders the frontend package stub for a project name.
pub fn get_package_json_template(project_name: &str) -> (r: String)
    ensures
        r@ == spec_package_json_template(project_name@),
{
    let mut out = String::from_str("{\n  \"name\": \"");
    out.append(project_name);
    out.append(
        "_frontend\",\n  \"private\": true,\n  \"sideEffects\": false,\n  \"type\": \"module\",\n  \"scripts\": {\n    \"build\": \"remix build\",\n    \"dev\": \"remix dev\",\n    \"start\": \"remix-serve build/index.js\",\n    \"typecheck\": \"tsc\"\n  },\n  \"dependencies\": {\n    \"@remix-run/css-bundle\": \"^2.5.0\",\n    \"@remix-run/deno\": \"^2.5.0\",\n    \"@remix-run/react\": \"^2.5.0\",\n    \"react\": \"^18.2.0\",\n    \"react-dom\": \"^18.2.0\",\n    \"urql\": \"^4.0.0\"\n  },\n  \"devDependencies\": {\n    \"@remix-run/dev\": \"^2.5.0\",\n    \"@types/react\": \"^18.2.0\",\n    \"@types/react-dom\": \"^18.2.0\",\n    \"typescript\": \"^5.1.0\"\n  },\n  \"engines\": {\n    \"node\": \">=18.0.0\"\n  }\n}",
    );
    out
}

/// The directories a scaffolded backend holds, under its root path.
pub open spec fn spec_backend_directories(base: Seq<char>) -> Seq<Seq<char>> {
    seq![
        base + "/"@ + "src/graphql/mutations"@,
        base + "/"@ + "src/graphql/queries"@,
        base + "/"@ + "src/graphql/types"@,
        base + "/"@ + "src/graphql/scalars"@,
        base + "/"@ + "src/migrations"@,
        base + "/"@ + "src/entities"@,
        base + "/"@ + "src/repositories"@,
        base + "/"@ + "src/services"@,
        base + "/"@ + "src/utils"@,
    ]
}

fn joined_dir(base: &str, dir: &str) -> (r: String)
    ensures
        r@ == base@ + "/"@ + dir@,
{
    let mut out = String::from_str(base);
    out.append("/");
    out.append(dir);
    out
}

/// The directory paths a scaffolded backend needs, in creation order.
pub fn backend_directories(backend_path: &str) -> (r: Vec<String>)
    ensures
        r.deep_view() == spec_backend_directories(backend_path@),
{
    let mut r: Vec<String> = Vec::new();
    r.push(joined_dir(backend_path, "src/graphql/mutations"));
    r.push(joined_dir(backend_path, "src/graphql/queries"));
    r.push(joined_dir(backend_path, "src/graphql/types"));
    r.push(joined_dir(backend_path, "src/graphql/scalars"));
    r.push(joined_dir(backend_path, "src/migrations"));
    r.push(joined_dir(backend_path, "src/entities"));
    r.push(joined_dir(backend_path, "src/repositories"));
    r.push(joined_dir(backend_path, "src/services"));
    r.push(joined_dir(backend_path, "src/utils"));
    proof {
        assert(r.deep_view() =~~= spec_backend_directories(backend_path@));
    }
    r
}

} // verus!
