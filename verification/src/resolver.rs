//! Resolver emission: renders the five generated operation stubs for an
//! entity — get by id, list with pagination, create, update, delete — each
//! delegating to a correspondingly named service abstraction.
use crate::names::{lower_of, pascal_of, to_lower, to_pascal_case};
use vstd::prelude::*;

verus! {

/// The head of the resolver artifact: imports, the resolver type, and the
/// get-by-id and list stubs.
pub open spec fn spec_resolver_head(name: Seq<char>) -> Seq<char> {
    let l = lower_of(name);
    let p = pascal_of(name);
    "use async_graphql::{Context, Object, Result, ID};\nuse crate::entities::"@ + l + "::"@ + p
        + ";\nuse crate::services::"@ + l + "::"@ + p
        + "Service;\n\n#[derive(Default)]\npub struct "@ + p + ";\n\n#[Object]\nimpl "@ + p
        + " {\n    async fn get_"@ + l + "(&self, ctx: &Context<'_>, id: ID) -> Result<Option<"@
        + p + ">> {\n        let service = "@ + p
        + "Service::new(ctx.data()?);\n        service.find_by_id(&id).await\n    }\n\n    async fn list_"@
        + l + "s(\n        &self,\n        ctx: &Context<'_>,\n        limit: Option<i32>,\n        offset: Option<i32>\n    ) -> Result<Vec<"@
        + p + ">> {\n        let service = "@ + p
        + "Service::new(ctx.data()?);\n        service.find_all(limit, offset).await\n    }\n\n    async fn create_"@
}

/// The tail of the resolver artifact: the create, update, and delete stubs.
pub open spec fn spec_resolver_tail(name: Seq<char>) -> Seq<char> {
    let l = lower_of(name);
    let p = pascal_of(name);
    l + "(\n        &self,\n        ctx: &Context<'_>,\n        input: "@ + p
        + "Input\n    ) -> Result<"@ + p + "> {\n        let service = "@ + p
        + "Service::new(ctx.data()?);\n        service.create(input).await\n    }\n\n    async fn update_"@
        + l + "(\n        &self,\n        ctx: &Context<'_>,\n        id: ID,\n        input: "@
        + p + "Input\n    ) -> Result<"@ + p + "> {\n        let service = "@ + p
        + "Service::new(ctx.data()?);\n        service.update(&id, input).await\n    }\n\n    async fn delete_"@
        + l + "(\n        &self,\n        ctx: &Context<'_>,\n        id: ID\n    ) -> Result<bool> {\n        let service = "@
        + p + "Service::new(ctx.data()?);\n        service.delete(&id).await\n    }\n}\n"@
}

/// The whole resolver artifact for an entity name.
pub open spec fn spec_resolver_content(name: Seq<char>) -> Seq<char> {
    spec_resolver_head(name) + spec_resolver_tail(name)
}

#[verifier::rlimit(100)]
fn render_resolver_head(l: &str, p: &str) -> (out: String)
    ensures
        out@ == "use async_graphql::{Context, Object, Result, ID};\nuse crate::entities::"@ + l@
            + "::"@ + p@ + ";\nuse crate::services::"@ + l@ + "::"@ + p@
            + "Service;\n\n#[derive(Default)]\npub struct "@ + p@ + ";\n\n#[Object]\nimpl "@ + p@
            + " {\n    async fn get_"@ + l@
            + "(&self, ctx: &Context<'_>, id: ID) -> Result<Option<"@ + p@
            + ">> {\n        let service = "@ + p@
            + "Service::new(ctx.data()?);\n        service.find_by_id(&id).await\n    }\n\n    async fn list_"@
            + l@ + "s(\n        &self,\n        ctx: &Context<'_>,\n        limit: Option<i32>,\n        offset: Option<i32>\n    ) -> Result<Vec<"@
            + p@ + ">> {\n        let service = "@ + p@
            + "Service::new(ctx.data()?);\n        service.find_all(limit, offset).await\n    }\n\n    async fn create_"@,
{
    let mut out = String::from_str("use async_graphql::{Context, Object, Result, ID};\nuse crate::entities::");
    out.append(l);
    out.append("::");
    out.append(p);
    out.append(";\nuse crate::services::");
    out.append(l);
    out.append("::");
    out.append(p);
    out.append("Service;\n\n#[derive(Default)]\npub struct ");
    out.append(p);
    out.append(";\n\n#[Object]\nimpl ");
    out.append(p);
    out.append(" {\n    async fn get_");
    out.append(l);
    out.append("(&self, ctx: &Context<'_>, id: ID) -> Result<Option<");
    out.append(p);
    out.append(">> {\n        let service = ");
    out.append(p);
    out.append(
        "Service::new(ctx.data()?);\n        service.find_by_id(&id).await\n    }\n\n    async fn list_",
    );
    out.append(l);
    out.append(
        "s(\n        &self,\n        ctx: &Context<'_>,\n        limit: Option<i32>,\n        offset: Option<i32>\n    ) -> Result<Vec<",
    );
    out.append(p);
    out.append(">> {\n        let service = ");
    out.append(p);
    out.append(
        "Service::new(ctx.data()?);\n        service.find_all(limit, offset).await\n    }\n\n    async fn create_",
    );
    out
}

#[verifier::rlimit(100)]
fn render_resolver_tail(l: &str, p: &str) -> (out: String)
    ensures
        out@ == l@ + "(\n        &self,\n        ctx: &Context<'_>,\n        input: "@ + p@
            + "Input\n    ) -> Result<"@ + p@ + "> {\n        let service = "@ + p@
            + "Service::new(ctx.data()?);\n        service.create(input).await\n    }\n\n    async fn update_"@
            + l@ + "(\n        &self,\n        ctx: &Context<'_>,\n        id: ID,\n        input: "@
            + p@ + "Input\n    ) -> Result<"@ + p@ + "> {\n        let service = "@ + p@
            + "Service::new(ctx.data()?);\n        service.update(&id, input).await\n    }\n\n    async fn delete_"@
            + l@ + "(\n        &self,\n        ctx: &Context<'_>,\n        id: ID\n    ) -> Result<bool> {\n        let service = "@
            + p@ + "Service::new(ctx.data()?);\n        service.delete(&id).await\n    }\n}\n"@,
{
    let mut out = String::from_str(l);
    out.append("(\n        &self,\n        ctx: &Context<'_>,\n        input: ");
    out.append(p);
    out.append("Input\n    ) -> Result<");
    out.append(p);
    out.append("> {\n        let service = ");
    out.append(p);
    out.append(
        "Service::new(ctx.data()?);\n        service.create(input).await\n    }\n\n    async fn update_",
    );
    out.append(l);
    out.append("(\n        &self,\n        ctx: &Context<'_>,\n        id: ID,\n        input: ");
    out.append(p);
    out.append("Input\n    ) -> Result<");
    out.append(p);
    out.append("> {\n        let service = ");
    out.append(p);
    out.append(
        "Service::new(ctx.data()?);\n        service.update(&id, input).await\n    }\n\n    async fn delete_",
    );
    out.append(l);
    out.append("(\n        &self,\n        ctx: &Context<'_>,\n        id: ID\n    ) -> Result<bool> {\n        let service = ");
    out.append(p);
    out.append("Service::new(ctx.data()?);\n        service.delete(&id).await\n    }\n}\n");
    out
}

/// Renders the resolver artifact with its five operation stubs.
pub fn generate_resolver_content(name: &str) -> (r: String)
    ensures
        r@ == spec_resolver_content(name@),
{
    let l = to_lower(name);
    let p = to_pascal_case(name);
    let mut out = render_resolver_head(l.as_str(), p.as_str());
    let tail = render_resolver_tail(l.as_str(), p.as_str());
    proof {
        assert(out@ == spec_resolver_head(name@));
        assert(tail@ == spec_resolver_tail(name@));
    }
    out.append(tail.as_str());
    out
}

/// Everything one resolver generation writes directly: the artifact path and
/// text.
#[derive(Debug)]
pub struct ResolverPlan {
    pub resolver_path: String,
    pub resolver_content: String,
    pub module_name: String,
}

/// Path of the resolver artifact for an entity name.
pub open spec fn spec_resolver_path(name: Seq<char>) -> Seq<char> {
    "backend/src/graphql/resolvers/"@ + lower_of(name) + ".rs"@
}

/// Computes a resolver generation: checks the project-root marker, then
/// renders the artifact. Succeeds exactly when the marker directory exists;
/// nothing is written here.
pub fn execute_resolver(project_root_exists: bool, name: &str) -> (r: Result<ResolverPlan, String>)
    ensures
        r is Ok <==> project_root_exists,
        r is Err ==> r->Err_0@ == "Not in a Nebulis project directory"@,
        r is Ok ==> r->Ok_0.resolver_path@ == spec_resolver_path(name@),
        r is Ok ==> r->Ok_0.resolver_content@ == spec_resolver_content(name@),
        r is Ok ==> r->Ok_0.module_name@ == lower_of(name@),
{
    if !project_root_exists {
        return Err(String::from_str("Not in a Nebulis project directory"));
    }
    let content = generate_resolver_content(name);
    let l = to_lower(name);
    let mut path = String::from_str("backend/src/graphql/resolvers/");
    path.append(l.as_str());
    path.append(".rs");
    proof {
        assert(path@ =~= spec_resolver_path(name@));
    }
    Ok(ResolverPlan { resolver_path: path, resolver_content: content, module_name: l })
}

} // verus!
