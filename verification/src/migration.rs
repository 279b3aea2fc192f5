//! Migration generation: inferring a structured schema operation from a
//! migration name, and rendering its forward and backward schema statements.
//! The forward rendering of a create-table operation re-derives entity fields
//! from previously generated entity source text through a restricted pattern
//! extractor; everything downstream of that extraction is verified.
use crate::dsl::{FieldV, FieldValidationV, spec_default_validation, Field, FieldValidation};
use crate::names::{
    lower_of, pascal_of, snake_of, spec_pluralize, spec_storage_type, storage_type, pluralize,
    to_lower, to_snake_case,
};
use crate::strutil::{spec_join, spec_split, spec_trim, split_char, str_eq, trim_str};
use vstd::prelude::*;

verus! {

/// A structured schema-change operation, inferred once from a migration's
/// name and immutable afterward.
#[derive(Debug)]
pub enum MigrationOperation {
    /// Table to create.
    CreateTable(String),
    /// Table, column, declared type.
    AddColumn(String, String, String),
    /// Table, column.
    RemoveColumn(String, String),
    /// Table, old column name, new column name.
    RenameColumn(String, String, String),
    /// Table, indexed columns.
    AddIndex(String, Vec<String>),
    /// Source table, target table, relation kind.
    AddRelation(String, String, String),
}

/// Mathematical model of a `MigrationOperation`.
pub ghost enum MigrationOperationV {
    CreateTable(Seq<char>),
    AddColumn(Seq<char>, Seq<char>, Seq<char>),
    RemoveColumn(Seq<char>, Seq<char>),
    RenameColumn(Seq<char>, Seq<char>, Seq<char>),
    AddIndex(Seq<char>, Seq<Seq<char>>),
    AddRelation(Seq<char>, Seq<char>, Seq<char>),
}

impl View for MigrationOperation {
    type V = MigrationOperationV;

    open spec fn view(&self) -> MigrationOperationV {
        match self {
            MigrationOperation::CreateTable(t) => MigrationOperationV::CreateTable(t@),
            MigrationOperation::AddColumn(t, c, ty) => MigrationOperationV::AddColumn(
                t@,
                c@,
                ty@,
            ),
            MigrationOperation::RemoveColumn(t, c) => MigrationOperationV::RemoveColumn(t@, c@),
            MigrationOperation::RenameColumn(t, o, n) => MigrationOperationV::RenameColumn(
                t@,
                o@,
                n@,
            ),
            MigrationOperation::AddIndex(t, cols) => MigrationOperationV::AddIndex(
                t@,
                cols.deep_view(),
            ),
            MigrationOperation::AddRelation(f, to, k) => MigrationOperationV::AddRelation(
                f@,
                to@,
                k@,
            ),
        }
    }
}

impl DeepView for MigrationOperation {
    type V = MigrationOperationV;

    open spec fn deep_view(&self) -> MigrationOperationV {
        self.view()
    }
}

// ---------------------------------------------------------------------------
// Name inference
// ---------------------------------------------------------------------------

/// The operation a normalized token sequence describes, by the first matching
/// shape; a single token names a table to create, pluralized naively.
pub open spec fn spec_infer_operation(toks: Seq<Seq<char>>) -> Option<MigrationOperationV> {
    if toks.len() == 2 && toks[0] == "create"@ {
        Some(MigrationOperationV::CreateTable(toks[1]))
    } else if toks.len() == 4 && toks[0] == "add"@ && toks[2] == "to"@ {
        Some(MigrationOperationV::AddColumn(toks[3], toks[1], "String"@))
    } else if toks.len() == 4 && toks[0] == "remove"@ && toks[2] == "from"@ {
        Some(MigrationOperationV::RemoveColumn(toks[3], toks[1]))
    } else if toks.len() == 6 && toks[0] == "rename"@ && toks[2] == "to"@ && toks[4] == "on"@ {
        Some(MigrationOperationV::RenameColumn(toks[5], toks[1], toks[3]))
    } else if toks.len() >= 5 && toks[0] == "add"@ && toks[1] == "index"@ && toks[2] == "on"@
        && toks[4] == "fields"@ {
        Some(MigrationOperationV::AddIndex(toks[3], toks.skip(5)))
    } else if toks.len() == 5 && toks[0] == "add"@ && toks[1] == "relation"@ && toks[3] == "to"@ {
        Some(MigrationOperationV::AddRelation(toks[2], toks[4], "BelongsTo"@))
    } else if toks.len() == 1 {
        Some(MigrationOperationV::CreateTable(spec_pluralize(toks[0])))
    } else {
        None
    }
}

/// The token sequence a migration name normalizes to: its snake_case
/// rendering split on underscores.
pub open spec fn spec_name_tokens(name: Seq<char>) -> Seq<Seq<char>> {
    spec_split(snake_of(name), '_')
}

/// Infers the schema operation a token sequence describes.
pub fn infer_operation(toks: &Vec<String>) -> (r: Option<MigrationOperation>)
    ensures
        match r {
            Some(op) => spec_infer_operation(toks.deep_view()) == Some(op@),
            None => spec_infer_operation(toks.deep_view()) is None,
        },
{
    let n = toks.len();
    proof {
        assert(forall|j: int| 0 <= j < toks@.len() ==> toks.deep_view()[j] == toks@[j]@);
    }
    if n == 2 && str_eq(toks[0].as_str(), "create") {
        Some(MigrationOperation::CreateTable(String::from_str(toks[1].as_str())))
    } else if n == 4 && str_eq(toks[0].as_str(), "add") && str_eq(toks[2].as_str(), "to") {
        Some(
            MigrationOperation::AddColumn(
                String::from_str(toks[3].as_str()),
                String::from_str(toks[1].as_str()),
                String::from_str("String"),
            ),
        )
    } else if n == 4 && str_eq(toks[0].as_str(), "remove") && str_eq(toks[2].as_str(), "from") {
        Some(
            MigrationOperation::RemoveColumn(
                String::from_str(toks[3].as_str()),
                String::from_str(toks[1].as_str()),
            ),
        )
    } else if n == 6 && str_eq(toks[0].as_str(), "rename") && str_eq(toks[2].as_str(), "to")
        && str_eq(toks[4].as_str(), "on") {
        Some(
            MigrationOperation::RenameColumn(
                String::from_str(toks[5].as_str()),
                String::from_str(toks[1].as_str()),
                String::from_str(toks[3].as_str()),
            ),
        )
    } else if n >= 5 && str_eq(toks[0].as_str(), "add") && str_eq(toks[1].as_str(), "index")
        && str_eq(toks[2].as_str(), "on") && str_eq(toks[4].as_str(), "fields") {
        let mut cols: Vec<String> = Vec::new();
        let mut i: usize = 5;
        proof {
            assert(cols.deep_view() =~~= toks.deep_view().skip(5).take(0));
        }
        while i < n
            invariant
                5 <= i <= n,
                n == toks@.len(),
                cols.deep_view() =~~= toks.deep_view().skip(5).take(i - 5),
            decreases n - i,
        {
            let ghost c0 = cols.deep_view();
            cols.push(String::from_str(toks[i].as_str()));
            proof {
                assert(cols.deep_view() =~~= c0.push(toks@[i as int]@));
                assert(toks.deep_view().skip(5)[i - 5] == toks.deep_view()[i as int]);
                assert(toks.deep_view().skip(5).take(i - 5 + 1) =~~= toks.deep_view().skip(
                    5,
                ).take(i - 5).push(toks.deep_view().skip(5)[i - 5]));
            }
            i += 1;
        }
        proof {
            assert(toks.deep_view().skip(5).take(n - 5) =~~= toks.deep_view().skip(5));
        }
        Some(MigrationOperation::AddIndex(String::from_str(toks[3].as_str()), cols))
    } else if n == 5 && str_eq(toks[0].as_str(), "add") && str_eq(toks[1].as_str(), "relation")
        && str_eq(toks[3].as_str(), "to") {
        Some(
            MigrationOperation::AddRelation(
                String::from_str(toks[2].as_str()),
                String::from_str(toks[4].as_str()),
                String::from_str("BelongsTo"),
            ),
        )
    } else if n == 1 {
        Some(MigrationOperation::CreateTable(pluralize(toks[0].as_str())))
    } else {
        None
    }
}

impl MigrationOperation {
    /// Infers the operation from a migration name: the name is normalized to
    /// snake_case, split on underscores, and matched against the recognized
    /// shapes in order.
    pub fn from_name(name: &str) -> (r: Option<MigrationOperation>)
        ensures
            match r {
                Some(op) => spec_infer_operation(spec_name_tokens(name@)) == Some(op@),
                None => spec_infer_operation(spec_name_tokens(name@)) is None,
            },
    {
        let snake = to_snake_case(name);
        let toks = split_char(snake.as_str(), '_');
        infer_operation(&toks)
    }
}

// ---------------------------------------------------------------------------
// Backward (down) rendering
// ---------------------------------------------------------------------------

/// The backward schema statements of an operation, rendered from its tuple
/// alone. A created table is dropped with one remove-table statement naming
/// the lowercased table, whatever fields exist.
pub open spec fn spec_down_sql(op: MigrationOperationV) -> Seq<char> {
    match op {
        MigrationOperationV::CreateTable(name) => "REMOVE TABLE "@ + lower_of(name) + ";"@,
        MigrationOperationV::AddColumn(t, c, _ty) => "REMOVE FIELD "@ + lower_of(c) + " ON "@
            + lower_of(t) + ";"@,
        MigrationOperationV::RemoveColumn(t, c) => "DEFINE FIELD "@ + lower_of(c) + " ON "@
            + lower_of(t) + " TYPE string;"@,
        MigrationOperationV::RenameColumn(t, o, n) => "DEFINE FIELD "@ + lower_of(o) + " ON "@
            + lower_of(t) + " TYPE string;\nUPDATE "@ + lower_of(t) + " SET "@ + lower_of(o)
            + " = "@ + lower_of(n) + ";\nREMOVE FIELD "@ + lower_of(n) + " ON "@ + lower_of(t)
            + ";"@,
        MigrationOperationV::AddIndex(t, cols) => "REMOVE INDEX idx_"@ + lower_of(t) + "_"@
            + lower_of(spec_join(cols, "_"@)) + " ON "@ + lower_of(t) + ";"@,
        MigrationOperationV::AddRelation(f, to, _k) => "REMOVE FIELD "@ + lower_of(to)
            + "_id ON "@ + lower_of(f) + ";\nREMOVE INDEX idx_"@ + lower_of(f) + "_"@ + lower_of(
            to,
        ) + " ON "@ + lower_of(f) + ";"@,
    }
}

impl MigrationOperation {
    /// Renders the backward schema statements.
    pub fn down_sql(&self) -> (r: String)
        ensures
            r@ == spec_down_sql(self@),
    {
        match self {
            MigrationOperation::CreateTable(name) => {
                let mut out = String::from_str("REMOVE TABLE ");
                let l = to_lower(name.as_str());
                out.append(l.as_str());
                out.append(";");
                proof {
                    assert(out@ =~= spec_down_sql(self@));
                }
                out
            },
            MigrationOperation::AddColumn(t, c, _ty) => {
                let mut out = String::from_str("REMOVE FIELD ");
                let cl = to_lower(c.as_str());
                let tl = to_lower(t.as_str());
                out.append(cl.as_str());
                out.append(" ON ");
                out.append(tl.as_str());
                out.append(";");
                proof {
                    assert(out@ =~= spec_down_sql(self@));
                }
                out
            },
            MigrationOperation::RemoveColumn(t, c) => {
                let mut out = String::from_str("DEFINE FIELD ");
                let cl = to_lower(c.as_str());
                let tl = to_lower(t.as_str());
                out.append(cl.as_str());
                out.append(" ON ");
                out.append(tl.as_str());
                out.append(" TYPE string;");
                proof {
                    assert(out@ =~= spec_down_sql(self@));
                }
                out
            },
            MigrationOperation::RenameColumn(t, o, n) => {
                let tl = to_lower(t.as_str());
                let ol = to_lower(o.as_str());
                let nl = to_lower(n.as_str());
                let mut out = String::from_str("DEFINE FIELD ");
                out.append(ol.as_str());
                out.append(" ON ");
                out.append(tl.as_str());
                out.append(" TYPE string;\nUPDATE ");
                out.append(tl.as_str());
                out.append(" SET ");
                out.append(ol.as_str());
                out.append(" = ");
                out.append(nl.as_str());
                out.append(";\nREMOVE FIELD ");
                out.append(nl.as_str());
                out.append(" ON ");
                out.append(tl.as_str());
                out.append(";");
                proof {
                    assert(out@ =~= spec_down_sql(self@));
                }
                out
            },
            MigrationOperation::AddIndex(t, cols) => {
                let tl = to_lower(t.as_str());
                let joined = crate::strutil::join_strings(cols, "_");
                let jl = to_lower(joined.as_str());
                let mut out = String::from_str("REMOVE INDEX idx_");
                out.append(tl.as_str());
                out.append("_");
                out.append(jl.as_str());
                out.append(" ON ");
                out.append(tl.as_str());
                out.append(";");
                proof {
                    assert(out@ =~= spec_down_sql(self@));
                }
                out
            },
            MigrationOperation::AddRelation(f, to, _k) => {
                let fl = to_lower(f.as_str());
                let tol = to_lower(to.as_str());
                let mut out = String::from_str("REMOVE FIELD ");
                out.append(tol.as_str());
                out.append("_id ON ");
                out.append(fl.as_str());
                out.append(";\nREMOVE INDEX idx_");
                out.append(fl.as_str());
                out.append("_");
                out.append(tol.as_str());
                out.append(" ON ");
                out.append(fl.as_str());
                out.append(";");
                proof {
                    assert(out@ =~= spec_down_sql(self@));
                }
                out
            },
        }
    }
}

// ---------------------------------------------------------------------------
// Forward (up) rendering
// ---------------------------------------------------------------------------

/// A field declaration statement within a table definition.
pub open spec fn spec_field_line(name: Seq<char>, ty: Seq<char>, t: Seq<char>) -> Seq<char> {
    "DEFINE FIELD "@ + name + " ON "@ + t + " TYPE "@ + spec_storage_type(ty) + ";"@
}

/// Some field in the list carries the name `n`.
pub open spec fn contains_field_name(fields: Seq<FieldV>, n: Seq<char>) -> bool {
    exists|j: int| 0 <= j < fields.len() && fields[j].name == n
}

/// One declaration per field whose name was not seen before it, first
/// occurrence winning; `seen` starts out holding the primary-key name.
pub open spec fn spec_field_lines(
    fields: Seq<FieldV>,
    seen: Set<Seq<char>>,
    t: Seq<char>,
) -> Seq<Seq<char>>
    decreases fields.len(),
{
    if fields.len() == 0 {
        seq![]
    } else {
        let f = fields[0];
        let rest = spec_field_lines(fields.drop_first(), seen.insert(f.name), t);
        if seen.contains(f.name) {
            rest
        } else {
            seq![spec_field_line(f.name, f.ty, t)] + rest
        }
    }
}

/// A system timestamp field declaration.
pub open spec fn spec_ts_field_line(f: Seq<char>, t: Seq<char>) -> Seq<char> {
    "DEFINE FIELD "@ + f + " ON "@ + t + " TYPE datetime VALUE $before OR time::now();"@
}

/// The system timestamp declarations, skipping any name an entity field
/// already took.
pub open spec fn spec_ts_lines(fields: Seq<FieldV>, t: Seq<char>) -> Seq<Seq<char>> {
    (if !contains_field_name(fields, "created_at"@) {
        seq![spec_ts_field_line("created_at"@, t)]
    } else {
        Seq::<Seq<char>>::empty()
    }) + (if !contains_field_name(fields, "updated_at"@) {
        seq![spec_ts_field_line("updated_at"@, t)]
    } else {
        Seq::<Seq<char>>::empty()
    }) + (if !contains_field_name(fields, "deleted_at"@) {
        seq![spec_ts_field_line("deleted_at"@, t)]
    } else {
        Seq::<Seq<char>>::empty()
    })
}

/// A timestamp index declaration: the index is named after the bare word, the
/// indexed field carries the `_at` suffix.
pub open spec fn spec_ts_index_line(f: Seq<char>, t: Seq<char>) -> Seq<char> {
    "DEFINE INDEX idx_"@ + t + "_"@ + f + " ON "@ + t + " FIELDS "@ + f + "_at;"@
}

/// The lines of a create-table rendering, in fixed order: table declaration,
/// primary key, entity fields (first occurrence of each name), system
/// timestamps (skipping names taken by fields), then the primary-key and
/// timestamp indexes, whose four names never collide.
pub open spec fn spec_create_table_lines(name: Seq<char>, fields: Seq<FieldV>) -> Seq<Seq<char>> {
    let t = lower_of(name);
    seq![
        "DEFINE TABLE "@ + t + " SCHEMAFULL;"@,
        Seq::<char>::empty(),
        "// Champs système"@,
        "DEFINE FIELD id ON "@ + t + " TYPE ulid;"@,
        Seq::<char>::empty(),
        "// Champs de l'entité"@,
    ] + spec_field_lines(fields, set!["id"@], t) + seq![
        Seq::<char>::empty(),
        "// Champs de timestamps"@,
    ] + spec_ts_lines(fields, t) + seq![
        Seq::<char>::empty(),
        "// Indexes"@,
        "DEFINE INDEX idx_"@ + t + "_id ON "@ + t + " FIELDS id;"@,
        spec_ts_index_line("created"@, t),
        spec_ts_index_line("updated"@, t),
        spec_ts_index_line("deleted"@, t),
    ]
}

/// The forward schema statements of an operation. A create-table operation
/// renders its line list joined with newlines; the other operations render
/// directly from their tuple and ignore the field list.
pub open spec fn spec_up_sql(op: MigrationOperationV, fields: Seq<FieldV>) -> Seq<char> {
    match op {
        MigrationOperationV::CreateTable(name) => spec_join(
            spec_create_table_lines(name, fields),
            "\n"@,
        ),
        MigrationOperationV::AddColumn(t, c, ty) => "DEFINE FIELD "@ + lower_of(c) + " ON "@
            + lower_of(t) + " TYPE "@ + lower_of(ty) + ";"@,
        MigrationOperationV::RemoveColumn(t, c) => "REMOVE FIELD "@ + lower_of(c) + " ON "@
            + lower_of(t) + ";"@,
        MigrationOperationV::RenameColumn(t, o, n) => "DEFINE FIELD "@ + lower_of(n) + " ON "@
            + lower_of(t) + " TYPE string;\nUPDATE "@ + lower_of(t) + " SET "@ + lower_of(n)
            + " = "@ + lower_of(o) + ";\nREMOVE FIELD "@ + lower_of(o) + " ON "@ + lower_of(t)
            + ";"@,
        MigrationOperationV::AddIndex(t, cols) => "DEFINE INDEX idx_"@ + lower_of(t) + "_"@
            + lower_of(spec_join(cols, "_"@)) + " ON "@ + lower_of(t) + " FIELDS "@ + spec_join(
            cols.map_values(|c: Seq<char>| lower_of(c)),
            ", "@,
        ) + ";"@,
        MigrationOperationV::AddRelation(f, to, _k) => "DEFINE FIELD "@ + lower_of(to)
            + "_id ON "@ + lower_of(f) + " TYPE record("@ + lower_of(to)
            + ");\nDEFINE INDEX idx_"@ + lower_of(f) + "_"@ + lower_of(to) + " ON "@ + lower_of(f)
            + " FIELDS "@ + lower_of(to) + "_id;"@,
    }
}

fn build_field_line(name: &str, ty: &str, t: &str) -> (r: String)
    ensures
        r@ == spec_field_line(name@, ty@, t@),
{
    let mut out = String::from_str("DEFINE FIELD ");
    out.append(name);
    out.append(" ON ");
    out.append(t);
    out.append(" TYPE ");
    out.append(storage_type(ty));
    out.append(";");
    proof {
        assert(out@ =~= spec_field_line(name@, ty@, t@));
    }
    out
}

fn build_ts_field_line(f: &str, t: &str) -> (r: String)
    ensures
        r@ == spec_ts_field_line(f@, t@),
{
    let mut out = String::from_str("DEFINE FIELD ");
    out.append(f);
    out.append(" ON ");
    out.append(t);
    out.append(" TYPE datetime VALUE $before OR time::now();");
    proof {
        assert(out@ =~= spec_ts_field_line(f@, t@));
    }
    out
}

fn build_ts_index_line(f: &str, t: &str) -> (r: String)
    ensures
        r@ == spec_ts_index_line(f@, t@),
{
    let mut out = String::from_str("DEFINE INDEX idx_");
    out.append(t);
    out.append("_");
    out.append(f);
    out.append(" ON ");
    out.append(t);
    out.append(" FIELDS ");
    out.append(f);
    out.append("_at;");
    proof {
        assert(out@ =~= spec_ts_index_line(f@, t@));
    }
    out
}

fn render_create_table(name: &str, fields: &Vec<Field>) -> (r: String)
    ensures
        r@ == spec_join(spec_create_table_lines(name@, fields.deep_view()), "\n"@),
{
    let t = to_lower(name);
    let ts = t.as_str();
    let ghost tv = lower_of(name@);
    let ghost fdv = fields.deep_view();
    let mut lines: Vec<String> = Vec::new();

    let mut l0 = String::from_str("DEFINE TABLE ");
    l0.append(ts);
    l0.append(" SCHEMAFULL;");
    lines.push(l0);
    lines.push(String::new());
    lines.push(String::from_str("// Champs système"));
    let mut l3 = String::from_str("DEFINE FIELD id ON ");
    l3.append(ts);
    l3.append(" TYPE ulid;");
    lines.push(l3);
    lines.push(String::new());
    lines.push(String::from_str("// Champs de l'entité"));

    let ghost head = seq![
        "DEFINE TABLE "@ + tv + " SCHEMAFULL;"@,
        Seq::<char>::empty(),
        "// Champs système"@,
        "DEFINE FIELD id ON "@ + tv + " TYPE ulid;"@,
        Seq::<char>::empty(),
        "// Champs de l'entité"@,
    ];
    proof {
        assert(lines.deep_view() =~~= head);
    }

    let mut seen: Vec<String> = Vec::new();
    seen.push(String::from_str("id"));
    let ghost sc0: Set<Seq<char>> = set!["id"@];
    let ghost sc = sc0;
    proof {
        assert(seen.deep_view() =~~= seq!["id"@]);
        assert forall|n: Seq<char>| sc.contains(n) <==> seen.deep_view().contains(n) by {
            if seen.deep_view().contains(n) {
                let j = choose|j: int|
                    0 <= j < seen.deep_view().len() && seen.deep_view()[j] == n;
                assert(n == "id"@);
            }
            if sc.contains(n) {
                assert(seen.deep_view()[0] == "id"@);
            }
        }
        assert(fdv.skip(0) =~= fdv);
    }
    let mut i: usize = 0;
    while i < fields.len()
        invariant
            i <= fields@.len(),
            fdv == fields.deep_view(),
            tv == lower_of(name@),
            ts@ == tv,
            forall|n: Seq<char>| #[trigger] sc.contains(n) <==> seen.deep_view().contains(n),
            forall|n: Seq<char>| #[trigger] sc.contains(n) <==> (n == "id"@ || exists|j: int|
                0 <= j < i && fdv[j].name == n),
            head + spec_field_lines(fdv, sc0, tv) =~~= lines.deep_view() + spec_field_lines(
                fdv.skip(i as int),
                sc,
                tv,
            ),
        decreases fields@.len() - i,
    {
        proof {
            assert(fdv.skip(i as int)[0] == fdv[i as int]);
            assert(fdv[i as int] == fields@[i as int]@);
            assert(fdv.skip(i as int).drop_first() =~= fdv.skip(i + 1));
        }
        let f = &fields[i];
        let ghost lines0 = lines.deep_view();
        let ghost seen0 = seen.deep_view();
        let was_seen = crate::strutil::vec_contains_str(&seen, f.name.as_str());
        if !was_seen {
            let line = build_field_line(f.name.as_str(), f.ty.as_str(), ts);
            lines.push(line);
            proof {
                assert(lines.deep_view() =~~= lines0.push(
                    spec_field_line(fdv[i as int].name, fdv[i as int].ty, tv),
                ));
                assert(lines0.push(spec_field_line(fdv[i as int].name, fdv[i as int].ty, tv))
                    =~~= lines0 + seq![spec_field_line(fdv[i as int].name, fdv[i as int].ty, tv)]);
            }
        }
        seen.push(String::from_str(f.name.as_str()));
        proof {
            assert(seen.deep_view() =~~= seen0.push(fdv[i as int].name));
            assert forall|n: Seq<char>| #[trigger] seen.deep_view().contains(n) <==> (
            seen0.contains(n) || n == fdv[i as int].name) by {
                if seen.deep_view().contains(n) {
                    let j = choose|j: int|
                        0 <= j < seen.deep_view().len() && seen.deep_view()[j] == n;
                    if j < seen0.len() {
                        assert(seen0[j] == n);
                    }
                }
                if seen0.contains(n) {
                    let j = choose|j: int| 0 <= j < seen0.len() && seen0[j] == n;
                    assert(seen.deep_view()[j] == n);
                }
                if n == fdv[i as int].name {
                    assert(seen.deep_view()[seen0.len() as int] == n);
                }
            }
        }
        proof {
            sc = sc.insert(fdv[i as int].name);
        }
        i += 1;
    }
    proof {
        assert(fdv.skip(fdv.len() as int) =~= Seq::<FieldV>::empty());
        assert(lines.deep_view() =~~= head + spec_field_lines(fdv, sc0, tv));
        reveal_strlit("id");
        reveal_strlit("created_at");
        reveal_strlit("updated_at");
        reveal_strlit("deleted_at");
        assert("id"@.len() == 2);
        assert("created_at"@.len() == 10);
        assert("updated_at"@.len() == 10);
        assert("deleted_at"@.len() == 10);
        assert("created_at"@ != "id"@ && "updated_at"@ != "id"@ && "deleted_at"@ != "id"@);
    }

    let ghost mid = lines.deep_view();
    lines.push(String::new());
    lines.push(String::from_str("// Champs de timestamps"));
    proof {
        assert(lines.deep_view() =~~= mid + seq![
            Seq::<char>::empty(),
            "// Champs de timestamps"@,
        ]);
    }
    let ghost before_ts = lines.deep_view();
    let ghost ts_emitted = Seq::<Seq<char>>::empty();
    let has_created = crate::strutil::vec_contains_str(&seen, "created_at");
    proof {
        assert(sc.contains("created_at"@) <==> seen.deep_view().contains("created_at"@));
        assert(has_created <==> contains_field_name(fdv, "created_at"@));
    }
    if !has_created {
        lines.push(build_ts_field_line("created_at", ts));
    }
    let ghost after_c = lines.deep_view();
    proof {
        let c1 = if !contains_field_name(fdv, "created_at"@) {
            seq![spec_ts_field_line("created_at"@, tv)]
        } else {
            Seq::<Seq<char>>::empty()
        };
        assert(after_c =~~= before_ts + c1);
    }
    let has_updated = crate::strutil::vec_contains_str(&seen, "updated_at");
    proof {
        assert(sc.contains("updated_at"@) <==> seen.deep_view().contains("updated_at"@));
        assert(has_updated <==> contains_field_name(fdv, "updated_at"@));
    }
    if !has_updated {
        lines.push(build_ts_field_line("updated_at", ts));
    }
    let ghost after_u = lines.deep_view();
    proof {
        let c2 = if !contains_field_name(fdv, "updated_at"@) {
            seq![spec_ts_field_line("updated_at"@, tv)]
        } else {
            Seq::<Seq<char>>::empty()
        };
        assert(after_u =~~= after_c + c2);
    }
    let has_deleted = crate::strutil::vec_contains_str(&seen, "deleted_at");
    proof {
        assert(sc.contains("deleted_at"@) <==> seen.deep_view().contains("deleted_at"@));
        assert(has_deleted <==> contains_field_name(fdv, "deleted_at"@));
    }
    if !has_deleted {
        lines.push(build_ts_field_line("deleted_at", ts));
    }
    proof {
        let c3 = if !contains_field_name(fdv, "deleted_at"@) {
            seq![spec_ts_field_line("deleted_at"@, tv)]
        } else {
            Seq::<Seq<char>>::empty()
        };
        assert(lines.deep_view() =~~= after_u + c3);
        assert(lines.deep_view() =~~= before_ts + spec_ts_lines(fdv, tv));
    }

    let ghost before_idx = lines.deep_view();
    lines.push(String::new());
    lines.push(String::from_str("// Indexes"));
    let mut idl = String::from_str("DEFINE INDEX idx_");
    idl.append(ts);
    idl.append("_id ON ");
    idl.append(ts);
    idl.append(" FIELDS id;");
    proof {
        assert(idl@ =~= "DEFINE INDEX idx_"@ + tv + "_id ON "@ + tv + " FIELDS id;"@);
    }
    lines.push(idl);
    lines.push(build_ts_index_line("created", ts));
    lines.push(build_ts_index_line("updated", ts));
    lines.push(build_ts_index_line("deleted", ts));
    proof {
        assert(lines.deep_view() =~~= before_idx + seq![
            Seq::<char>::empty(),
            "// Indexes"@,
            "DEFINE INDEX idx_"@ + tv + "_id ON "@ + tv + " FIELDS id;"@,
            spec_ts_index_line("created"@, tv),
            spec_ts_index_line("updated"@, tv),
            spec_ts_index_line("deleted"@, tv),
        ]);
        assert(lines.deep_view() =~~= spec_create_table_lines(name@, fdv));
    }
    crate::strutil::join_strings(&lines, "\n")
}

impl MigrationOperation {
    /// Renders the forward schema statements; `entity_fields` is the field
    /// list re-derived from a previously generated entity artifact (empty
    /// when none could be read), used by create-table renderings only.
    pub fn up_sql(&self, entity_fields: &Vec<Field>) -> (r: String)
        ensures
            r@ == spec_up_sql(self@, entity_fields.deep_view()),
    {
        match self {
            MigrationOperation::CreateTable(name) => render_create_table(
                name.as_str(),
                entity_fields,
            ),
            MigrationOperation::AddColumn(t, c, ty) => {
                let cl = to_lower(c.as_str());
                let tl = to_lower(t.as_str());
                let tyl = to_lower(ty.as_str());
                let mut out = String::from_str("DEFINE FIELD ");
                out.append(cl.as_str());
                out.append(" ON ");
                out.append(tl.as_str());
                out.append(" TYPE ");
                out.append(tyl.as_str());
                out.append(";");
                proof {
                    assert(out@ =~= spec_up_sql(self@, entity_fields.deep_view()));
                }
                out
            },
            MigrationOperation::RemoveColumn(t, c) => {
                let cl = to_lower(c.as_str());
                let tl = to_lower(t.as_str());
                let mut out = String::from_str("REMOVE FIELD ");
                out.append(cl.as_str());
                out.append(" ON ");
                out.append(tl.as_str());
                out.append(";");
                proof {
                    assert(out@ =~= spec_up_sql(self@, entity_fields.deep_view()));
                }
                out
            },
            MigrationOperation::RenameColumn(t, o, n) => {
                let tl = to_lower(t.as_str());
                let ol = to_lower(o.as_str());
                let nl = to_lower(n.as_str());
                let mut out = String::from_str("DEFINE FIELD ");
                out.append(nl.as_str());
                out.append(" ON ");
                out.append(tl.as_str());
                out.append(" TYPE string;\nUPDATE ");
                out.append(tl.as_str());
                out.append(" SET ");
                out.append(nl.as_str());
                out.append(" = ");
                out.append(ol.as_str());
                out.append(";\nREMOVE FIELD ");
                out.append(ol.as_str());
                out.append(" ON ");
                out.append(tl.as_str());
                out.append(";");
                proof {
                    assert(out@ =~= spec_up_sql(self@, entity_fields.deep_view()));
                }
                out
            },
            MigrationOperation::AddIndex(t, cols) => {
                let tl = to_lower(t.as_str());
                let joined = crate::strutil::join_strings(cols, "_");
                let jl = to_lower(joined.as_str());
                let mut lowered: Vec<String> = Vec::new();
                let ghost cdv = cols.deep_view();
                let mut k: usize = 0;
                proof {
                    assert(lowered.deep_view() =~~= cdv.map_values(
                        |c: Seq<char>| lower_of(c),
                    ).take(0));
                }
                while k < cols.len()
                    invariant
                        k <= cols@.len(),
                        cdv == cols.deep_view(),
                        lowered.deep_view() =~~= cdv.map_values(|c: Seq<char>| lower_of(c)).take(
                            k as int,
                        ),
                    decreases cols@.len() - k,
                {
                    let ghost l0 = lowered.deep_view();
                    lowered.push(to_lower(cols[k].as_str()));
                    proof {
                        let m = cdv.map_values(|c: Seq<char>| lower_of(c));
                        assert(cdv[k as int] == cols@[k as int]@);
                        assert(m[k as int] == lower_of(cdv[k as int]));
                        assert(lowered.deep_view() =~~= l0.push(lower_of(cdv[k as int])));
                        assert(m.take(k + 1) =~~= m.take(k as int).push(m[k as int]));
                    }
                    k += 1;
                }
                proof {
                    let m = cdv.map_values(|c: Seq<char>| lower_of(c));
                    assert(m.take(cdv.len() as int) =~~= m);
                }
                let col_list = crate::strutil::join_strings(&lowered, ", ");
                let mut out = String::from_str("DEFINE INDEX idx_");
                out.append(tl.as_str());
                out.append("_");
                out.append(jl.as_str());
                out.append(" ON ");
                out.append(tl.as_str());
                out.append(" FIELDS ");
                out.append(col_list.as_str());
                out.append(";");
                proof {
                    assert(out@ =~= spec_up_sql(self@, entity_fields.deep_view()));
                }
                out
            },
            MigrationOperation::AddRelation(f, to, _k) => {
                let fl = to_lower(f.as_str());
                let tol = to_lower(to.as_str());
                let mut out = String::from_str("DEFINE FIELD ");
                out.append(tol.as_str());
                out.append("_id ON ");
                out.append(fl.as_str());
                out.append(" TYPE record(");
                out.append(tol.as_str());
                out.append(");\nDEFINE INDEX idx_");
                out.append(fl.as_str());
                out.append("_");
                out.append(tol.as_str());
                out.append(" ON ");
                out.append(fl.as_str());
                out.append(" FIELDS ");
                out.append(tol.as_str());
                out.append("_id;");
                proof {
                    assert(out@ =~= spec_up_sql(self@, entity_fields.deep_view()));
                }
                out
            },
        }
    }
}

// ---------------------------------------------------------------------------
// Re-deriving entity fields from generated entity source text
// ---------------------------------------------------------------------------

/// What the restricted field-declaration pattern extracts from entity source
/// text: for each match in order, the validation-attribute text, the field
/// name, and the field type. A function of the text alone.
pub uninterp spec fn field_captures(s: Seq<char>) -> Seq<(Seq<char>, Seq<char>, Seq<char>)>;

/// Relies on regex's `Regex::new` and `Captures` iteration with a fixed
/// pattern matching validation-annotated field declarations: a pure,
/// deterministic function of the text. The fixed pattern always compiles.
#[verifier::external_body]
fn capture_validated_fields(content: &str) -> (r: Vec<(String, String, String)>)
    ensures
        r.deep_view() == field_captures(content@),
{
    let re = regex::Regex::new(r"(?m)(?s)#\[validate\((.*?)\)\].*?pub\s+(\w+)\s*:\s*(\w+)")
        .unwrap();
    let mut out = Vec::new();
    for cap in re.captures_iter(content) {
        let v = cap.get(1).map(|m| m.as_str()).unwrap_or("").to_string();
        let n = cap.get(2).map(|m| m.as_str()).unwrap_or("").to_string();
        let t = cap.get(3).map(|m| m.as_str()).unwrap_or("").to_string();
        out.push((v, n, t));
    }
    out
}

/// One extracted attribute token applied to a validation: only the four
/// bare flags are recognized, anything else is ignored.
pub open spec fn spec_apply_flag(v: FieldValidationV, tok: Seq<char>) -> FieldValidationV {
    let t = spec_trim(tok);
    if t == "required"@ {
        FieldValidationV { required: true, ..v }
    } else if t == "unique"@ {
        FieldValidationV { unique: true, ..v }
    } else if t == "email"@ {
        FieldValidationV { email: true, ..v }
    } else if t == "url"@ {
        FieldValidationV { url: true, ..v }
    } else {
        v
    }
}

/// Extracted attribute tokens folded left to right.
pub open spec fn spec_apply_flags(v: FieldValidationV, toks: Seq<Seq<char>>) -> FieldValidationV
    decreases toks.len(),
{
    if toks.len() == 0 {
        v
    } else {
        spec_apply_flags(spec_apply_flag(v, toks[0]), toks.drop_first())
    }
}

/// The validation an extracted attribute text denotes: its comma-separated
/// tokens folded over the default validation.
pub open spec fn spec_flag_validation(vals: Seq<char>) -> FieldValidationV {
    spec_apply_flags(spec_default_validation(), spec_split(vals, ','))
}

/// The four field names the generator manages itself.
pub open spec fn spec_is_system_field(n: Seq<char>) -> bool {
    n == "id"@ || n == "created_at"@ || n == "updated_at"@ || n == "deleted_at"@
}

/// The entity fields a capture sequence denotes, skipping system fields.
pub open spec fn spec_entity_fields(caps: Seq<(Seq<char>, Seq<char>, Seq<char>)>) -> Seq<FieldV>
    decreases caps.len(),
{
    if caps.len() == 0 {
        seq![]
    } else {
        let c = caps[0];
        let rest = spec_entity_fields(caps.drop_first());
        if spec_is_system_field(c.1) {
            rest
        } else {
            seq![FieldV { name: c.1, ty: c.2, validation: spec_flag_validation(c.0) }] + rest
        }
    }
}

fn is_system_field(n: &str) -> (r: bool)
    ensures
        r == spec_is_system_field(n@),
{
    str_eq(n, "id") || str_eq(n, "created_at") || str_eq(n, "updated_at") || str_eq(
        n,
        "deleted_at",
    )
}

/// Re-derives entity fields from previously generated entity source text by
/// the restricted pattern match; text that matches nothing (including text
/// that is not an entity artifact at all) yields the empty field list.
pub fn entity_fields_from_source(content: &str) -> (r: Vec<Field>)
    ensures
        r.deep_view() == spec_entity_fields(field_captures(content@)),
{
    let caps = capture_validated_fields(content);
    let ghost cdv = caps.deep_view();
    let mut out: Vec<Field> = Vec::new();
    let mut i: usize = 0;
    proof {
        assert(cdv.skip(0) =~~= cdv);
        assert(out.deep_view() =~~= Seq::<FieldV>::empty());
    }
    while i < caps.len()
        invariant
            i <= caps@.len(),
            cdv == caps.deep_view(),
            spec_entity_fields(cdv) =~~= out.deep_view() + spec_entity_fields(
                cdv.skip(i as int),
            ),
        decreases caps@.len() - i,
    {
        proof {
            assert(cdv.skip(i as int)[0] == cdv[i as int]);
            assert(cdv[i as int] == (caps@[i as int].0@, caps@[i as int].1@, caps@[i as int].2@));
            assert(cdv.skip(i as int).drop_first() =~~= cdv.skip(i + 1));
        }
        let cap = &caps[i];
        if !is_system_field(cap.1.as_str()) {
            let toks = split_char(cap.0.as_str(), ',');
            let ghost tdv = toks.deep_view();
            let mut v = FieldValidation::default();
            let mut k: usize = 0;
            proof {
                assert(tdv.skip(0) =~~= tdv);
            }
            while k < toks.len()
                invariant
                    k <= toks@.len(),
                    tdv == toks.deep_view(),
                    spec_apply_flags(spec_default_validation(), tdv) == spec_apply_flags(
                        v@,
                        tdv.skip(k as int),
                    ),
                decreases toks@.len() - k,
            {
                proof {
                    assert(tdv.skip(k as int)[0] == tdv[k as int]);
                    assert(tdv[k as int] == toks@[k as int]@);
                    assert(tdv.skip(k as int).drop_first() =~~= tdv.skip(k + 1));
                }
                let ghost v0 = v@;
                let t = trim_str(toks[k].as_str());
                if str_eq(t.as_str(), "required") {
                    v.required = true;
                } else if str_eq(t.as_str(), "unique") {
                    v.unique = true;
                } else if str_eq(t.as_str(), "email") {
                    v.email = true;
                } else if str_eq(t.as_str(), "url") {
                    v.url = true;
                }
                proof {
                    assert(v@ == spec_apply_flag(v0, tdv[k as int]));
                }
                k += 1;
            }
            proof {
                assert(tdv.skip(tdv.len() as int) =~~= Seq::<Seq<char>>::empty());
            }
            let ghost o0 = out.deep_view();
            out.push(
                Field {
                    name: String::from_str(cap.1.as_str()),
                    ty: String::from_str(cap.2.as_str()),
                    validation: v,
                },
            );
            proof {
                assert(out.deep_view() =~~= o0.push(
                    FieldV {
                        name: cdv[i as int].1,
                        ty: cdv[i as int].2,
                        validation: spec_flag_validation(cdv[i as int].0),
                    },
                ));
            }
        }
        i += 1;
    }
    proof {
        assert(cdv.skip(cdv.len() as int) =~~= Seq::<(Seq<char>, Seq<char>, Seq<char>)>::empty());
    }
    out
}

// ---------------------------------------------------------------------------
// The generated wrapper source file
// ---------------------------------------------------------------------------

/// Relies on chrono's `Utc::now` and its formatter: a timestamp of the
/// current wall clock rendered as digits. Nothing is assumed of the value,
/// which differs from call to call.
#[verifier::external_body]
pub(crate) fn version_stamp() -> String {
    chrono::Utc::now().format("%Y%m%d%H%M%S").to_string()
}

/// The wrapper source file for a migration: a type named after the migration
/// in PascalCase, carrying the version stamp, that replays the two schema
/// files at its own run time. Generated text only; never executed here.
pub open spec fn spec_migration_rust(filename: Seq<char>, version: Seq<char>) -> Seq<char> {
    let class = pascal_of(filename);
    "use async_trait::async_trait;\nuse surrealdb::Surreal;\nuse surrealdb::engine::remote::ws::Client;\nuse crate::db::migrations::Migration;\nuse std::fs;\n\npub struct "@
        + class + ";\n\n#[async_trait]\nimpl Migration for "@ + class
        + " {\n    fn version(&self) -> &str {\n        \""@ + version
        + "\"\n    }\n\n    fn name(&self) -> &str {\n        \""@ + filename
        + "\"\n    }\n\n    async fn up(&self, db: &Surreal<Client>) -> Result<(), Box<dyn std::error::Error>> {\n        let schema = fs::read_to_string(\"database/schema/"@
        + filename
        + ".up.surql\")?;\n        db.query(schema).await?;\n        Ok(())\n    }\n\n    async fn down(&self, db: &Surreal<Client>) -> Result<(), Box<dyn std::error::Error>> {\n        let schema = fs::read_to_string(\"database/schema/"@
        + filename + ".down.surql\")?;\n        db.query(schema).await?;\n        Ok(())\n    }\n}\n"@
}

/// Renders the wrapper source file for a migration with the given version
/// stamp.
pub fn generate_migration_rust(filename: &str, version: &str) -> (r: String)
    ensures
        r@ == spec_migration_rust(filename@, version@),
{
    let class = crate::names::to_pascal_case(filename);
    let mut out = String::from_str(
        "use async_trait::async_trait;\nuse surrealdb::Surreal;\nuse surrealdb::engine::remote::ws::Client;\nuse crate::db::migrations::Migration;\nuse std::fs;\n\npub struct ",
    );
    out.append(class.as_str());
    out.append(";\n\n#[async_trait]\nimpl Migration for ");
    out.append(class.as_str());
    out.append(" {\n    fn version(&self) -> &str {\n        \"");
    out.append(version);
    out.append("\"\n    }\n\n    fn name(&self) -> &str {\n        \"");
    out.append(filename);
    out.append(
        "\"\n    }\n\n    async fn up(&self, db: &Surreal<Client>) -> Result<(), Box<dyn std::error::Error>> {\n        let schema = fs::read_to_string(\"database/schema/",
    );
    out.append(filename);
    out.append(
        ".up.surql\")?;\n        db.query(schema).await?;\n        Ok(())\n    }\n\n    async fn down(&self, db: &Surreal<Client>) -> Result<(), Box<dyn std::error::Error>> {\n        let schema = fs::read_to_string(\"database/schema/",
    );
    out.append(filename);
    out.append(".down.surql\")?;\n        db.query(schema).await?;\n        Ok(())\n    }\n}\n");
    proof {
        assert(out@ =~= spec_migration_rust(filename@, version@));
    }
    out
}

// ---------------------------------------------------------------------------
// Paths and the migration plan
// ---------------------------------------------------------------------------

/// Path of the forward schema-statement file.
pub open spec fn spec_up_path(filename: Seq<char>) -> Seq<char> {
    "database/schema/"@ + filename + ".up.surql"@
}

/// Path of the backward schema-statement file.
pub open spec fn spec_down_path(filename: Seq<char>) -> Seq<char> {
    "database/schema/"@ + filename + ".down.surql"@
}

/// Path of the generated wrapper source file.
pub open spec fn spec_rust_path(filename: Seq<char>) -> Seq<char> {
    "backend/src/migrations/"@ + filename + ".rs"@
}

/// Path of the entity artifact a create-table rendering re-reads: the table
/// name is singularized by stripping trailing `s`, then lowercased.
pub open spec fn spec_entity_source_path(table: Seq<char>) -> Seq<char> {
    "backend/src/entities/"@ + lower_of(crate::names::spec_trim_end_char(table, 's')) + ".rs"@
}

impl MigrationOperation {
    /// The entity artifact path a create-table operation re-reads for its
    /// field list; the other operations read nothing.
    pub fn entity_source_path(&self) -> (r: Option<String>)
        ensures
            match self@ {
                MigrationOperationV::CreateTable(t) => r is Some && r->0@
                    == spec_entity_source_path(t),
                _ => r is None,
            },
    {
        match self {
            MigrationOperation::CreateTable(name) => {
                let singular = crate::names::trim_end_char(name.as_str(), 's');
                let l = to_lower(singular.as_str());
                let mut p = String::from_str("backend/src/entities/");
                p.append(l.as_str());
                p.append(".rs");
                proof {
                    assert(p@ =~= spec_entity_source_path(self@->CreateTable_0));
                }
                Some(p)
            },
            _ => None,
        }
    }
}

/// Everything one migration generation writes: the three file paths and their
/// contents, the normalized migration name, and the version stamp embedded in
/// the wrapper file.
#[derive(Debug)]
pub struct MigrationPlan {
    pub filename: String,
    pub version: String,
    pub up_path: String,
    pub down_path: String,
    pub rust_path: String,
    pub up_content: String,
    pub down_content: String,
    pub rust_content: String,
}

/// Computes a migration generation from the migration name and the text of
/// the entity artifact a create-table operation re-reads (the empty string
/// when none could be read, degrading to an empty field list). Succeeds
/// exactly when the name matches one of the recognized shapes; nothing is
/// written here.
pub fn execute_migration(name: &str, entity_source: &str) -> (r: Result<MigrationPlan, String>)
    ensures
        r is Ok <==> spec_infer_operation(spec_name_tokens(name@)) is Some,
        r is Err ==> r->Err_0@ == "Invalid migration name format: "@ + name@,
        r is Ok ==> {
            let plan = r->Ok_0;
            let op = spec_infer_operation(spec_name_tokens(name@))->0;
            &&& plan.filename@ == snake_of(name@)
            &&& plan.up_path@ == spec_up_path(snake_of(name@))
            &&& plan.down_path@ == spec_down_path(snake_of(name@))
            &&& plan.rust_path@ == spec_rust_path(snake_of(name@))
            &&& plan.up_content@ == spec_up_sql(
                op,
                spec_entity_fields(field_captures(entity_source@)),
            )
            &&& plan.down_content@ == spec_down_sql(op)
            &&& plan.rust_content@ == spec_migration_rust(snake_of(name@), plan.version@)
        },
{
    let op = match MigrationOperation::from_name(name) {
        Some(op) => op,
        None => {
            let mut e = String::from_str("Invalid migration name format: ");
            e.append(name);
            proof {
                assert(e@ =~= "Invalid migration name format: "@ + name@);
            }
            return Err(e);
        },
    };
    let filename = to_snake_case(name);
    let fields = entity_fields_from_source(entity_source);
    let up_content = op.up_sql(&fields);
    let down_content = op.down_sql();
    let version = version_stamp();
    let rust_content = generate_migration_rust(filename.as_str(), version.as_str());
    let mut up_path = String::from_str("database/schema/");
    up_path.append(filename.as_str());
    up_path.append(".up.surql");
    let mut down_path = String::from_str("database/schema/");
    down_path.append(filename.as_str());
    down_path.append(".down.surql");
    let mut rust_path = String::from_str("backend/src/migrations/");
    rust_path.append(filename.as_str());
    rust_path.append(".rs");
    proof {
        assert(up_path@ =~= spec_up_path(snake_of(name@)));
        assert(down_path@ =~= spec_down_path(snake_of(name@)));
        assert(rust_path@ =~= spec_rust_path(snake_of(name@)));
    }
    Ok(
        MigrationPlan {
            filename,
            version,
            up_path,
            down_path,
            rust_path,
            up_content,
            down_content,
            rust_content,
        },
    )
}

// ---------------------------------------------------------------------------
// Listing, migrating, rolling back
// ---------------------------------------------------------------------------

/// A migration module file name: any `.rs` file except the aggregator.
pub open spec fn spec_is_module_file(n: Seq<char>) -> bool {
    n != "mod.rs"@ && n.len() >= 3 && n.subrange(n.len() - 3, n.len() as int) == ".rs"@
}

/// The module file names among `names`, in their given order.
pub open spec fn spec_module_files(names: Seq<Seq<char>>) -> Seq<Seq<char>>
    decreases names.len(),
{
    if names.len() == 0 {
        seq![]
    } else {
        let rest = spec_module_files(names.drop_first());
        if spec_is_module_file(names[0]) {
            seq![names[0]] + rest
        } else {
            rest
        }
    }
}

fn is_module_file(n: &str) -> (r: bool)
    ensures
        r == spec_is_module_file(n@),
{
    if str_eq(n, "mod.rs") {
        return false;
    }
    let len = n.unicode_len();
    if len < 3 {
        return false;
    }
    proof {
        reveal_strlit(".rs");
    }
    if n.get_char(len - 3) == '.' && n.get_char(len - 2) == 'r' && n.get_char(len - 1) == 's' {
        proof {
            assert(n@.subrange(len - 3, len as int) =~= ".rs"@);
        }
        true
    } else {
        proof {
            assert(n@.subrange(len - 3, len as int) != ".rs"@) by {
                if n@.subrange(len - 3, len as int) == ".rs"@ {
                    assert(n@.subrange(len - 3, len as int)[0] == n@[len - 3]);
                    assert(n@.subrange(len - 3, len as int)[1] == n@[len - 2]);
                    assert(n@.subrange(len - 3, len as int)[2] == n@[len - 1]);
                }
            }
        }
        false
    }
}

/// Lists the migration module files among the given directory entries:
/// every `.rs` file except the aggregator itself, alphabetically sorted.
/// Fails exactly when the migrations directory is absent.
pub fn list_migrations(migrations_dir_exists: bool, file_names: &Vec<String>) -> (r: Result<
    Vec<String>,
    String,
>)
    ensures
        r is Ok <==> migrations_dir_exists,
        r is Err ==> r->Err_0@ == "No migrations directory found"@,
        r is Ok ==> crate::strutil::spec_sorted(r->Ok_0.deep_view()),
        r is Ok ==> r->Ok_0.deep_view().to_multiset() == spec_module_files(
            file_names.deep_view(),
        ).to_multiset(),
{
    if !migrations_dir_exists {
        return Err(String::from_str("No migrations directory found"));
    }
    let ghost ndv = file_names.deep_view();
    let mut kept: Vec<String> = Vec::new();
    let mut i: usize = 0;
    proof {
        assert(ndv.skip(0) =~~= ndv);
        assert(kept.deep_view() =~~= Seq::<Seq<char>>::empty());
    }
    while i < file_names.len()
        invariant
            i <= file_names@.len(),
            ndv == file_names.deep_view(),
            spec_module_files(ndv) =~~= kept.deep_view() + spec_module_files(ndv.skip(i as int)),
        decreases file_names@.len() - i,
    {
        proof {
            assert(ndv.skip(i as int)[0] == ndv[i as int]);
            assert(ndv[i as int] == file_names@[i as int]@);
            assert(ndv.skip(i as int).drop_first() =~~= ndv.skip(i + 1));
        }
        let ghost k0 = kept.deep_view();
        if is_module_file(file_names[i].as_str()) {
            kept.push(String::from_str(file_names[i].as_str()));
            proof {
                assert(kept.deep_view() =~~= k0.push(ndv[i as int]));
                assert(k0.push(ndv[i as int]) =~~= k0 + seq![ndv[i as int]]);
            }
        }
        i += 1;
    }
    proof {
        assert(ndv.skip(ndv.len() as int) =~~= Seq::<Seq<char>>::empty());
        assert(kept.deep_view() =~~= spec_module_files(ndv));
    }
    Ok(crate::strutil::sort_strings(&kept))
}

/// Runs pending migrations: fails when the migrations directory is absent;
/// no execution engine is in scope, so it otherwise succeeds trivially.
pub fn execute_pending_migrations(migrations_dir_exists: bool) -> (r: Result<(), String>)
    ensures
        r is Ok <==> migrations_dir_exists,
        r is Err ==> r->Err_0@ == "No migrations directory found"@,
{
    if !migrations_dir_exists {
        return Err(String::from_str("No migrations directory found"));
    }
    Ok(())
}

/// Rolls back migrations: fails when the migrations directory is absent;
/// no execution engine is in scope, so it otherwise succeeds trivially
/// whatever the step count.
pub fn rollback_migrations(migrations_dir_exists: bool, _steps: u32) -> (r: Result<(), String>)
    ensures
        r is Ok <==> migrations_dir_exists,
        r is Err ==> r->Err_0@ == "No migrations directory found"@,
{
    if !migrations_dir_exists {
        return Err(String::from_str("No migrations directory found"));
    }
    Ok(())
}

} // verus!
