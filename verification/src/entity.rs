//! Entity emission: renders the composite entity artifact from a parsed
//! field and relation model, one section at a time — validated field
//! declarations, relation fields, constructor defaults, the input companion,
//! the filter companion, and the sortable-field enumeration.
use crate::dsl::{FieldV, FieldValidation, FieldValidationV, Field, Relation, RelationV};
use crate::names::{lower_of, pascal_of, to_lower, to_pascal_case};
use crate::strutil::{dec_of, spec_join, usize_to_string};
use vstd::prelude::*;

verus! {

// ---------------------------------------------------------------------------
// Validation attributes
// ---------------------------------------------------------------------------

/// The rendered flag attributes of a field: required, unique, email, url.
pub open spec fn spec_flag_attrs(v: FieldValidationV) -> Seq<Seq<char>> {
    (if v.required {
        seq!["#[validate(required)]"@]
    } else {
        Seq::<Seq<char>>::empty()
    }) + (if v.unique {
        seq!["#[validate(custom = \"validate_unique\")]"@]
    } else {
        Seq::<Seq<char>>::empty()
    }) + (if v.email {
        seq!["#[validate(email)]"@]
    } else {
        Seq::<Seq<char>>::empty()
    }) + (if v.url {
        seq!["#[validate(url)]"@]
    } else {
        Seq::<Seq<char>>::empty()
    })
}

/// The rendered range attributes of a field: its raw minimum and maximum.
pub open spec fn spec_bound_attrs(v: FieldValidationV) -> Seq<Seq<char>> {
    (match v.min {
        Some(m) => seq!["#[validate(range(min = \""@ + m + "\"))]"@],
        None => Seq::<Seq<char>>::empty(),
    }) + (match v.max {
        Some(m) => seq!["#[validate(range(max = \""@ + m + "\"))]"@],
        None => Seq::<Seq<char>>::empty(),
    })
}

/// The rendered length and pattern attributes of a field.
pub open spec fn spec_length_attrs(v: FieldValidationV) -> Seq<Seq<char>> {
    (match v.min_length {
        Some(n) => seq!["#[validate(length(min = "@ + dec_of(n) + "))]"@],
        None => Seq::<Seq<char>>::empty(),
    }) + (match v.max_length {
        Some(n) => seq!["#[validate(length(max = "@ + dec_of(n) + "))]"@],
        None => Seq::<Seq<char>>::empty(),
    }) + (match v.pattern {
        Some(p) => seq!["#[validate(regex(path = \""@ + p + "\"))]"@],
        None => Seq::<Seq<char>>::empty(),
    })
}

/// The rendered validation attributes of a field, one per rule present, in
/// fixed order: required, unique, email, url, min, max, minimum length,
/// maximum length, pattern.
pub open spec fn spec_validation_attrs(v: FieldValidationV) -> Seq<Seq<char>> {
    spec_flag_attrs(v) + spec_bound_attrs(v) + spec_length_attrs(v)
}

fn push_flag_attrs(r: &mut Vec<String>, v: &FieldValidation)
    ensures
        final(r).deep_view() == old(r).deep_view() + spec_flag_attrs(v@),
{
    let ghost r0 = r.deep_view();
    if v.required {
        r.push(String::from_str("#[validate(required)]"));
    }
    if v.unique {
        r.push(String::from_str("#[validate(custom = \"validate_unique\")]"));
    }
    if v.email {
        r.push(String::from_str("#[validate(email)]"));
    }
    if v.url {
        r.push(String::from_str("#[validate(url)]"));
    }
    proof {
        assert(r.deep_view() =~~= r0 + spec_flag_attrs(v@));
    }
}

fn push_bound_attrs(r: &mut Vec<String>, v: &FieldValidation)
    ensures
        final(r).deep_view() == old(r).deep_view() + spec_bound_attrs(v@),
{
    let ghost r0 = r.deep_view();
    match &v.min {
        Some(m) => {
            let mut a = String::from_str("#[validate(range(min = \"");
            a.append(m.as_str());
            a.append("\"))]");
            proof {
                assert(a@ =~= "#[validate(range(min = \""@ + m@ + "\"))]"@);
            }
            r.push(a);
        },
        None => {},
    }
    match &v.max {
        Some(m) => {
            let mut a = String::from_str("#[validate(range(max = \"");
            a.append(m.as_str());
            a.append("\"))]");
            proof {
                assert(a@ =~= "#[validate(range(max = \""@ + m@ + "\"))]"@);
            }
            r.push(a);
        },
        None => {},
    }
    proof {
        assert(r.deep_view() =~~= r0 + spec_bound_attrs(v@));
    }
}

fn push_length_attrs(r: &mut Vec<String>, v: &FieldValidation)
    ensures
        final(r).deep_view() == old(r).deep_view() + spec_length_attrs(v@),
{
    let ghost r0 = r.deep_view();
    match v.min_length {
        Some(n) => {
            let mut a = String::from_str("#[validate(length(min = ");
            let d = usize_to_string(n);
            a.append(d.as_str());
            a.append("))]");
            proof {
                assert(a@ =~= "#[validate(length(min = "@ + dec_of(n as nat) + "))]"@);
            }
            r.push(a);
        },
        None => {},
    }
    match v.max_length {
        Some(n) => {
            let mut a = String::from_str("#[validate(length(max = ");
            let d = usize_to_string(n);
            a.append(d.as_str());
            a.append("))]");
            proof {
                assert(a@ =~= "#[validate(length(max = "@ + dec_of(n as nat) + "))]"@);
            }
            r.push(a);
        },
        None => {},
    }
    match &v.pattern {
        Some(p) => {
            let mut a = String::from_str("#[validate(regex(path = \"");
            a.append(p.as_str());
            a.append("\"))]");
            proof {
                assert(a@ =~= "#[validate(regex(path = \""@ + p@ + "\"))]"@);
            }
            r.push(a);
        },
        None => {},
    }
    proof {
        assert(r.deep_view() =~~= r0 + spec_length_attrs(v@));
    }
}

/// Builds the rendered validation attributes of a field, in order.
pub fn validation_attrs(v: &FieldValidation) -> (r: Vec<String>)
    ensures
        r.deep_view() == spec_validation_attrs(v@),
{
    let mut r: Vec<String> = Vec::new();
    proof {
        assert(r.deep_view() =~~= Seq::<Seq<char>>::empty());
    }
    push_flag_attrs(&mut r, v);
    push_bound_attrs(&mut r, v);
    push_length_attrs(&mut r, v);
    proof {
        assert(r.deep_view() =~~= spec_validation_attrs(v@));
    }
    r
}

/// A rendered field declaration: its attribute lines, then the public field.
pub open spec fn spec_field_with_validation(f: FieldV) -> Seq<char> {
    "    "@ + spec_join(spec_validation_attrs(f.validation), "\n    "@) + "\n    pub "@ + f.name
        + ": "@ + f.ty
}

/// Renders one field declaration with its validation attributes.
pub fn generate_field_with_validation(name: &str, ty: &str, v: &FieldValidation) -> (r: String)
    ensures
        r@ == spec_field_with_validation(FieldV { name: name@, ty: ty@, validation: v@ }),
{
    let attrs = validation_attrs(v);
    let joined = crate::strutil::join_strings(&attrs, "\n    ");
    let mut out = String::from_str("    ");
    out.append(joined.as_str());
    out.append("\n    pub ");
    out.append(name);
    out.append(": ");
    out.append(ty);
    proof {
        assert(out@ =~= spec_field_with_validation(
            FieldV { name: name@, ty: ty@, validation: v@ },
        ));
    }
    out
}

// ---------------------------------------------------------------------------
// Relation sections
// ---------------------------------------------------------------------------

/// The import line a relation adds to the entity artifact.
pub open spec fn spec_relation_import(r: RelationV) -> Seq<char> {
    let t = crate::dsl::spec_relation_target(r);
    "use crate::entities::"@ + lower_of(t) + "::"@ + t + ";"@
}

/// All relation import lines, joined with newlines.
pub open spec fn spec_relation_imports(rels: Seq<RelationV>) -> Seq<char> {
    spec_join(rels.map_values(|r: RelationV| spec_relation_import(r)), "\n"@)
}

/// The struct field a relation renders to: an optional reference, an ordered
/// collection, or a foreign-key identifier plus an optional reference.
pub open spec fn spec_relation_field(r: RelationV) -> Seq<char> {
    match r {
        RelationV::HasOne(t) => "    pub "@ + lower_of(t) + ": Option<"@ + t + ">"@,
        RelationV::HasMany(t) => "    pub "@ + lower_of(t) + ": Vec<"@ + t + ">"@,
        RelationV::BelongsTo(t) => "    pub "@ + lower_of(t) + "_id: ID,\n    pub "@ + lower_of(t)
            + ": Option<"@ + t + ">"@,
    }
}

/// The constructor initialization a relation renders to.
pub open spec fn spec_relation_init(r: RelationV) -> Seq<char> {
    match r {
        RelationV::HasOne(t) => "            "@ + lower_of(t) + ": None"@,
        RelationV::HasMany(t) => "            "@ + lower_of(t) + ": Vec::new()"@,
        RelationV::BelongsTo(t) => "            "@ + lower_of(t) + "_id: ID::default(),\n            "@
            + lower_of(t) + ": None"@,
    }
}

/// The filter fields a relation renders to: a presence filter, and for an
/// ordered collection also minimum and maximum count filters.
pub open spec fn spec_relation_filter(r: RelationV) -> Seq<char> {
    match r {
        RelationV::HasOne(t) => "    pub has_"@ + lower_of(t) + ": Option<bool>"@,
        RelationV::BelongsTo(t) => "    pub has_"@ + lower_of(t) + ": Option<bool>"@,
        RelationV::HasMany(t) => "    pub has_"@ + lower_of(t) + ": Option<bool>,\n    pub "@
            + lower_of(t) + "_count_min: Option<i32>,\n    pub "@ + lower_of(t)
            + "_count_max: Option<i32>"@,
    }
}

fn render_relation_import(r: &Relation) -> (out: String)
    ensures
        out@ == spec_relation_import(r@),
{
    let t = crate::indexing::relation_target(r);
    let l = to_lower(t.as_str());
    let mut out = String::from_str("use crate::entities::");
    out.append(l.as_str());
    out.append("::");
    out.append(t.as_str());
    out.append(";");
    proof {
        assert(out@ =~= spec_relation_import(r@));
    }
    out
}

fn render_relation_field(r: &Relation) -> (out: String)
    ensures
        out@ == spec_relation_field(r@),
{
    match r {
        Relation::HasOne(t) => {
            let l = to_lower(t.as_str());
            let mut out = String::from_str("    pub ");
            out.append(l.as_str());
            out.append(": Option<");
            out.append(t.as_str());
            out.append(">");
            proof {
                assert(out@ =~= spec_relation_field(r@));
            }
            out
        },
        Relation::HasMany(t) => {
            let l = to_lower(t.as_str());
            let mut out = String::from_str("    pub ");
            out.append(l.as_str());
            out.append(": Vec<");
            out.append(t.as_str());
            out.append(">");
            proof {
                assert(out@ =~= spec_relation_field(r@));
            }
            out
        },
        Relation::BelongsTo(t) => {
            let l = to_lower(t.as_str());
            let mut out = String::from_str("    pub ");
            out.append(l.as_str());
            out.append("_id: ID,\n    pub ");
            out.append(l.as_str());
            out.append(": Option<");
            out.append(t.as_str());
            out.append(">");
            proof {
                assert(out@ =~= spec_relation_field(r@));
            }
            out
        },
    }
}

fn render_relation_init(r: &Relation) -> (out: String)
    ensures
        out@ == spec_relation_init(r@),
{
    match r {
        Relation::HasOne(t) => {
            let l = to_lower(t.as_str());
            let mut out = String::from_str("            ");
            out.append(l.as_str());
            out.append(": None");
            proof {
                assert(out@ =~= spec_relation_init(r@));
            }
            out
        },
        Relation::HasMany(t) => {
            let l = to_lower(t.as_str());
            let mut out = String::from_str("            ");
            out.append(l.as_str());
            out.append(": Vec::new()");
            proof {
                assert(out@ =~= spec_relation_init(r@));
            }
            out
        },
        Relation::BelongsTo(t) => {
            let l = to_lower(t.as_str());
            let mut out = String::from_str("            ");
            out.append(l.as_str());
            out.append("_id: ID::default(),\n            ");
            out.append(l.as_str());
            out.append(": None");
            proof {
                assert(out@ =~= spec_relation_init(r@));
            }
            out
        },
    }
}

fn render_relation_filter(r: &Relation) -> (out: String)
    ensures
        out@ == spec_relation_filter(r@),
{
    match r {
        Relation::HasOne(t) => {
            let l = to_lower(t.as_str());
            let mut out = String::from_str("    pub has_");
            out.append(l.as_str());
            out.append(": Option<bool>");
            proof {
                assert(out@ =~= spec_relation_filter(r@));
            }
            out
        },
        Relation::BelongsTo(t) => {
            let l = to_lower(t.as_str());
            let mut out = String::from_str("    pub has_");
            out.append(l.as_str());
            out.append(": Option<bool>");
            proof {
                assert(out@ =~= spec_relation_filter(r@));
            }
            out
        },
        Relation::HasMany(t) => {
            let l = to_lower(t.as_str());
            let mut out = String::from_str("    pub has_");
            out.append(l.as_str());
            out.append(": Option<bool>,\n    pub ");
            out.append(l.as_str());
            out.append("_count_min: Option<i32>,\n    pub ");
            out.append(l.as_str());
            out.append("_count_max: Option<i32>");
            proof {
                assert(out@ =~= spec_relation_filter(r@));
            }
            out
        },
    }
}

// ---------------------------------------------------------------------------
// Per-field sections
// ---------------------------------------------------------------------------

/// The constructor initialization a field renders to.
pub open spec fn spec_field_init(f: FieldV) -> Seq<char> {
    "            "@ + f.name + ": "@ + f.name + "::default()"@
}

/// The input-companion field a field renders to: only the required rule is
/// carried over.
pub open spec fn spec_input_field(f: FieldV) -> Seq<char> {
    "    "@ + (if f.validation.required {
        "    #[validate(required)]"@
    } else {
        Seq::<char>::empty()
    }) + "\n    pub "@ + f.name + ": "@ + f.ty
}

/// The filter fields a field renders to, by its declared type: a substring
/// filter for strings, range filters for signed integers, and an optional
/// direct equality otherwise.
pub open spec fn spec_filter_field(f: FieldV) -> Seq<char> {
    if f.ty == "String"@ {
        "    pub "@ + f.name + "_contains: Option<String>"@
    } else if f.ty == "i32"@ || f.ty == "i64"@ {
        "    pub "@ + f.name + "_min: Option<"@ + f.ty + ">,\n    pub "@ + f.name + "_max: Option<"@
            + f.ty + ">"@
    } else if f.ty == "bool"@ {
        "    pub "@ + f.name + ": Option<bool>"@
    } else {
        "    pub "@ + f.name + ": Option<"@ + f.ty + ">"@
    }
}

/// The sortable-field entry a field renders to: its name in PascalCase.
pub open spec fn spec_sort_field(f: FieldV) -> Seq<char> {
    "    "@ + pascal_of(f.name)
}

fn render_field_init(f: &Field) -> (out: String)
    ensures
        out@ == spec_field_init(f@),
{
    let mut out = String::from_str("            ");
    out.append(f.name.as_str());
    out.append(": ");
    out.append(f.name.as_str());
    out.append("::default()");
    proof {
        assert(out@ =~= spec_field_init(f@));
    }
    out
}

fn render_input_field(f: &Field) -> (out: String)
    ensures
        out@ == spec_input_field(f@),
{
    let mut out = String::from_str("    ");
    if f.validation.required {
        out.append("    #[validate(required)]");
    }
    out.append("\n    pub ");
    out.append(f.name.as_str());
    out.append(": ");
    out.append(f.ty.as_str());
    proof {
        assert(out@ =~= spec_input_field(f@));
    }
    out
}

fn render_filter_field(f: &Field) -> (out: String)
    ensures
        out@ == spec_filter_field(f@),
{
    if crate::strutil::str_eq(f.ty.as_str(), "String") {
        let mut out = String::from_str("    pub ");
        out.append(f.name.as_str());
        out.append("_contains: Option<String>");
        proof {
            assert(out@ =~= spec_filter_field(f@));
        }
        out
    } else if crate::strutil::str_eq(f.ty.as_str(), "i32") || crate::strutil::str_eq(
        f.ty.as_str(),
        "i64",
    ) {
        let mut out = String::from_str("    pub ");
        out.append(f.name.as_str());
        out.append("_min: Option<");
        out.append(f.ty.as_str());
        out.append(">,\n    pub ");
        out.append(f.name.as_str());
        out.append("_max: Option<");
        out.append(f.ty.as_str());
        out.append(">");
        proof {
            assert(out@ =~= spec_filter_field(f@));
        }
        out
    } else if crate::strutil::str_eq(f.ty.as_str(), "bool") {
        let mut out = String::from_str("    pub ");
        out.append(f.name.as_str());
        out.append(": Option<bool>");
        proof {
            assert(out@ =~= spec_filter_field(f@));
        }
        out
    } else {
        let mut out = String::from_str("    pub ");
        out.append(f.name.as_str());
        out.append(": Option<");
        out.append(f.ty.as_str());
        out.append(">");
        proof {
            assert(out@ =~= spec_filter_field(f@));
        }
        out
    }
}

fn render_sort_field(f: &Field) -> (out: String)
    ensures
        out@ == spec_sort_field(f@),
{
    let p = to_pascal_case(f.name.as_str());
    let mut out = String::from_str("    ");
    out.append(p.as_str());
    proof {
        assert(out@ =~= spec_sort_field(f@));
    }
    out
}

// ---------------------------------------------------------------------------
// One attribute per rule
// ---------------------------------------------------------------------------

/// How many rules a validation carries.
pub open spec fn spec_rule_count(v: FieldValidationV) -> int {
    (if v.required {
        1int
    } else {
        0int
    }) + (if v.unique {
        1int
    } else {
        0int
    }) + (if v.email {
        1int
    } else {
        0int
    }) + (if v.url {
        1int
    } else {
        0int
    }) + (if v.min is Some {
        1int
    } else {
        0int
    }) + (if v.max is Some {
        1int
    } else {
        0int
    }) + (if v.min_length is Some {
        1int
    } else {
        0int
    }) + (if v.max_length is Some {
        1int
    } else {
        0int
    }) + (if v.pattern is Some {
        1int
    } else {
        0int
    })
}

proof fn lemma_contains_concat(a: Seq<Seq<char>>, b: Seq<Seq<char>>, x: Seq<char>)
    requires
        a.contains(x) || b.contains(x),
    ensures
        (a + b).contains(x),
{
    if a.contains(x) {
        let i = choose|i: int| 0 <= i < a.len() && a[i] == x;
        assert((a + b)[i] == x);
    } else {
        let i = choose|i: int| 0 <= i < b.len() && b[i] == x;
        assert((a + b)[a.len() + i] == x);
    }
}

/// Parsing a well-formed field definition and re-rendering the field
/// reproduces its name and declared type verbatim in the field declaration,
/// and renders exactly one validation attribute per rule present: the
/// attribute list has one entry per rule, and each present rule's attribute
/// stands in it.
#[verifier::rlimit(100)]
pub proof fn lemma_field_round_trip(u: Seq<char>)
    requires
        crate::dsl::spec_parse_unit(u) is Ok,
        crate::dsl::spec_parse_unit(u)->Ok_0 is F,
    ensures
        ({
            let f = crate::dsl::spec_parse_unit(u)->Ok_0->F_0;
            let rendered = spec_field_with_validation(f);
            let attrs = spec_validation_attrs(f.validation);
            let v = f.validation;
            &&& crate::strutil::spec_contains(rendered, "\n    pub "@ + f.name + ": "@ + f.ty)
            &&& attrs.len() == spec_rule_count(v)
            &&& v.required ==> attrs.contains("#[validate(required)]"@)
            &&& v.unique ==> attrs.contains("#[validate(custom = \"validate_unique\")]"@)
            &&& v.email ==> attrs.contains("#[validate(email)]"@)
            &&& v.url ==> attrs.contains("#[validate(url)]"@)
            &&& v.min matches Some(m) ==> attrs.contains(
                "#[validate(range(min = \""@ + m + "\"))]"@,
            )
            &&& v.max matches Some(m) ==> attrs.contains(
                "#[validate(range(max = \""@ + m + "\"))]"@,
            )
            &&& v.min_length matches Some(n) ==> attrs.contains(
                "#[validate(length(min = "@ + dec_of(n) + "))]"@,
            )
            &&& v.max_length matches Some(n) ==> attrs.contains(
                "#[validate(length(max = "@ + dec_of(n) + "))]"@,
            )
            &&& v.pattern matches Some(p) ==> attrs.contains(
                "#[validate(regex(path = \""@ + p + "\"))]"@,
            )
        }),
{
    let f = crate::dsl::spec_parse_unit(u)->Ok_0->F_0;
    let rendered = spec_field_with_validation(f);
    let v = f.validation;
    let joined = crate::strutil::spec_join(spec_validation_attrs(v), "\n    "@);
    let decl = "\n    pub "@ + f.name + ": "@ + f.ty;
    reveal_strlit("    ");
    assert(("    "@).len() == 4);
    let off = 4 + joined.len();
    assert(rendered.subrange(off as int, off + decl.len() as int) =~= decl);
    assert(crate::strutil::spec_contains_at(rendered, off as int, decl));

    let fa = spec_flag_attrs(v);
    let ba = spec_bound_attrs(v);
    let la = spec_length_attrs(v);
    if v.required {
        assert(fa[0] == "#[validate(required)]"@);
        lemma_contains_concat(fa, ba, "#[validate(required)]"@);
        lemma_contains_concat(fa + ba, la, "#[validate(required)]"@);
    }
    if v.unique {
        let x = "#[validate(custom = \"validate_unique\")]"@;
        assert(fa.contains(x)) by {
            let i = if v.required {
                1int
            } else {
                0int
            };
            assert(fa[i] == x);
        }
        lemma_contains_concat(fa, ba, x);
        lemma_contains_concat(fa + ba, la, x);
    }
    if v.email {
        let x = "#[validate(email)]"@;
        assert(fa.contains(x)) by {
            let i = (if v.required {
                1int
            } else {
                0int
            }) + (if v.unique {
                1int
            } else {
                0int
            });
            assert(fa[i] == x);
        }
        lemma_contains_concat(fa, ba, x);
        lemma_contains_concat(fa + ba, la, x);
    }
    if v.url {
        let x = "#[validate(url)]"@;
        assert(fa.contains(x)) by {
            let i = (if v.required {
                1int
            } else {
                0int
            }) + (if v.unique {
                1int
            } else {
                0int
            }) + (if v.email {
                1int
            } else {
                0int
            });
            assert(fa[i] == x);
        }
        lemma_contains_concat(fa, ba, x);
        lemma_contains_concat(fa + ba, la, x);
    }
    if v.min is Some {
        let x = "#[validate(range(min = \""@ + v.min->0 + "\"))]"@;
        assert(ba[0] == x);
        lemma_contains_concat(fa, ba, x);
        lemma_contains_concat(fa + ba, la, x);
    }
    if v.max is Some {
        let x = "#[validate(range(max = \""@ + v.max->0 + "\"))]"@;
        assert(ba.contains(x)) by {
            let i = if v.min is Some {
                1int
            } else {
                0int
            };
            assert(ba[i] == x);
        }
        lemma_contains_concat(fa, ba, x);
        lemma_contains_concat(fa + ba, la, x);
    }
    if v.min_length is Some {
        let x = "#[validate(length(min = "@ + dec_of(v.min_length->0) + "))]"@;
        assert(la[0] == x);
        lemma_contains_concat(fa + ba, la, x);
    }
    if v.max_length is Some {
        let x = "#[validate(length(max = "@ + dec_of(v.max_length->0) + "))]"@;
        assert(la.contains(x)) by {
            let i = if v.min_length is Some {
                1int
            } else {
                0int
            };
            assert(la[i] == x);
        }
        lemma_contains_concat(fa + ba, la, x);
    }
    if v.pattern is Some {
        let x = "#[validate(regex(path = \""@ + v.pattern->0 + "\"))]"@;
        assert(la.contains(x)) by {
            let i = (if v.min_length is Some {
                1int
            } else {
                0int
            }) + (if v.max_length is Some {
                1int
            } else {
                0int
            });
            assert(la[i] == x);
        }
        lemma_contains_concat(fa + ba, la, x);
    }
}

// ---------------------------------------------------------------------------
// Section joins
// ---------------------------------------------------------------------------

/// The field-declaration section: rendered fields joined by blank lines.
pub open spec fn spec_fields_def(fields: Seq<FieldV>) -> Seq<char> {
    spec_join(fields.map_values(|f: FieldV| spec_field_with_validation(f)), ",\n\n"@)
}

/// The relation-field section.
pub open spec fn spec_relations_def(rels: Seq<RelationV>) -> Seq<char> {
    spec_join(rels.map_values(|r: RelationV| spec_relation_field(r)), ",\n"@)
}

/// The constructor initializations of the fields.
pub open spec fn spec_field_inits(fields: Seq<FieldV>) -> Seq<char> {
    spec_join(fields.map_values(|f: FieldV| spec_field_init(f)), ",\n"@)
}

/// The constructor initializations of the relations.
pub open spec fn spec_relation_inits(rels: Seq<RelationV>) -> Seq<char> {
    spec_join(rels.map_values(|r: RelationV| spec_relation_init(r)), ",\n"@)
}

/// The input-companion fields.
pub open spec fn spec_input_fields(fields: Seq<FieldV>) -> Seq<char> {
    spec_join(fields.map_values(|f: FieldV| spec_input_field(f)), ",\n"@)
}

/// The per-field filter section.
pub open spec fn spec_filter_fields(fields: Seq<FieldV>) -> Seq<char> {
    spec_join(fields.map_values(|f: FieldV| spec_filter_field(f)), ",\n"@)
}

/// The per-relation filter section.
pub open spec fn spec_relation_filters(rels: Seq<RelationV>) -> Seq<char> {
    spec_join(rels.map_values(|r: RelationV| spec_relation_filter(r)), ",\n"@)
}

/// The sortable-field entries.
pub open spec fn spec_sort_fields(fields: Seq<FieldV>) -> Seq<char> {
    spec_join(fields.map_values(|f: FieldV| spec_sort_field(f)), ",\n"@)
}

/// Renders the import lines the relations add, joined with newlines.
pub fn generate_relation_imports(rels: &Vec<Relation>) -> (r: String)
    ensures
        r@ == spec_relation_imports(rels.deep_view()),
{
    let ghost m = rels.deep_view().map_values(|r: RelationV| spec_relation_import(r));
    let mut parts: Vec<String> = Vec::new();
    let mut i: usize = 0;
    proof {
        assert(parts.deep_view() =~~= m.take(0));
    }
    while i < rels.len()
        invariant
            i <= rels@.len(),
            m == rels.deep_view().map_values(|r: RelationV| spec_relation_import(r)),
            parts.deep_view() =~~= m.take(i as int),
        decreases rels@.len() - i,
    {
        let ghost p0 = parts.deep_view();
        parts.push(render_relation_import(&rels[i]));
        proof {
            assert(rels.deep_view()[i as int] == rels@[i as int]@);
            assert(m[i as int] == spec_relation_import(rels.deep_view()[i as int]));
            assert(parts.deep_view() =~~= p0.push(m[i as int]));
            assert(m.take(i + 1) =~~= m.take(i as int).push(m[i as int]));
        }
        i += 1;
    }
    proof {
        assert(m.take(rels.deep_view().len() as int) =~~= m);
    }
    crate::strutil::join_strings(&parts, "\n")
}

/// Renders one per-field section, selected by `which`: constructor
/// initializations, input fields, filter fields, or sortable-field entries.
fn joined_field_section(fields: &Vec<Field>, which: u8, sep: &str) -> (r: String)
    requires
        which < 4,
    ensures
        which == 0 ==> r@ == spec_join(
            fields.deep_view().map_values(|f: FieldV| spec_field_init(f)),
            sep@,
        ),
        which == 1 ==> r@ == spec_join(
            fields.deep_view().map_values(|f: FieldV| spec_input_field(f)),
            sep@,
        ),
        which == 2 ==> r@ == spec_join(
            fields.deep_view().map_values(|f: FieldV| spec_filter_field(f)),
            sep@,
        ),
        which == 3 ==> r@ == spec_join(
            fields.deep_view().map_values(|f: FieldV| spec_sort_field(f)),
            sep@,
        ),
{
    let ghost m = if which == 0 {
        fields.deep_view().map_values(|f: FieldV| spec_field_init(f))
    } else if which == 1 {
        fields.deep_view().map_values(|f: FieldV| spec_input_field(f))
    } else if which == 2 {
        fields.deep_view().map_values(|f: FieldV| spec_filter_field(f))
    } else {
        fields.deep_view().map_values(|f: FieldV| spec_sort_field(f))
    };
    let mut parts: Vec<String> = Vec::new();
    let mut i: usize = 0;
    proof {
        assert(parts.deep_view() =~~= m.take(0));
    }
    while i < fields.len()
        invariant
            i <= fields@.len(),
            which < 4,
            m == (if which == 0 {
                fields.deep_view().map_values(|f: FieldV| spec_field_init(f))
            } else if which == 1 {
                fields.deep_view().map_values(|f: FieldV| spec_input_field(f))
            } else if which == 2 {
                fields.deep_view().map_values(|f: FieldV| spec_filter_field(f))
            } else {
                fields.deep_view().map_values(|f: FieldV| spec_sort_field(f))
            }),
            parts.deep_view() =~~= m.take(i as int),
        decreases fields@.len() - i,
    {
        let ghost p0 = parts.deep_view();
        let piece = if which == 0 {
            render_field_init(&fields[i])
        } else if which == 1 {
            render_input_field(&fields[i])
        } else if which == 2 {
            render_filter_field(&fields[i])
        } else {
            render_sort_field(&fields[i])
        };
        parts.push(piece);
        proof {
            assert(fields.deep_view()[i as int] == fields@[i as int]@);
            assert(parts.deep_view() =~~= p0.push(m[i as int]));
            assert(m.take(i + 1) =~~= m.take(i as int).push(m[i as int]));
        }
        i += 1;
    }
    proof {
        assert(m.take(fields.deep_view().len() as int) =~~= m);
    }
    crate::strutil::join_strings(&parts, sep)
}

/// Renders one per-relation section, selected by `which`: relation fields,
/// constructor initializations, or relation filters.
fn joined_relation_section(rels: &Vec<Relation>, which: u8, sep: &str) -> (r: String)
    requires
        which < 3,
    ensures
        which == 0 ==> r@ == spec_join(
            rels.deep_view().map_values(|r: RelationV| spec_relation_field(r)),
            sep@,
        ),
        which == 1 ==> r@ == spec_join(
            rels.deep_view().map_values(|r: RelationV| spec_relation_init(r)),
            sep@,
        ),
        which == 2 ==> r@ == spec_join(
            rels.deep_view().map_values(|r: RelationV| spec_relation_filter(r)),
            sep@,
        ),
{
    let ghost m = if which == 0 {
        rels.deep_view().map_values(|r: RelationV| spec_relation_field(r))
    } else if which == 1 {
        rels.deep_view().map_values(|r: RelationV| spec_relation_init(r))
    } else {
        rels.deep_view().map_values(|r: RelationV| spec_relation_filter(r))
    };
    let mut parts: Vec<String> = Vec::new();
    let mut i: usize = 0;
    proof {
        assert(parts.deep_view() =~~= m.take(0));
    }
    while i < rels.len()
        invariant
            i <= rels@.len(),
            which < 3,
            m == (if which == 0 {
                rels.deep_view().map_values(|r: RelationV| spec_relation_field(r))
            } else if which == 1 {
                rels.deep_view().map_values(|r: RelationV| spec_relation_init(r))
            } else {
                rels.deep_view().map_values(|r: RelationV| spec_relation_filter(r))
            }),
            parts.deep_view() =~~= m.take(i as int),
        decreases rels@.len() - i,
    {
        let ghost p0 = parts.deep_view();
        let piece = if which == 0 {
            render_relation_field(&rels[i])
        } else if which == 1 {
            render_relation_init(&rels[i])
        } else {
            render_relation_filter(&rels[i])
        };
        parts.push(piece);
        proof {
            assert(rels.deep_view()[i as int] == rels@[i as int]@);
            assert(parts.deep_view() =~~= p0.push(m[i as int]));
            assert(m.take(i + 1) =~~= m.take(i as int).push(m[i as int]));
        }
        i += 1;
    }
    proof {
        assert(m.take(rels.deep_view().len() as int) =~~= m);
    }
    crate::strutil::join_strings(&parts, sep)
}

/// Renders the field-declaration section of the entity artifact.
pub fn generate_fields_def(fields: &Vec<Field>) -> (r: String)
    ensures
        r@ == spec_fields_def(fields.deep_view()),
{
    let ghost m = fields.deep_view().map_values(|f: FieldV| spec_field_with_validation(f));
    let mut parts: Vec<String> = Vec::new();
    let mut i: usize = 0;
    proof {
        assert(parts.deep_view() =~~= m.take(0));
    }
    while i < fields.len()
        invariant
            i <= fields@.len(),
            m == fields.deep_view().map_values(|f: FieldV| spec_field_with_validation(f)),
            parts.deep_view() =~~= m.take(i as int),
        decreases fields@.len() - i,
    {
        let ghost p0 = parts.deep_view();
        let f = &fields[i];
        parts.push(generate_field_with_validation(f.name.as_str(), f.ty.as_str(), &f.validation));
        proof {
            assert(fields.deep_view()[i as int] == fields@[i as int]@);
            assert(parts.deep_view() =~~= p0.push(m[i as int]));
            assert(m.take(i + 1) =~~= m.take(i as int).push(m[i as int]));
        }
        i += 1;
    }
    proof {
        assert(m.take(fields.deep_view().len() as int) =~~= m);
    }
    crate::strutil::join_strings(&parts, ",\n\n")
}

// ---------------------------------------------------------------------------
// The composite artifact
// ---------------------------------------------------------------------------

/// The head of the entity artifact: fixed imports, the relation imports, and
/// the entity struct with its validated fields and relation fields.
pub open spec fn spec_entity_head(
    pascal: Seq<char>,
    fields: Seq<FieldV>,
    rels: Seq<RelationV>,
) -> Seq<char> {
    "use serde::{Deserialize, Serialize};\nuse async_graphql::{{SimpleObject, InputObject, Enum}};\nuse validator::Validate;\nuse chrono::{DateTime, Utc};\nuse crate::entities::base_entity::BaseEntity;\n"@
        + spec_relation_imports(rels)
        + "\n\n#[derive(Debug, Clone, Serialize, Deserialize, SimpleObject, Validate)]\n#[serde(rename_all = \"camelCase\")]\npub struct "@
        + pascal
        + " {\n    #[serde(flatten)]\n    base: BaseEntity,\n\n    #[serde(skip_serializing_if = \"Option::is_none\")]\n    deleted_at: Option<DateTime<Utc>>,\n\n    // Custom fields with validation\n"@
        + spec_fields_def(fields) + "\n\n    // Relations\n"@ + spec_relations_def(rels)
}

/// The constructor block of the entity artifact, with the lifecycle methods.
pub open spec fn spec_entity_ctor(
    pascal: Seq<char>,
    fields: Seq<FieldV>,
    rels: Seq<RelationV>,
) -> Seq<char> {
    "\n}\n\nimpl "@ + pascal
        + " {\n    pub fn new() -> Self {\n        Self {\n            base: BaseEntity::new(),\n            deleted_at: None,\n"@
        + spec_field_inits(fields) + "\n"@ + spec_relation_inits(rels)
        + "\n        }\n    }\n\n    pub fn is_deleted(&self) -> bool {\n        self.deleted_at.is_some()\n    }\n\n    pub fn mark_as_deleted(&mut self) {\n        self.deleted_at = Some(Utc::now());\n    }\n\n    pub fn restore(&mut self) {\n        self.deleted_at = None;\n    }\n}\n\n"@
}

/// The companion types of the entity artifact: the input type, the filter
/// type, the sortable-field enumeration, and the fixed sort and pagination
/// auxiliaries.
pub open spec fn spec_entity_companions(
    pascal: Seq<char>,
    fields: Seq<FieldV>,
    rels: Seq<RelationV>,
) -> Seq<char> {
    "#[derive(InputObject, Validate)]\n#[serde(rename_all = \"camelCase\")]\npub struct "@ + pascal
        + "Input {\n"@ + spec_input_fields(fields)
        + "\n}\n\n#[derive(InputObject)]\n#[serde(rename_all = \"camelCase\")]\npub struct "@
        + pascal
        + "Filter {\n    pub include_deleted: Option<bool>,\n    pub from_date: Option<DateTime<Utc>>,\n    pub to_date: Option<DateTime<Utc>>,\n    // Custom field filters\n"@
        + spec_filter_fields(fields) + "\n    // Relation filters\n"@ + spec_relation_filters(rels)
        + "\n}\n\n#[derive(Enum, Copy, Clone, Eq, PartialEq)]\npub enum "@ + pascal
        + "SortField {\n    CreatedAt,\n    UpdatedAt,\n"@ + spec_sort_fields(fields)
        + "\n}\n\n#[derive(InputObject)]\npub struct "@ + pascal + "Sort {\n    pub field: "@
        + pascal + "SortField,\n    pub order: SortOrder,\n}\n\n#[derive(InputObject)]\npub struct "@
        + pascal
        + "Pagination {\n    pub page: Option<u32>,\n    pub per_page: Option<u32>,\n    pub cursor: Option<String>,\n}\n\n#[derive(Enum, Copy, Clone, Eq, PartialEq)]\npub enum SortOrder {\n    Asc,\n    Desc,\n}"@
}

/// The whole entity artifact for a PascalCase entity name and its parsed
/// fields and relations.
pub open spec fn spec_entity_content(
    pascal: Seq<char>,
    fields: Seq<FieldV>,
    rels: Seq<RelationV>,
) -> Seq<char> {
    spec_entity_head(pascal, fields, rels) + spec_entity_ctor(pascal, fields, rels)
        + spec_entity_companions(pascal, fields, rels)
}

#[verifier::rlimit(100)]
fn assemble_head(p: &str, imports: &str, fields_def: &str, relations_def: &str) -> (out: String)
    ensures
        out@ == "use serde::{Deserialize, Serialize};\nuse async_graphql::{{SimpleObject, InputObject, Enum}};\nuse validator::Validate;\nuse chrono::{DateTime, Utc};\nuse crate::entities::base_entity::BaseEntity;\n"@
            + imports@
            + "\n\n#[derive(Debug, Clone, Serialize, Deserialize, SimpleObject, Validate)]\n#[serde(rename_all = \"camelCase\")]\npub struct "@
            + p@
            + " {\n    #[serde(flatten)]\n    base: BaseEntity,\n\n    #[serde(skip_serializing_if = \"Option::is_none\")]\n    deleted_at: Option<DateTime<Utc>>,\n\n    // Custom fields with validation\n"@
            + fields_def@ + "\n\n    // Relations\n"@ + relations_def@,
{
    let mut out = String::from_str(
        "use serde::{Deserialize, Serialize};\nuse async_graphql::{{SimpleObject, InputObject, Enum}};\nuse validator::Validate;\nuse chrono::{DateTime, Utc};\nuse crate::entities::base_entity::BaseEntity;\n",
    );
    out.append(imports);
    out.append(
        "\n\n#[derive(Debug, Clone, Serialize, Deserialize, SimpleObject, Validate)]\n#[serde(rename_all = \"camelCase\")]\npub struct ",
    );
    out.append(p);
    out.append(
        " {\n    #[serde(flatten)]\n    base: BaseEntity,\n\n    #[serde(skip_serializing_if = \"Option::is_none\")]\n    deleted_at: Option<DateTime<Utc>>,\n\n    // Custom fields with validation\n",
    );
    out.append(fields_def);
    out.append("\n\n    // Relations\n");
    out.append(relations_def);
    out
}

#[verifier::rlimit(100)]
fn assemble_ctor(p: &str, field_inits: &str, relation_inits: &str) -> (out: String)
    ensures
        out@ == "\n}\n\nimpl "@ + p@
            + " {\n    pub fn new() -> Self {\n        Self {\n            base: BaseEntity::new(),\n            deleted_at: None,\n"@
            + field_inits@ + "\n"@ + relation_inits@
            + "\n        }\n    }\n\n    pub fn is_deleted(&self) -> bool {\n        self.deleted_at.is_some()\n    }\n\n    pub fn mark_as_deleted(&mut self) {\n        self.deleted_at = Some(Utc::now());\n    }\n\n    pub fn restore(&mut self) {\n        self.deleted_at = None;\n    }\n}\n\n"@,
{
    let mut out = String::from_str("\n}\n\nimpl ");
    out.append(p);
    out.append(
        " {\n    pub fn new() -> Self {\n        Self {\n            base: BaseEntity::new(),\n            deleted_at: None,\n",
    );
    out.append(field_inits);
    out.append("\n");
    out.append(relation_inits);
    out.append(
        "\n        }\n    }\n\n    pub fn is_deleted(&self) -> bool {\n        self.deleted_at.is_some()\n    }\n\n    pub fn mark_as_deleted(&mut self) {\n        self.deleted_at = Some(Utc::now());\n    }\n\n    pub fn restore(&mut self) {\n        self.deleted_at = None;\n    }\n}\n\n",
    );
    out
}

#[verifier::rlimit(100)]
fn assemble_companions(
    p: &str,
    input_fields: &str,
    filter_fields: &str,
    relation_filters: &str,
    sort_fields: &str,
) -> (out: String)
    ensures
        out@ == "#[derive(InputObject, Validate)]\n#[serde(rename_all = \"camelCase\")]\npub struct "@
            + p@ + "Input {\n"@ + input_fields@
            + "\n}\n\n#[derive(InputObject)]\n#[serde(rename_all = \"camelCase\")]\npub struct "@
            + p@
            + "Filter {\n    pub include_deleted: Option<bool>,\n    pub from_date: Option<DateTime<Utc>>,\n    pub to_date: Option<DateTime<Utc>>,\n    // Custom field filters\n"@
            + filter_fields@ + "\n    // Relation filters\n"@ + relation_filters@
            + "\n}\n\n#[derive(Enum, Copy, Clone, Eq, PartialEq)]\npub enum "@ + p@
            + "SortField {\n    CreatedAt,\n    UpdatedAt,\n"@ + sort_fields@
            + "\n}\n\n#[derive(InputObject)]\npub struct "@ + p@ + "Sort {\n    pub field: "@
            + p@
            + "SortField,\n    pub order: SortOrder,\n}\n\n#[derive(InputObject)]\npub struct "@
            + p@
            + "Pagination {\n    pub page: Option<u32>,\n    pub per_page: Option<u32>,\n    pub cursor: Option<String>,\n}\n\n#[derive(Enum, Copy, Clone, Eq, PartialEq)]\npub enum SortOrder {\n    Asc,\n    Desc,\n}"@,
{
    let mut out = String::from_str(
        "#[derive(InputObject, Validate)]\n#[serde(rename_all = \"camelCase\")]\npub struct ",
    );
    out.append(p);
    out.append("Input {\n");
    out.append(input_fields);
    out.append("\n}\n\n#[derive(InputObject)]\n#[serde(rename_all = \"camelCase\")]\npub struct ");
    out.append(p);
    out.append(
        "Filter {\n    pub include_deleted: Option<bool>,\n    pub from_date: Option<DateTime<Utc>>,\n    pub to_date: Option<DateTime<Utc>>,\n    // Custom field filters\n",
    );
    out.append(filter_fields);
    out.append("\n    // Relation filters\n");
    out.append(relation_filters);
    out.append("\n}\n\n#[derive(Enum, Copy, Clone, Eq, PartialEq)]\npub enum ");
    out.append(p);
    out.append("SortField {\n    CreatedAt,\n    UpdatedAt,\n");
    out.append(sort_fields);
    out.append("\n}\n\n#[derive(InputObject)]\npub struct ");
    out.append(p);
    out.append("Sort {\n    pub field: ");
    out.append(p);
    out.append("SortField,\n    pub order: SortOrder,\n}\n\n#[derive(InputObject)]\npub struct ");
    out.append(p);
    out.append(
        "Pagination {\n    pub page: Option<u32>,\n    pub per_page: Option<u32>,\n    pub cursor: Option<String>,\n}\n\n#[derive(Enum, Copy, Clone, Eq, PartialEq)]\npub enum SortOrder {\n    Asc,\n    Desc,\n}",
    );
    out
}

/// Renders the composite entity artifact from the parsed model.
#[verifier::rlimit(100)]
pub fn generate_entity_content(name: &str, fields: &Vec<Field>, rels: &Vec<Relation>) -> (r:
    String)
    ensures
        r@ == spec_entity_content(pascal_of(name@), fields.deep_view(), rels.deep_view()),
{
    let pascal = to_pascal_case(name);
    let p = pascal.as_str();
    let ghost pv = pascal_of(name@);
    let ghost fdv = fields.deep_view();
    let ghost rdv = rels.deep_view();

    let imports = generate_relation_imports(rels);
    let fields_def = generate_fields_def(fields);
    let relations_def = joined_relation_section(rels, 0, ",\n");
    let field_inits = joined_field_section(fields, 0, ",\n");
    let relation_inits = joined_relation_section(rels, 1, ",\n");
    let input_fields = joined_field_section(fields, 1, ",\n");
    let filter_fields = joined_field_section(fields, 2, ",\n");
    let relation_filters = joined_relation_section(rels, 2, ",\n");
    let sort_fields = joined_field_section(fields, 3, ",\n");

    let mut out = assemble_head(p, imports.as_str(), fields_def.as_str(), relations_def.as_str());
    proof {
        assert(out@ == spec_entity_head(pv, fdv, rdv));
    }
    let ghost done_head = out@;
    let ctor = assemble_ctor(p, field_inits.as_str(), relation_inits.as_str());
    proof {
        assert(ctor@ == spec_entity_ctor(pv, fdv, rdv));
    }
    out.append(ctor.as_str());
    let companions = assemble_companions(
        p,
        input_fields.as_str(),
        filter_fields.as_str(),
        relation_filters.as_str(),
        sort_fields.as_str(),
    );
    proof {
        assert(companions@ == spec_entity_companions(pv, fdv, rdv));
    }
    out.append(companions.as_str());
    proof {
        assert(out@ == spec_entity_content(pv, fdv, rdv));
    }
    out
}

// ---------------------------------------------------------------------------
// The entity plan
// ---------------------------------------------------------------------------

/// Everything one entity generation writes directly: the artifact path and
/// text, plus the parsed relations, which the aggregator updates need.
#[derive(Debug)]
pub struct EntityPlan {
    pub entity_path: String,
    pub entity_content: String,
    pub module_name: String,
    pub relations: Vec<Relation>,
}

/// Path of the entity artifact for an entity name.
pub open spec fn spec_entity_path(name: Seq<char>) -> Seq<char> {
    "backend/src/entities/"@ + lower_of(name) + ".rs"@
}

/// Computes an entity generation: checks the project-root marker first, then
/// parses the field groups and renders the artifact. Succeeds exactly when
/// the marker directory exists and every definition parses; nothing is
/// written here.
pub fn execute_entity(project_root_exists: bool, name: &str, field_groups: &Vec<String>) -> (r:
    Result<EntityPlan, String>)
    ensures
        !project_root_exists ==> r is Err && r->Err_0@ == "Not in a Nebulis project directory"@,
        project_root_exists ==> (match crate::dsl::spec_parse_fields_and_relations(
            field_groups.deep_view(),
        ) {
            Ok(p) => {
                &&& r is Ok
                &&& r->Ok_0.entity_path@ == spec_entity_path(name@)
                &&& r->Ok_0.entity_content@ == spec_entity_content(pascal_of(name@), p.0, p.1)
                &&& r->Ok_0.module_name@ == lower_of(name@)
                &&& r->Ok_0.relations.deep_view() == p.1
            },
            Err(e) => r is Err && r->Err_0@ == e,
        }),
{
    if !project_root_exists {
        return Err(String::from_str("Not in a Nebulis project directory"));
    }
    let (fields, relations) = match crate::dsl::parse_fields_and_relations(field_groups) {
        Ok(p) => p,
        Err(e) => {
            return Err(e);
        },
    };
    let content = generate_entity_content(name, &fields, &relations);
    let l = to_lower(name);
    let mut path = String::from_str("backend/src/entities/");
    path.append(l.as_str());
    path.append(".rs");
    proof {
        assert(path@ =~= spec_entity_path(name@));
    }
    Ok(EntityPlan { entity_path: path, entity_content: content, module_name: l, relations })
}

} // verus!
