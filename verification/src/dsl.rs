//! The field and relation description language: data model and parser.
//!
//! A field definition reads `name:Type|rule1 rule2=value ...`; a relation
//! definition reads `role->Target` with `role` one of `hasOne`, `hasMany`,
//! `belongsTo`. Several definitions may share one group string, separated by
//! commas. The first malformed definition aborts the whole parse with a
//! descriptive error.
use crate::strutil::{
    contains_sub, dec_val, parse_usize, spec_contains, spec_contains_at, spec_find_char, spec_join,
    spec_parses_usize, spec_split, spec_split_sub, spec_trim, split_char, split_sub, str_eq,
    trim_str, lemma_join_contains,
};
use vstd::prelude::*;

verus! {

// ---------------------------------------------------------------------------
// Data model
// ---------------------------------------------------------------------------

/// Validation attributes attached to one field; all independent, all absent
/// by default.
#[derive(Debug)]
pub struct FieldValidation {
    pub required: bool,
    pub min_length: Option<usize>,
    pub max_length: Option<usize>,
    pub pattern: Option<String>,
    pub min: Option<String>,
    pub max: Option<String>,
    pub unique: bool,
    pub email: bool,
    pub url: bool,
}

/// Mathematical model of a `FieldValidation`.
pub ghost struct FieldValidationV {
    pub required: bool,
    pub min_length: Option<nat>,
    pub max_length: Option<nat>,
    pub pattern: Option<Seq<char>>,
    pub min: Option<Seq<char>>,
    pub max: Option<Seq<char>>,
    pub unique: bool,
    pub email: bool,
    pub url: bool,
}

impl View for FieldValidation {
    type V = FieldValidationV;

    open spec fn view(&self) -> FieldValidationV {
        FieldValidationV {
            required: self.required,
            min_length: match self.min_length {
                Some(n) => Some(n as nat),
                None => None,
            },
            max_length: match self.max_length {
                Some(n) => Some(n as nat),
                None => None,
            },
            pattern: match self.pattern {
                Some(ref s) => Some(s@),
                None => None,
            },
            min: match self.min {
                Some(ref s) => Some(s@),
                None => None,
            },
            max: match self.max {
                Some(ref s) => Some(s@),
                None => None,
            },
            unique: self.unique,
            email: self.email,
            url: self.url,
        }
    }
}

impl DeepView for FieldValidation {
    type V = FieldValidationV;

    open spec fn deep_view(&self) -> FieldValidationV {
        self.view()
    }
}

/// The all-absent validation: no rule set.
pub open spec fn spec_default_validation() -> FieldValidationV {
    FieldValidationV {
        required: false,
        min_length: None,
        max_length: None,
        pattern: None,
        min: None,
        max: None,
        unique: false,
        email: false,
        url: false,
    }
}

impl Default for FieldValidation {
    /// Returns the validation with every attribute absent or false.
    fn default() -> (r: Self)
        ensures
            r@ == spec_default_validation(),
    {
        FieldValidation {
            required: false,
            min_length: None,
            max_length: None,
            pattern: None,
            min: None,
            max: None,
            unique: false,
            email: false,
            url: false,
        }
    }
}

/// A relation from the entity being generated to a target entity.
#[derive(Debug)]
pub enum Relation {
    HasOne(String),
    HasMany(String),
    BelongsTo(String),
}

/// Mathematical model of a `Relation`.
pub ghost enum RelationV {
    HasOne(Seq<char>),
    HasMany(Seq<char>),
    BelongsTo(Seq<char>),
}

impl View for Relation {
    type V = RelationV;

    open spec fn view(&self) -> RelationV {
        match self {
            Relation::HasOne(t) => RelationV::HasOne(t@),
            Relation::HasMany(t) => RelationV::HasMany(t@),
            Relation::BelongsTo(t) => RelationV::BelongsTo(t@),
        }
    }
}

impl DeepView for Relation {
    type V = RelationV;

    open spec fn deep_view(&self) -> RelationV {
        self.view()
    }
}

/// The name of the entity a relation points at.
pub open spec fn spec_relation_target(r: RelationV) -> Seq<char> {
    match r {
        RelationV::HasOne(t) => t,
        RelationV::HasMany(t) => t,
        RelationV::BelongsTo(t) => t,
    }
}

/// A parsed field: its name, declared type, and validation attributes.
#[derive(Debug)]
pub struct Field {
    pub name: String,
    pub ty: String,
    pub validation: FieldValidation,
}

/// Mathematical model of a `Field`.
pub ghost struct FieldV {
    pub name: Seq<char>,
    pub ty: Seq<char>,
    pub validation: FieldValidationV,
}

impl View for Field {
    type V = FieldV;

    open spec fn view(&self) -> FieldV {
        FieldV { name: self.name@, ty: self.ty@, validation: self.validation@ }
    }
}

impl DeepView for Field {
    type V = FieldV;

    open spec fn deep_view(&self) -> FieldV {
        self.view()
    }
}

// ---------------------------------------------------------------------------
// Type validation
// ---------------------------------------------------------------------------

/// The closed list of recognized field type tags, in declaration order.
pub open spec fn spec_valid_tags() -> Seq<Seq<char>> {
    seq![
        "String"@,
        "i32"@,
        "i64"@,
        "f32"@,
        "f64"@,
        "bool"@,
        "DateTime"@,
        "Vec<String>"@,
        "Option<String>"@,
        "u32"@,
        "u64"@,
        "usize"@,
        "Email"@,
        "Phone"@,
        "Url"@,
        "Password"@,
        "Json"@,
        "Money"@,
        "Uuid"@,
        "Slug"@,
        "HasOne"@,
        "HasMany"@,
        "BelongsTo"@,
        "Status"@,
        "Role"@,
    ]
}

/// `t` is one of the recognized type tags.
pub open spec fn spec_is_valid_type(t: Seq<char>) -> bool {
    spec_valid_tags().contains(t)
}

/// The error text reported for an unrecognized type tag: it names the tag and
/// enumerates every valid tag.
pub open spec fn spec_type_error(t: Seq<char>) -> Seq<char> {
    "Invalid type: "@ + t + ". Valid types are: "@ + spec_join(spec_valid_tags(), ", "@)
}

/// Checks a declared field type against the closed tag list; the error
/// names the offending tag and lists every valid one.
pub fn validate_field_type(field_type: &str) -> (r: Result<(), String>)
    ensures
        r is Ok <==> spec_is_valid_type(field_type@),
        r is Err ==> r->Err_0@ == spec_type_error(field_type@),
{
    let tags: Vec<&str> = vec![
        "String",
        "i32",
        "i64",
        "f32",
        "f64",
        "bool",
        "DateTime",
        "Vec<String>",
        "Option<String>",
        "u32",
        "u64",
        "usize",
        "Email",
        "Phone",
        "Url",
        "Password",
        "Json",
        "Money",
        "Uuid",
        "Slug",
        "HasOne",
        "HasMany",
        "BelongsTo",
        "Status",
        "Role",
    ];
    proof {
        assert(tags.deep_view() =~~= spec_valid_tags());
    }
    let mut i: usize = 0;
    while i < tags.len()
        invariant
            tags.deep_view() =~~= spec_valid_tags(),
            i <= tags@.len(),
            forall|j: int| 0 <= j < i ==> spec_valid_tags()[j] != field_type@,
        decreases tags@.len() - i,
    {
        if str_eq(tags[i], field_type) {
            proof {
                assert(spec_valid_tags()[i as int] == field_type@);
            }
            return Ok(());
        }
        i += 1;
    }
    let mut e = String::from_str("Invalid type: ");
    e.append(field_type);
    e.append(". Valid types are: ");
    let joined = crate::strutil::join_strs(&tags, ", ");
    e.append(joined.as_str());
    proof {
        assert(!spec_is_valid_type(field_type@)) by {
            if spec_valid_tags().contains(field_type@) {
                let j = choose|j: int|
                    0 <= j < spec_valid_tags().len() && spec_valid_tags()[j] == field_type@;
            }
        }
        assert(e@ =~= spec_type_error(field_type@));
    }
    Err(e)
}

/// The error text for an unrecognized type tag mentions the tag itself and
/// every recognized tag.
pub proof fn lemma_type_error_mentions(t: Seq<char>)
    ensures
        spec_contains(spec_type_error(t), t),
        forall|k: int| 0 <= k < spec_valid_tags().len() ==> spec_contains(
            spec_type_error(t),
            spec_valid_tags()[k],
        ),
{
    let head = "Invalid type: "@;
    let mid = ". Valid types are: "@;
    let joined = spec_join(spec_valid_tags(), ", "@);
    let e = spec_type_error(t);
    assert(e.subrange(head.len() as int, head.len() + t.len() as int) =~= t);
    assert(spec_contains_at(e, head.len() as int, t));
    let off = head.len() + t.len() + mid.len();
    assert forall|k: int| 0 <= k < spec_valid_tags().len() implies spec_contains(
        e,
        spec_valid_tags()[k],
    ) by {
        lemma_join_contains(spec_valid_tags(), ", "@, k);
        let tag = spec_valid_tags()[k];
        let i = choose|i: int| #[trigger] spec_contains_at(joined, i, tag);
        assert(e.subrange(off + i, off + i + tag.len() as int) =~= joined.subrange(
            i,
            i + tag.len() as int,
        ));
        assert(spec_contains_at(e, off + i, tag));
    }
}

// ---------------------------------------------------------------------------
// Validation rule compiler
// ---------------------------------------------------------------------------

/// The digits of a rule value, after the optional plus sign.
pub open spec fn spec_rule_number(val: Seq<char>) -> nat {
    dec_val(crate::strutil::spec_digits_part(val))
}

/// One rule token applied to a validation being built. The token is expected
/// trimmed and non-empty; a `key=value` pair splits at the first `=`, a bare
/// token is a flag. Later occurrences of a rule overwrite earlier ones.
pub open spec fn spec_apply_rule(v: FieldValidationV, rule: Seq<char>) -> Result<
    FieldValidationV,
    Seq<char>,
> {
    let i = spec_find_char(rule, '=');
    let key = if i < 0 {
        rule
    } else {
        spec_trim(rule.take(i))
    };
    let has_val = i >= 0;
    let val = spec_trim(rule.skip(i + 1));
    if key == "required"@ {
        Ok(FieldValidationV { required: true, ..v })
    } else if key == "unique"@ {
        Ok(FieldValidationV { unique: true, ..v })
    } else if key == "email"@ {
        Ok(FieldValidationV { email: true, ..v })
    } else if key == "url"@ {
        Ok(FieldValidationV { url: true, ..v })
    } else if key == "minLength"@ || key == "min_length"@ {
        if has_val {
            if spec_parses_usize(val) {
                Ok(FieldValidationV { min_length: Some(spec_rule_number(val)), ..v })
            } else {
                Err("Invalid minLength value: "@ + val)
            }
        } else {
            Err("minLength requires a value"@)
        }
    } else if key == "maxLength"@ || key == "max_length"@ {
        if has_val {
            if spec_parses_usize(val) {
                Ok(FieldValidationV { max_length: Some(spec_rule_number(val)), ..v })
            } else {
                Err("Invalid maxLength value: "@ + val)
            }
        } else {
            Err("maxLength requires a value"@)
        }
    } else if key == "min"@ {
        if has_val {
            Ok(FieldValidationV { min: Some(val), ..v })
        } else {
            Err("min requires a value"@)
        }
    } else if key == "max"@ {
        if has_val {
            Ok(FieldValidationV { max: Some(val), ..v })
        } else {
            Err("max requires a value"@)
        }
    } else if key == "pattern"@ {
        if has_val {
            Ok(FieldValidationV { pattern: Some(val), ..v })
        } else {
            Err("pattern requires a value"@)
        }
    } else {
        Err("Unknown validation rule: "@ + key)
    }
}

/// A sequence of rule tokens folded left-to-right over a validation; each
/// token is trimmed first and skipped when empty, and the first bad token
/// aborts the fold with its error.
pub open spec fn spec_apply_rules(v: FieldValidationV, rules: Seq<Seq<char>>) -> Result<
    FieldValidationV,
    Seq<char>,
>
    decreases rules.len(),
{
    if rules.len() == 0 {
        Ok(v)
    } else {
        let r0 = spec_trim(rules[0]);
        if r0.len() == 0 {
            spec_apply_rules(v, rules.drop_first())
        } else {
            match spec_apply_rule(v, r0) {
                Ok(v2) => spec_apply_rules(v2, rules.drop_first()),
                Err(e) => Err(e),
            }
        }
    }
}

/// Folds rule tokens into `validation`, left to right, last write winning.
/// On the first bad token it stops with that token's error; `validation`
/// then holds the rules applied before the bad one, which callers discard.
pub fn parse_validations(validation: &mut FieldValidation, rules: &Vec<String>) -> (r: Result<
    (),
    String,
>)
    ensures
        r is Ok ==> spec_apply_rules(old(validation)@, rules.deep_view()) == Ok::<
            FieldValidationV,
            Seq<char>,
        >(final(validation)@),
        r is Err ==> spec_apply_rules(old(validation)@, rules.deep_view()) == Err::<
            FieldValidationV,
            Seq<char>,
        >(r->Err_0@),
{
    let ghost dv = rules.deep_view();
    let mut k: usize = 0;
    proof {
        assert(dv.skip(0) =~~= dv);
    }
    while k < rules.len()
        invariant
            k <= rules@.len(),
            dv == rules.deep_view(),
            spec_apply_rules(old(validation)@, dv) == spec_apply_rules(
                validation@,
                dv.skip(k as int),
            ),
        decreases rules@.len() - k,
    {
        proof {
            assert(dv.skip(k as int)[0] == dv[k as int]);
            assert(dv.skip(k as int).drop_first() =~~= dv.skip(k + 1));
            assert(dv[k as int] == rules@[k as int]@);
        }
        let rule = trim_str(rules[k].as_str());
        if rule.as_str().is_empty() {
            k += 1;
            continue ;
        }
        let ghost v0 = validation@;
        let rlen = rule.as_str().unicode_len();
        let eq_pos = crate::strutil::find_char(rule.as_str(), '=');
        let (key, val, has_val): (String, String, bool) = match eq_pos {
            Some(i) => {
                proof {
                    crate::strutil::lemma_find_char(rule@, '=');
                }
                let key_part = rule.as_str().substring_char(0, i);
                let val_part = rule.as_str().substring_char(i + 1, rlen);
                proof {
                    assert(rule@.take(i as int) == rule@.subrange(0, i as int));
                    assert(rule@.skip(i + 1) == rule@.subrange(i + 1, rule@.len() as int));
                }
                (trim_str(key_part), trim_str(val_part), true)
            },
            None => (rule, String::new(), false),
        };
        proof {
            let i = spec_find_char(rule@, '=');
            if has_val {
                assert(key@ == spec_trim(rule@.take(i)));
                assert(val@ == spec_trim(rule@.skip(i + 1)));
            } else {
                assert(key@ == rule@);
            }
        }
        if str_eq(key.as_str(), "required") {
            validation.required = true;
        } else if str_eq(key.as_str(), "unique") {
            validation.unique = true;
        } else if str_eq(key.as_str(), "email") {
            validation.email = true;
        } else if str_eq(key.as_str(), "url") {
            validation.url = true;
        } else if str_eq(key.as_str(), "minLength") || str_eq(key.as_str(), "min_length") {
            if has_val {
                match parse_usize(val.as_str()) {
                    Some(n) => {
                        validation.min_length = Some(n);
                    },
                    None => {
                        let mut e = String::from_str("Invalid minLength value: ");
                        e.append(val.as_str());
                        proof {
                            assert(e@ =~= "Invalid minLength value: "@ + val@);
                        }
                        return Err(e);
                    },
                }
            } else {
                return Err(String::from_str("minLength requires a value"));
            }
        } else if str_eq(key.as_str(), "maxLength") || str_eq(key.as_str(), "max_length") {
            if has_val {
                match parse_usize(val.as_str()) {
                    Some(n) => {
                        validation.max_length = Some(n);
                    },
                    None => {
                        let mut e = String::from_str("Invalid maxLength value: ");
                        e.append(val.as_str());
                        proof {
                            assert(e@ =~= "Invalid maxLength value: "@ + val@);
                        }
                        return Err(e);
                    },
                }
            } else {
                return Err(String::from_str("maxLength requires a value"));
            }
        } else if str_eq(key.as_str(), "min") {
            if has_val {
                validation.min = Some(val);
            } else {
                return Err(String::from_str("min requires a value"));
            }
        } else if str_eq(key.as_str(), "max") {
            if has_val {
                validation.max = Some(val);
            } else {
                return Err(String::from_str("max requires a value"));
            }
        } else if str_eq(key.as_str(), "pattern") {
            if has_val {
                validation.pattern = Some(val);
            } else {
                return Err(String::from_str("pattern requires a value"));
            }
        } else {
            let mut e = String::from_str("Unknown validation rule: ");
            e.append(key.as_str());
            proof {
                assert(e@ =~= "Unknown validation rule: "@ + key@);
            }
            return Err(e);
        }
        proof {
            assert(spec_apply_rule(v0, rule@) == Ok::<FieldValidationV, Seq<char>>(validation@));
        }
        k += 1;
    }
    proof {
        assert(dv.skip(dv.len() as int) =~~= Seq::<Seq<char>>::empty());
    }
    Ok(())
}

// ---------------------------------------------------------------------------
// Field and relation parser
// ---------------------------------------------------------------------------

/// One parsed comma-separated unit: either a field or a relation.
enum ParsedUnit {
    F(Field),
    R(Relation),
}

/// Mathematical model of one parsed unit.
pub ghost enum ParsedUnitV {
    F(FieldV),
    R(RelationV),
}

/// What one comma-separated unit parses to. A unit holding `->` must be
/// `role->Target` with a recognized role; any other unit must be
/// `name:Type` or `name:Type|rules`, with a recognized type tag.
pub open spec fn spec_parse_unit(u: Seq<char>) -> Result<ParsedUnitV, Seq<char>> {
    if spec_contains(u, "->"@) {
        let parts = spec_split_sub(u, "->"@);
        if parts.len() != 2 {
            Err("Invalid relation format: "@ + u)
        } else {
            let role = spec_trim(parts[0]);
            let target = spec_trim(parts[1]);
            if role == "hasOne"@ {
                Ok(ParsedUnitV::R(RelationV::HasOne(target)))
            } else if role == "hasMany"@ {
                Ok(ParsedUnitV::R(RelationV::HasMany(target)))
            } else if role == "belongsTo"@ {
                Ok(ParsedUnitV::R(RelationV::BelongsTo(target)))
            } else {
                Err("Invalid relation type: "@ + parts[0])
            }
        }
    } else {
        let fparts = spec_split(u, ':');
        if fparts.len() != 2 {
            Err(
                "Invalid field format: "@ + u
                    + ". Expected format: name:type|validation1 validation2"@,
            )
        } else {
            let name = spec_trim(fparts[0]);
            let tv = spec_split(fparts[1], '|');
            let ty = spec_trim(tv[0]);
            if !spec_is_valid_type(ty) {
                Err(spec_type_error(ty))
            } else {
                let vres = if tv.len() > 1 {
                    spec_apply_rules(spec_default_validation(), spec_split(tv[1], ' '))
                } else {
                    Ok(spec_default_validation())
                };
                match vres {
                    Ok(v) => Ok(ParsedUnitV::F(FieldV { name, ty, validation: v })),
                    Err(e) => Err(e),
                }
            }
        }
    }
}

fn parse_unit(u: &str) -> (r: Result<ParsedUnit, String>)
    ensures
        match r {
            Ok(ParsedUnit::F(f)) => spec_parse_unit(u@) == Ok::<ParsedUnitV, Seq<char>>(
                ParsedUnitV::F(f@),
            ),
            Ok(ParsedUnit::R(rel)) => spec_parse_unit(u@) == Ok::<ParsedUnitV, Seq<char>>(
                ParsedUnitV::R(rel@),
            ),
            Err(e) => spec_parse_unit(u@) == Err::<ParsedUnitV, Seq<char>>(e@),
        },
{
    if contains_sub(u, "->") {
        proof {
            reveal_strlit("->");
        }
        let parts = split_sub(u, "->");
        if parts.len() != 2 {
            let mut e = String::from_str("Invalid relation format: ");
            e.append(u);
            proof {
                assert(e@ =~= "Invalid relation format: "@ + u@);
            }
            return Err(e);
        }
        let role = trim_str(parts[0].as_str());
        let target = trim_str(parts[1].as_str());
        proof {
            assert(parts.deep_view()[0] == parts@[0]@);
            assert(parts.deep_view()[1] == parts@[1]@);
        }
        if str_eq(role.as_str(), "hasOne") {
            Ok(ParsedUnit::R(Relation::HasOne(target)))
        } else if str_eq(role.as_str(), "hasMany") {
            Ok(ParsedUnit::R(Relation::HasMany(target)))
        } else if str_eq(role.as_str(), "belongsTo") {
            Ok(ParsedUnit::R(Relation::BelongsTo(target)))
        } else {
            let mut e = String::from_str("Invalid relation type: ");
            e.append(parts[0].as_str());
            proof {
                assert(e@ =~= "Invalid relation type: "@ + parts.deep_view()[0]);
            }
            Err(e)
        }
    } else {
        let fparts = split_char(u, ':');
        if fparts.len() != 2 {
            let mut e = String::from_str("Invalid field format: ");
            e.append(u);
            e.append(". Expected format: name:type|validation1 validation2");
            proof {
                assert(e@ =~= "Invalid field format: "@ + u@
                    + ". Expected format: name:type|validation1 validation2"@);
            }
            return Err(e);
        }
        proof {
            assert(fparts.deep_view()[0] == fparts@[0]@);
            assert(fparts.deep_view()[1] == fparts@[1]@);
        }
        let name = trim_str(fparts[0].as_str());
        let tv = split_char(fparts[1].as_str(), '|');
        proof {
            assert(tv.deep_view()[0] == tv@[0]@);
            assert(spec_split(fparts.deep_view()[1], '|').len() > 0);
        }
        let ty = trim_str(tv[0].as_str());
        match validate_field_type(ty.as_str()) {
            Ok(()) => {},
            Err(e) => {
                return Err(e);
            },
        }
        let mut validation = FieldValidation::default();
        if tv.len() > 1 {
            proof {
                assert(tv.deep_view()[1] == tv@[1]@);
            }
            let rules = split_char(tv[1].as_str(), ' ');
            match parse_validations(&mut validation, &rules) {
                Ok(()) => {},
                Err(e) => {
                    return Err(e);
                },
            }
        }
        Ok(ParsedUnit::F(Field { name, ty, validation }))
    }
}

/// A relation unit whose role is not exactly one of the three recognized
/// literals fails to parse, and the error text carries the offending role.
pub proof fn lemma_bad_relation_role(u: Seq<char>)
    requires
        spec_contains(u, "->"@),
        spec_split_sub(u, "->"@).len() == 2,
        spec_trim(spec_split_sub(u, "->"@)[0]) != "hasOne"@,
        spec_trim(spec_split_sub(u, "->"@)[0]) != "hasMany"@,
        spec_trim(spec_split_sub(u, "->"@)[0]) != "belongsTo"@,
    ensures
        spec_parse_unit(u) is Err,
        spec_parse_unit(u)->Err_0 == "Invalid relation type: "@ + spec_split_sub(u, "->"@)[0],
        spec_contains(spec_parse_unit(u)->Err_0, spec_split_sub(u, "->"@)[0]),
{
    let role_text = spec_split_sub(u, "->"@)[0];
    let head = "Invalid relation type: "@;
    let e = head + role_text;
    assert(e.subrange(head.len() as int, head.len() + role_text.len() as int) =~= role_text);
    assert(spec_contains_at(e, head.len() as int, role_text));
}

/// Comma-separated units folded left-to-right onto the accumulated field and
/// relation lists; the first bad unit aborts with its error.
pub open spec fn spec_parse_units(
    units: Seq<Seq<char>>,
    fields: Seq<FieldV>,
    rels: Seq<RelationV>,
) -> Result<(Seq<FieldV>, Seq<RelationV>), Seq<char>>
    decreases units.len(),
{
    if units.len() == 0 {
        Ok((fields, rels))
    } else {
        match spec_parse_unit(units[0]) {
            Ok(ParsedUnitV::F(f)) => spec_parse_units(units.drop_first(), fields.push(f), rels),
            Ok(ParsedUnitV::R(r)) => spec_parse_units(units.drop_first(), fields, rels.push(r)),
            Err(e) => Err(e),
        }
    }
}

/// Group strings folded left-to-right, each split on commas into units.
pub open spec fn spec_parse_groups(
    groups: Seq<Seq<char>>,
    fields: Seq<FieldV>,
    rels: Seq<RelationV>,
) -> Result<(Seq<FieldV>, Seq<RelationV>), Seq<char>>
    decreases groups.len(),
{
    if groups.len() == 0 {
        Ok((fields, rels))
    } else {
        match spec_parse_units(spec_split(groups[0], ','), fields, rels) {
            Ok(p) => spec_parse_groups(groups.drop_first(), p.0, p.1),
            Err(e) => Err(e),
        }
    }
}

/// What a sequence of raw field-group strings parses to: the fields and
/// relations in their textual order, or the first error.
pub open spec fn spec_parse_fields_and_relations(groups: Seq<Seq<char>>) -> Result<
    (Seq<FieldV>, Seq<RelationV>),
    Seq<char>,
> {
    spec_parse_groups(groups, seq![], seq![])
}

/// Parses raw field-group strings into the field list and relation list,
/// preserving textual order; the first malformed definition aborts the parse
/// with its error and no partial result.
pub fn parse_fields_and_relations(groups: &Vec<String>) -> (r: Result<
    (Vec<Field>, Vec<Relation>),
    String,
>)
    ensures
        match r {
            Ok(p) => spec_parse_fields_and_relations(groups.deep_view()) == Ok::<
                (Seq<FieldV>, Seq<RelationV>),
                Seq<char>,
            >((p.0.deep_view(), p.1.deep_view())),
            Err(e) => spec_parse_fields_and_relations(groups.deep_view()) == Err::<
                (Seq<FieldV>, Seq<RelationV>),
                Seq<char>,
            >(e@),
        },
{
    let ghost gdv = groups.deep_view();
    let mut fields: Vec<Field> = Vec::new();
    let mut rels: Vec<Relation> = Vec::new();
    let mut g: usize = 0;
    proof {
        assert(gdv.skip(0) =~~= gdv);
        assert(fields.deep_view() =~~= Seq::<FieldV>::empty());
        assert(rels.deep_view() =~~= Seq::<RelationV>::empty());
    }
    while g < groups.len()
        invariant
            g <= groups@.len(),
            gdv == groups.deep_view(),
            spec_parse_fields_and_relations(gdv) == spec_parse_groups(
                gdv.skip(g as int),
                fields.deep_view(),
                rels.deep_view(),
            ),
        decreases groups@.len() - g,
    {
        proof {
            assert(gdv.skip(g as int)[0] == gdv[g as int]);
            assert(gdv[g as int] == groups@[g as int]@);
            assert(gdv.skip(g as int).drop_first() =~~= gdv.skip(g + 1));
        }
        let units = split_char(groups[g].as_str(), ',');
        let ghost udv = units.deep_view();
        let mut k: usize = 0;
        proof {
            assert(udv.skip(0) =~~= udv);
        }
        while k < units.len()
            invariant
                k <= units@.len(),
                udv == units.deep_view(),
                gdv == groups.deep_view(),
                spec_parse_fields_and_relations(gdv) == (match spec_parse_units(
                    udv.skip(k as int),
                    fields.deep_view(),
                    rels.deep_view(),
                ) {
                    Ok(p) => spec_parse_groups(gdv.skip(g + 1), p.0, p.1),
                    Err(e) => Err(e),
                }),
            decreases units@.len() - k,
        {
            proof {
                assert(udv.skip(k as int)[0] == udv[k as int]);
                assert(udv[k as int] == units@[k as int]@);
                assert(udv.skip(k as int).drop_first() =~~= udv.skip(k + 1));
            }
            let ghost f0 = fields.deep_view();
            let ghost r0 = rels.deep_view();
            match parse_unit(units[k].as_str()) {
                Ok(ParsedUnit::F(f)) => {
                    fields.push(f);
                    proof {
                        assert(fields.deep_view() =~~= f0.push(f@));
                    }
                },
                Ok(ParsedUnit::R(rel)) => {
                    rels.push(rel);
                    proof {
                        assert(rels.deep_view() =~~= r0.push(rel@));
                    }
                },
                Err(e) => {
                    return Err(e);
                },
            }
            k += 1;
        }
        proof {
            assert(udv.skip(udv.len() as int) =~~= Seq::<Seq<char>>::empty());
        }
        g += 1;
    }
    proof {
        assert(gdv.skip(gdv.len() as int) =~~= Seq::<Seq<char>>::empty());
    }
    Ok((fields, rels))
}

} // verus!
