//! Module index updating: aggregator files that declare and re-export every
//! generated module. Updates are pure functions from the current file text to
//! the new text; they append, never remove or reorder, and are idempotent.
use crate::dsl::{spec_relation_target, Relation, RelationV};
use crate::names::{lower_of, pascal_of, to_lower, to_pascal_case};
use crate::strutil::{contains_sub, spec_contains, spec_contains_at};
use vstd::prelude::*;

verus! {

/// The declaration line whose presence marks a module as already registered.
pub open spec fn spec_mod_decl(m: Seq<char>) -> Seq<char> {
    "pub mod "@ + m + ";"@
}

/// The two-line block appended for a new module: its declaration and a
/// re-export of `use_target` from it.
pub open spec fn spec_decl_block(m: Seq<char>, use_target: Seq<char>) -> Seq<char> {
    spec_mod_decl(m) + "\n"@ + "pub use "@ + m + "::"@ + use_target + ";\n"@
}

/// Index text after registering module `m`: unchanged when its declaration
/// already occurs, otherwise the declaration block is appended after a
/// newline separator (the separator only when the text was non-empty).
pub open spec fn spec_update_module_index(
    content: Seq<char>,
    m: Seq<char>,
    use_target: Seq<char>,
) -> Seq<char> {
    if spec_contains(content, spec_mod_decl(m)) {
        content
    } else {
        let base = if content.len() > 0 {
            content + "\n"@
        } else {
            content
        };
        base + spec_decl_block(m, use_target)
    }
}

/// Builds the module declaration line for `m`.
fn mod_decl_line(m: &str) -> (r: String)
    ensures
        r@ == spec_mod_decl(m@),
{
    let mut n = String::from_str("pub mod ");
    n.append(m);
    n.append(";");
    proof {
        assert(n@ =~= spec_mod_decl(m@));
    }
    n
}

/// Appends the declaration block for `m` re-exporting `use_target` to `out`.
fn append_decl_block(out: &mut String, m: &str, use_target: &str)
    ensures
        final(out)@ == old(out)@ + spec_decl_block(m@, use_target@),
{
    out.append("pub mod ");
    out.append(m);
    out.append(";\n");
    out.append("pub use ");
    out.append(m);
    out.append("::");
    out.append(use_target);
    out.append(";\n");
    proof {
        assert(";\n"@ =~= ";"@ + "\n"@) by {
            reveal_strlit(";\n");
            reveal_strlit(";");
            reveal_strlit("\n");
        }
        assert(out@ =~= old(out)@ + spec_decl_block(m@, use_target@));
    }
}

/// Registers module `m` in an aggregator text, re-exporting `use_target`
/// from it; a module already declared leaves the text unchanged, and existing
/// lines are never removed or reordered.
pub fn update_module_index(content: &str, m: &str, use_target: &str) -> (r: String)
    ensures
        r@ == spec_update_module_index(content@, m@, use_target@),
{
    let needle = mod_decl_line(m);
    if contains_sub(content, needle.as_str()) {
        String::from_str(content)
    } else {
        let mut out = String::from_str(content);
        if content.unicode_len() > 0 {
            out.append("\n");
        }
        append_decl_block(&mut out, m, use_target);
        out
    }
}

/// An occurrence of `n` in `c` stays an occurrence after text is appended.
pub proof fn lemma_contains_concat_left(c: Seq<char>, d: Seq<char>, n: Seq<char>)
    requires
        spec_contains(c, n),
    ensures
        spec_contains(c + d, n),
{
    let i = choose|i: int| #[trigger] spec_contains_at(c, i, n);
    assert((c + d).subrange(i, i + n.len() as int) =~= c.subrange(i, i + n.len() as int));
    assert(spec_contains_at(c + d, i, n));
}

/// Registering a module leaves its declaration line in the text.
pub proof fn lemma_update_contains_decl(content: Seq<char>, m: Seq<char>, use_target: Seq<char>)
    ensures
        spec_contains(spec_update_module_index(content, m, use_target), spec_mod_decl(m)),
{
    let needle = spec_mod_decl(m);
    if spec_contains(content, needle) {
    } else {
        let base = if content.len() > 0 {
            content + "\n"@
        } else {
            content
        };
        let r = base + spec_decl_block(m, use_target);
        assert(r.subrange(base.len() as int, base.len() + needle.len() as int) =~= needle);
        assert(spec_contains_at(r, base.len() as int, needle));
    }
}

/// Module-index update is idempotent: registering the same module twice
/// yields the same text as registering it once.
pub proof fn lemma_update_module_index_idempotent(
    content: Seq<char>,
    m: Seq<char>,
    use_target: Seq<char>,
)
    ensures
        spec_update_module_index(spec_update_module_index(content, m, use_target), m, use_target)
            == spec_update_module_index(content, m, use_target),
{
    lemma_update_contains_decl(content, m, use_target);
}

// ---------------------------------------------------------------------------
// The entities aggregator, which also registers relation targets
// ---------------------------------------------------------------------------

/// Index text after appending a declaration block for each relation target
/// not yet declared, in relation order, each checked against the text as it
/// grows.
pub open spec fn spec_add_targets(content: Seq<char>, rels: Seq<RelationV>) -> Seq<char>
    decreases rels.len(),
{
    if rels.len() == 0 {
        content
    } else {
        let t = spec_relation_target(rels[0]);
        let c2 = if spec_contains(content, spec_mod_decl(lower_of(t))) {
            content
        } else {
            content + spec_decl_block(lower_of(t), t)
        };
        spec_add_targets(c2, rels.drop_first())
    }
}

/// Entities-aggregator text after registering entity `name`: unchanged when
/// its module is already declared; otherwise the entity's declaration block
/// is appended (re-exporting its PascalCase type), then one block per
/// relation target whose module is not yet declared.
pub open spec fn spec_update_entities_index(
    content: Seq<char>,
    name: Seq<char>,
    rels: Seq<RelationV>,
) -> Seq<char> {
    let m = lower_of(name);
    if spec_contains(content, spec_mod_decl(m)) {
        content
    } else {
        let base = if content.len() > 0 {
            content + "\n"@
        } else {
            content
        };
        spec_add_targets(base + spec_decl_block(m, pascal_of(name)), rels)
    }
}

/// The name of the entity a relation points at.
pub fn relation_target(r: &Relation) -> (t: &String)
    ensures
        t@ == spec_relation_target(r@),
{
    match r {
        Relation::HasOne(t) => t,
        Relation::HasMany(t) => t,
        Relation::BelongsTo(t) => t,
    }
}

/// Registers entity `name` in the entities aggregator text, and with it every
/// relation target module not yet declared; idempotent in `name`.
pub fn update_entities_index(content: &str, name: &str, rels: &Vec<Relation>) -> (r: String)
    ensures
        r@ == spec_update_entities_index(content@, name@, rels.deep_view()),
{
    let module_name = to_lower(name);
    let pascal_name = to_pascal_case(name);
    let needle = mod_decl_line(module_name.as_str());
    if contains_sub(content, needle.as_str()) {
        return String::from_str(content);
    }
    let mut out = String::from_str(content);
    if content.unicode_len() > 0 {
        out.append("\n");
    }
    append_decl_block(&mut out, module_name.as_str(), pascal_name.as_str());
    let ghost rdv = rels.deep_view();
    let mut i: usize = 0;
    proof {
        assert(rdv.skip(0) =~= rdv);
    }
    while i < rels.len()
        invariant
            i <= rels@.len(),
            rdv == rels.deep_view(),
            spec_update_entities_index(content@, name@, rdv) == spec_add_targets(
                out@,
                rdv.skip(i as int),
            ),
        decreases rels@.len() - i,
    {
        proof {
            assert(rdv.skip(i as int)[0] == rdv[i as int]);
            assert(rdv[i as int] == rels@[i as int]@);
            assert(rdv.skip(i as int).drop_first() =~= rdv.skip(i + 1));
        }
        let target = relation_target(&rels[i]);
        let target_lower = to_lower(target.as_str());
        let tneedle = mod_decl_line(target_lower.as_str());
        if !contains_sub(out.as_str(), tneedle.as_str()) {
            let target_copy = String::from_str(target.as_str());
            append_decl_block(&mut out, target_lower.as_str(), target_copy.as_str());
        }
        i += 1;
    }
    proof {
        assert(rdv.skip(rdv.len() as int) =~= Seq::<RelationV>::empty());
    }
    out
}

/// Appending target blocks preserves any occurrence already in the text.
pub proof fn lemma_add_targets_preserves_contains(
    content: Seq<char>,
    rels: Seq<RelationV>,
    n: Seq<char>,
)
    requires
        spec_contains(content, n),
    ensures
        spec_contains(spec_add_targets(content, rels), n),
    decreases rels.len(),
{
    if rels.len() > 0 {
        let t = spec_relation_target(rels[0]);
        if spec_contains(content, spec_mod_decl(lower_of(t))) {
            lemma_add_targets_preserves_contains(content, rels.drop_first(), n);
        } else {
            lemma_contains_concat_left(content, spec_decl_block(lower_of(t), t), n);
            lemma_add_targets_preserves_contains(
                content + spec_decl_block(lower_of(t), t),
                rels.drop_first(),
                n,
            );
        }
    }
}

/// Entities-index update is idempotent: registering the same entity twice
/// yields the same text as registering it once.
pub proof fn lemma_update_entities_index_idempotent(
    content: Seq<char>,
    name: Seq<char>,
    rels: Seq<RelationV>,
)
    ensures
        spec_update_entities_index(
            spec_update_entities_index(content, name, rels),
            name,
            rels,
        ) == spec_update_entities_index(content, name, rels),
{
    let needle = spec_mod_decl(lower_of(name));
    if spec_contains(content, needle) {
    } else {
        let base = if content.len() > 0 {
            content + "\n"@
        } else {
            content
        };
        let c2 = base + spec_decl_block(lower_of(name), pascal_of(name));
        assert(c2.subrange(base.len() as int, base.len() + needle.len() as int) =~= needle);
        assert(spec_contains_at(c2, base.len() as int, needle));
        lemma_add_targets_preserves_contains(c2, rels, needle);
    }
}

} // verus!
