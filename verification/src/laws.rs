//! Whole-plan laws: what holds of every generated plan, stated over the
//! same spec functions the generator's contracts use.

use vstd::prelude::*;
use crate::graph::{reachable, DependencyGraph};
use crate::names::{normalized, skip_name};
use crate::plan::{block_text, lib_target};
use crate::rules::{dep_artifact, dep_inputs_text, extern_flags_text, Override};

verus! {

/// How many times `v` occurs in a visit order.
pub open spec fn count_of(order: Seq<usize>, v: usize) -> nat
    decreases order.len(),
{
    if order.len() == 0 {
        0
    } else {
        count_of(order.drop_last(), v) + (if order.last() == v {
            1nat
        } else {
            0nat
        })
    }
}

/// In a duplicate-free order, a package occurs once when it occurs at all.
proof fn lemma_count_no_dup(s: Seq<usize>, v: usize)
    requires
        s.no_duplicates(),
    ensures
        count_of(s, v) == if s.contains(v) {
            1nat
        } else {
            0nat
        },
    decreases s.len(),
{
    if s.len() == 0 {
    } else {
        let butlast = s.drop_last();
        assert(butlast.no_duplicates());
        lemma_count_no_dup(butlast, v);
        if s.last() == v {
            assert(!butlast.contains(v)) by {
                if butlast.contains(v) {
                    let j = choose|j: int| 0 <= j < butlast.len() && butlast[j] == v;
                    assert(s[j] == s[s.len() - 1]);
                }
            }
            assert(s.contains(v)) by {
                assert(s[s.len() - 1] == v);
            }
        } else {
            if butlast.contains(v) {
                let j = choose|j: int| 0 <= j < butlast.len() && butlast[j] == v;
                assert(s[j] == v);
            }
            if s.contains(v) {
                let j = choose|j: int| 0 <= j < s.len() && s[j] == v;
                assert(butlast[j] == v);
            }
        }
    }
}

/// Law: a visit order that is duplicate-free and holds exactly the
/// reachable packages visits the root exactly once; since only the root's
/// block carries the default-target declaration (see `block_text`), the
/// plan marks exactly one rule — the root's — as the default.
pub proof fn lemma_one_default(g: DependencyGraph, order: Seq<usize>)
    requires
        order.no_duplicates(),
        forall|v: usize| #[trigger] order.contains(v) <==> reachable(g, v as int),
        reachable(g, g.root as int),
    ensures
        count_of(order, g.root) == 1,
{
    lemma_count_no_dup(order, g.root);
}

/// Law: every package reachable from the root is visited exactly once,
/// however many distinct paths lead to it; since each visit of a
/// non-skipped package emits exactly one rule block (see `block_text`),
/// exactly one rule is emitted for it.
pub proof fn lemma_rule_per_reachable(g: DependencyGraph, order: Seq<usize>, v: usize)
    requires
        order.no_duplicates(),
        forall|u: usize| #[trigger] order.contains(u) <==> reachable(g, u as int),
        reachable(g, v as int),
    ensures
        count_of(order, v) == 1,
{
    lemma_count_no_dup(order, v);
}

/// Law: a package matched by the skip set contributes nothing to the
/// plan: its own block is empty.
pub proof fn lemma_skipped_block_empty(
    g: DependencyGraph,
    u: int,
    ms: Seq<Option<Vec<u8>>>,
    lockfile: Seq<char>,
    registry: Seq<char>,
    ovs: Seq<Override>,
)
    requires
        u != g.root as int,
        skip_name(g.packages@[u].name@),
    ensures
        block_text(g, u, ms, lockfile, registry, ovs) == Ok::<Seq<char>, Seq<char>>(
            Seq::<char>::empty(),
        ),
{
}

/// A dependency-name list with every skip-set match removed, order kept.
pub open spec fn without_skipped(names: Seq<Seq<char>>) -> Seq<Seq<char>>
    decreases names.len(),
{
    if names.len() == 0 {
        names
    } else {
        let rest = without_skipped(names.drop_last());
        if !skip_name(names.last()) {
            rest.push(names.last())
        } else {
            rest
        }
    }
}

/// No skip-set match survives the removal.
pub proof fn lemma_without_skipped_members(names: Seq<Seq<char>>)
    ensures
        forall|j: int|
            0 <= j < without_skipped(names).len() ==> !skip_name(
                #[trigger] without_skipped(names)[j],
            ),
    decreases names.len(),
{
    if names.len() == 0 {
    } else {
        let rest = without_skipped(names.drop_last());
        lemma_without_skipped_members(names.drop_last());
        assert forall|j: int| 0 <= j < without_skipped(names).len() implies !skip_name(
            #[trigger] without_skipped(names)[j],
        ) by {
            if !skip_name(names.last()) {
                assert(without_skipped(names) == rest.push(names.last()));
                if j < rest.len() {
                    assert(without_skipped(names)[j] == rest[j]);
                } else {
                    assert(without_skipped(names)[j] == names.last());
                }
            } else {
                assert(without_skipped(names)[j] == rest[j]);
            }
        }
    }
}

/// Law: skipped dependencies contribute nothing to any dependent's rule:
/// the implicit inputs and the linkage flags computed from a dependency
/// list equal those computed from the list with every skipped name
/// removed.
pub proof fn lemma_skip_filtered(names: Seq<Seq<char>>)
    ensures
        dep_inputs_text(names) == dep_inputs_text(without_skipped(names)),
        extern_flags_text(names) == extern_flags_text(without_skipped(names)),
    decreases names.len(),
{
    if names.len() == 0 {
    } else {
        let butlast = names.drop_last();
        lemma_skip_filtered(butlast);
        if !skip_name(names.last()) {
            assert(without_skipped(names) == without_skipped(butlast).push(names.last()));
            assert(without_skipped(names).drop_last() =~= without_skipped(butlast));
            assert(without_skipped(names).last() == names.last());
            assert(without_skipped(names).len() == without_skipped(butlast).len() + 1);
        } else {
            assert(without_skipped(names) == without_skipped(butlast));
        }
    }
}

/// Law: name normalization is applied consistently. The archive path a
/// dependent's implicit inputs and linkage flags reference for a
/// dependency named `name` is exactly the first output artifact of that
/// dependency's own rule, both built from the one normalized form of
/// `name`.
pub proof fn lemma_linkage_matches_output(name: Seq<char>)
    ensures
        lib_target(name).subrange(0, dep_artifact(name).len() as int) == dep_artifact(name),
        lib_target(name).len() > dep_artifact(name).len(),
        lib_target(name)[dep_artifact(name).len() as int] == ' ',
{
    reveal_strlit(" ");
    assert(lib_target(name).subrange(0, dep_artifact(name).len() as int) =~= dep_artifact(name));
}

/// Law: the linkage pairing emitted for one non-skipped dependency names
/// the dependency by its normalized name and points at the same
/// normalized-stem archive its own rule produces.
pub proof fn lemma_extern_pairing(name: Seq<char>)
    requires
        !skip_name(name),
    ensures
        extern_flags_text(seq![name]) == "--extern "@ + normalized(name) + "="@ + dep_artifact(
            name,
        ) + " "@,
{
    assert(seq![name].drop_last() =~= Seq::<Seq<char>>::empty());
    assert(extern_flags_text(Seq::<Seq<char>>::empty()) == Seq::<char>::empty());
    assert(Seq::<char>::empty() + ("--extern "@ + normalized(name) + "="@ + dep_artifact(name)
        + " "@) =~= "--extern "@ + normalized(name) + "="@ + dep_artifact(name) + " "@);
}

} // verus!
