//! Synthesis of one compile rule per package.
//!
//! A rule block names the output artifacts, the explicit and implicit
//! inputs, and the compiler invocation parameters. Dependencies matched by
//! the skip set contribute neither an implicit input nor a linkage flag.
//! Extra compiler flags come from an injected override table keyed by
//! normalized name.

use vstd::prelude::*;
use crate::names::{contains_seq, normalize_crate_name, normalized, skip_dep, skip_name};

verus! {

/// An entry of the override table: extra compiler flags for the package
/// whose normalized name matches.
pub struct Override {
    /// Normalized package name the flags apply to.
    pub name: String,
    /// The flags, as one pre-formed argument string without trailing space.
    pub flags: String,
}

/// The flags of the first override entry whose name matches, if any.
pub open spec fn lookup_spec(ovs: Seq<Override>, name: Seq<char>) -> Option<Seq<char>>
    decreases ovs.len(),
{
    if ovs.len() == 0 {
        None
    } else if ovs[0].name@ == name {
        Some(ovs[0].flags@)
    } else {
        lookup_spec(ovs.drop_first(), name)
    }
}

/// Finds the extra flags configured for a normalized package name.
pub fn lookup_override<'a>(ovs: &'a Vec<Override>, name: &str) -> (r: Option<&'a String>)
    ensures
        match r {
            Some(f) => lookup_spec(ovs@, name@) == Some(f@),
            None => lookup_spec(ovs@, name@) is None,
        },
{
    proof {
        assert(ovs@.skip(0) =~= ovs@);
    }
    let mut i: usize = 0;
    while i < ovs.len()
        invariant
            i <= ovs@.len(),
            lookup_spec(ovs@, name@) == lookup_spec(ovs@.skip(i as int), name@),
        decreases ovs@.len() - i,
    {
        proof {
            assert(ovs@.skip(i as int)[0] == ovs@[i as int]);
            assert(ovs@.skip(i as int).drop_first() =~= ovs@.skip(i as int + 1));
        }
        if crate::names::str_eq(ovs[i].name.as_str(), name) {
            return Some(&ovs[i].flags);
        }
        i = i + 1;
    }
    proof {
        assert(ovs@.skip(i as int) =~= Seq::<Override>::empty());
    }
    None
}

/// Path list entries joined by single spaces, no trailing space.
pub open spec fn join_space(parts: Seq<Seq<char>>) -> Seq<char>
    decreases parts.len(),
{
    if parts.len() == 0 {
        Seq::empty()
    } else if parts.len() == 1 {
        parts[0]
    } else {
        join_space(parts.drop_last()) + " "@ + parts.last()
    }
}

/// The archive artifact path a dependency is referenced by, built from the
/// dependency's own normalized name.
pub open spec fn dep_artifact(name: Seq<char>) -> Seq<char> {
    "build/deps/lib"@ + normalized(name) + ".rlib"@
}

/// The implicit build-input references of a rule: one archive artifact per
/// direct dependency not matched by the skip set, each followed by a space.
pub open spec fn dep_inputs_text(names: Seq<Seq<char>>) -> Seq<char>
    decreases names.len(),
{
    if names.len() == 0 {
        Seq::empty()
    } else {
        dep_inputs_text(names.drop_last()) + (if skip_name(names.last()) {
            Seq::<char>::empty()
        } else {
            dep_artifact(names.last()) + " "@
        })
    }
}

/// The linkage flags of a rule: one `--extern` pairing per direct
/// dependency not matched by the skip set, normalized name to archive
/// path, each followed by a space.
pub open spec fn extern_flags_text(names: Seq<Seq<char>>) -> Seq<char>
    decreases names.len(),
{
    if names.len() == 0 {
        Seq::empty()
    } else {
        extern_flags_text(names.drop_last()) + (if skip_name(names.last()) {
            Seq::<char>::empty()
        } else {
            "--extern "@ + normalized(names.last()) + "="@ + dep_artifact(names.last()) + " "@
        })
    }
}

/// The flags-with-separator form of an override lookup result.
pub open spec fn extra_text(extra: Option<Seq<char>>) -> Seq<char> {
    match extra {
        Some(f) => f + " "@,
        None => Seq::<char>::empty(),
    }
}

/// One whole rule block of the plan: the header line naming outputs, rule
/// template, explicit inputs and implicit inputs; the indented variable
/// assignments; and the trailing blank separator line.
pub open spec fn rule_text(
    pkg_name: Seq<char>,
    target: Seq<char>,
    deps: Seq<Seq<char>>,
    implicit_deps: Seq<Seq<char>>,
    outdir: Seq<char>,
    crate_type: Seq<char>,
    edition: Seq<char>,
    emit: Seq<char>,
    dep_names: Seq<Seq<char>>,
    extra: Option<Seq<char>>,
) -> Seq<char> {
    let norm = normalized(pkg_name);
    "build "@ + target + ": rustc "@ + join_space(deps) + " | "@ + join_space(implicit_deps)
        + " "@ + dep_inputs_text(dep_names) + "\n"@ + "  name = "@ + norm + " \n"@
        + "  args = --crate-type "@ + crate_type + " --edition "@ + edition
        + " -L dependency=build/deps "@ + extra_text(extra) + extern_flags_text(dep_names) + "\n"@
        + "  outdir = "@ + outdir + "\n"@ + "  emit = "@ + emit + "\n"@ + "  depfile = "@ + outdir
        + "/"@ + norm + ".d\n"@ + "\n"@
}

/// Appends the entries joined by single spaces.
fn append_join_space(out: &mut String, parts: &Vec<String>)
    ensures
        final(out)@ == old(out)@ + join_space(parts.deep_view()),
{
    let mut i: usize = 0;
    while i < parts.len()
        invariant
            i <= parts@.len(),
            parts.deep_view().len() == parts@.len(),
            out@ == old(out)@ + join_space(parts.deep_view().take(i as int)),
        decreases parts@.len() - i,
    {
        if i > 0 {
            out.append(" ");
        }
        out.append(parts[i].as_str());
        proof {
            let dv = parts.deep_view();
            assert(dv.take(i as int + 1).drop_last() =~= dv.take(i as int));
            assert(dv.take(i as int + 1).last() == dv[i as int]);
            assert(dv[i as int] == parts@[i as int]@);
            assert(out@ =~= old(out)@ + join_space(dv.take(i as int + 1)));
        }
        i = i + 1;
    }
    proof {
        assert(parts.deep_view().take(parts@.len() as int) =~= parts.deep_view());
    }
}

/// Appends one archive-artifact reference per non-skipped dependency.
fn append_dep_inputs(out: &mut String, dep_names: &Vec<String>)
    ensures
        final(out)@ == old(out)@ + dep_inputs_text(dep_names.deep_view()),
{
    let mut i: usize = 0;
    while i < dep_names.len()
        invariant
            i <= dep_names@.len(),
            dep_names.deep_view().len() == dep_names@.len(),
            out@ == old(out)@ + dep_inputs_text(dep_names.deep_view().take(i as int)),
        decreases dep_names@.len() - i,
    {
        if !skip_dep(dep_names[i].as_str()) {
            out.append("build/deps/lib");
            let norm = normalize_crate_name(dep_names[i].as_str());
            out.append(norm.as_str());
            out.append(".rlib");
            out.append(" ");
        }
        proof {
            let dv = dep_names.deep_view();
            assert(dv.take(i as int + 1).drop_last() =~= dv.take(i as int));
            assert(dv.take(i as int + 1).last() == dv[i as int]);
            assert(dv[i as int] == dep_names@[i as int]@);
            assert(out@ =~= old(out)@ + dep_inputs_text(dv.take(i as int + 1)));
        }
        i = i + 1;
    }
    proof {
        assert(dep_names.deep_view().take(dep_names@.len() as int) =~= dep_names.deep_view());
    }
}

/// Appends one `--extern` linkage flag per non-skipped dependency.
fn append_extern_flags(out: &mut String, dep_names: &Vec<String>)
    ensures
        final(out)@ == old(out)@ + extern_flags_text(dep_names.deep_view()),
{
    let mut i: usize = 0;
    while i < dep_names.len()
        invariant
            i <= dep_names@.len(),
            dep_names.deep_view().len() == dep_names@.len(),
            out@ == old(out)@ + extern_flags_text(dep_names.deep_view().take(i as int)),
        decreases dep_names@.len() - i,
    {
        if !skip_dep(dep_names[i].as_str()) {
            out.append("--extern ");
            let norm = normalize_crate_name(dep_names[i].as_str());
            out.append(norm.as_str());
            out.append("=");
            out.append("build/deps/lib");
            out.append(norm.as_str());
            out.append(".rlib");
            out.append(" ");
        }
        proof {
            let dv = dep_names.deep_view();
            assert(dv.take(i as int + 1).drop_last() =~= dv.take(i as int));
            assert(dv.take(i as int + 1).last() == dv[i as int]);
            assert(dv[i as int] == dep_names@[i as int]@);
            assert(out@ =~= old(out)@ + extern_flags_text(dv.take(i as int + 1)));
        }
        i = i + 1;
    }
    proof {
        assert(dep_names.deep_view().take(dep_names@.len() as int) =~= dep_names.deep_view());
    }
}

/// The override lookup result as the spec-level option it stands for.
pub open spec fn extra_view(extra: Option<&String>) -> Option<Seq<char>> {
    match extra {
        Some(f) => Some(f@),
        None => None,
    }
}

/// Appends one complete rule block for a package: outputs, explicit and
/// implicit inputs, the per-dependency implicit archive references, and
/// the invocation variable assignments including the linkage flags.
#[verifier::rlimit(100)]
pub fn build_rule(
    out: &mut String,
    pkg_name: &str,
    target: &str,
    deps: &Vec<String>,
    implicit_deps: &Vec<String>,
    outdir: &str,
    crate_type: &str,
    edition: &str,
    emit: &str,
    dep_names: &Vec<String>,
    extra: Option<&String>,
)
    ensures
        final(out)@ == old(out)@ + rule_text(
            pkg_name@,
            target@,
            deps.deep_view(),
            implicit_deps.deep_view(),
            outdir@,
            crate_type@,
            edition@,
            emit@,
            dep_names.deep_view(),
            extra_view(extra),
        ),
{
    let norm = normalize_crate_name(pkg_name);
    out.append("build ");
    out.append(target);
    out.append(": rustc ");
    append_join_space(out, deps);
    out.append(" | ");
    append_join_space(out, implicit_deps);
    out.append(" ");
    append_dep_inputs(out, dep_names);
    out.append("\n");
    out.append("  name = ");
    out.append(norm.as_str());
    out.append(" \n");
    out.append("  args = --crate-type ");
    out.append(crate_type);
    out.append(" --edition ");
    out.append(edition);
    out.append(" -L dependency=build/deps ");
    match extra {
        Some(f) => {
            out.append(f.as_str());
            out.append(" ");
        },
        None => {},
    }
    append_extern_flags(out, dep_names);
    out.append("\n");
    out.append("  outdir = ");
    out.append(outdir);
    out.append("\n");
    out.append("  emit = ");
    out.append(emit);
    out.append("\n");
    out.append("  depfile = ");
    out.append(outdir);
    out.append("/");
    out.append(norm.as_str());
    out.append(".d\n");
    out.append("\n");
    proof {
        assert(out@ =~= old(out)@ + rule_text(
            pkg_name@,
            target@,
            deps.deep_view(),
            implicit_deps.deep_view(),
            outdir@,
            crate_type@,
            edition@,
            emit@,
            dep_names.deep_view(),
            extra_view(extra),
        ));
    }
}

} // verus!
