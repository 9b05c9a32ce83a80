//! Plan generation: drives the traversal, synthesizes one rule per
//! visited non-skipped package, and serializes the whole plan text.
//!
//! The plan is built in memory and returned only when every visited
//! package resolved; any missing or unusable dependency manifest aborts
//! generation with an error and no partial plan escapes.

use vstd::prelude::*;
use crate::errors::Error;
use crate::graph::{bfs_order, graph_wf, reachable, DependencyGraph};
use crate::manifest::{edition, edition_text, entry_of, manifest_info, parse_manifest, resolve_entry, ManifestInfo};
use crate::names::{normalize_crate_name, normalized, skip_dep, skip_name};
use crate::rules::{build_rule, dep_artifact, lookup_override, lookup_spec, rule_text, Override};

verus! {

/// The fixed preamble of every plan: global options, the rule templates
/// the per-package blocks refer to, and the fetch rule wiring the lock
/// file to the manifest file.
pub open spec fn preamble() -> Seq<char> {
    "# Rules generated by bygge. DO NOT MODIFY BY HAND!\nextraargs = --cap-lints allow -C debuginfo=2\n\nrule cargo-fetch\n  command = cargo fetch --manifest-path $in && touch $out\n  description = CARGO $in\n\nrule rustc\n  command = rustc --crate-name $name $in --emit=$emit --out-dir $outdir $extraargs $args && sed -i '' '/\\.d:/g' $depfile\n  description = RUSTC $out\n  depfile = $depfile\n  deps = gcc\n\nbuild Cargo.lock: cargo-fetch Cargo.toml\n\n"@
}

/// Appends the fixed plan preamble.
fn write_preamble(out: &mut String)
    ensures
        final(out)@ == old(out)@ + preamble(),
{
    out.append(
        "# Rules generated by bygge. DO NOT MODIFY BY HAND!\nextraargs = --cap-lints allow -C debuginfo=2\n\nrule cargo-fetch\n  command = cargo fetch --manifest-path $in && touch $out\n  description = CARGO $in\n\nrule rustc\n  command = rustc --crate-name $name $in --emit=$emit --out-dir $outdir $extraargs $args && sed -i '' '/\\.d:/g' $depfile\n  description = RUSTC $out\n  depfile = $depfile\n  deps = gcc\n\nbuild Cargo.lock: cargo-fetch Cargo.toml\n\n",
    );
}

/// The extra flags compiled into a `libc` rule, compensating for the
/// absence of general feature resolution.
pub open spec fn libc_flags() -> Seq<char> {
    "--cfg 'feature=\"default\"' --cfg 'feature=\"extra_traits\"' --cfg 'feature=\"std\"' --cfg freebsd11 --cfg libc_priv_mod_use --cfg libc_union --cfg libc_const_size_of --cfg libc_align --cfg libc_core_cvoid --cfg libc_packedN"@
}

/// The default override table: one hand-maintained entry for `libc`.
pub fn default_overrides() -> (r: Vec<Override>)
    ensures
        r@.len() == 1,
        r@[0].name@ == "libc"@,
        r@[0].flags@ == libc_flags(),
{
    let mut r: Vec<Override> = Vec::new();
    r.push(
        Override {
            name: String::from_str("libc"),
            flags: String::from_str(
                "--cfg 'feature=\"default\"' --cfg 'feature=\"extra_traits\"' --cfg 'feature=\"std\"' --cfg freebsd11 --cfg libc_priv_mod_use --cfg libc_union --cfg libc_const_size_of --cfg libc_align --cfg libc_core_cvoid --cfg libc_packedN",
            ),
        },
    );
    r
}

/// The raw names of a package's direct dependencies, in declared order.
pub open spec fn dep_names_of(g: DependencyGraph, u: int) -> Seq<Seq<char>> {
    g.packages@[u].deps@.map(|_k: int, d: usize| g.packages@[d as int].name@)
}

/// Collects the raw names of a package's direct dependencies.
fn collect_dep_names(g: &DependencyGraph, u: usize) -> (names: Vec<String>)
    requires
        graph_wf(*g),
        u < g.packages@.len(),
    ensures
        names.deep_view() == dep_names_of(*g, u as int),
{
    let mut names: Vec<String> = Vec::new();
    let len = g.packages[u].deps.len();
    let mut k: usize = 0;
    while k < len
        invariant
            graph_wf(*g),
            u < g.packages@.len(),
            len == g.packages@[u as int].deps@.len(),
            k <= len,
            names@.len() == k,
            names.deep_view() == dep_names_of(*g, u as int).take(k as int),
        decreases len - k,
    {
        let d = g.packages[u].deps[k];
        names.push(g.packages[d].name.clone());
        proof {
            assert(names.deep_view() =~~= dep_names_of(*g, u as int).take(k as int + 1));
        }
        k = k + 1;
    }
    proof {
        assert(dep_names_of(*g, u as int).take(len as int) =~= dep_names_of(*g, u as int));
    }
    names
}

/// The root package's output artifact path.
pub open spec fn root_target(g: DependencyGraph) -> Seq<char> {
    "build/"@ + normalized(g.packages@[g.root as int].name@)
}

/// A library package's output artifacts: the archive dependents link
/// against, then the metadata sidecar, both stemmed with the normalized
/// name.
pub open spec fn lib_target(name: Seq<char>) -> Seq<char> {
    dep_artifact(name) + " "@ + "build/deps/lib"@ + normalized(name) + ".rmeta"@
}

/// The directory of a package in the local package cache, keyed by raw
/// name and version.
pub open spec fn crate_dir(registry: Seq<char>, name: Seq<char>, version: Seq<char>) -> Seq<char> {
    registry + "/"@ + name + "-"@ + version
}

/// The path of a library package's entry file inside the package cache.
pub open spec fn entry_path(
    registry: Seq<char>,
    name: Seq<char>,
    version: Seq<char>,
    entry: Seq<char>,
) -> Seq<char> {
    crate_dir(registry, name, version) + "/"@ + entry
}

/// The root package's block: its compile rule followed by the
/// default-target declaration naming its output artifact.
pub open spec fn root_rule(g: DependencyGraph, lockfile: Seq<char>, ovs: Seq<Override>) -> Seq<
    char,
> {
    let name = g.packages@[g.root as int].name@;
    rule_text(
        name,
        root_target(g),
        seq!["src/main.rs"@],
        seq![lockfile],
        "build"@,
        "bin"@,
        "2018"@,
        "dep-info,link"@,
        dep_names_of(g, g.root as int),
        lookup_spec(ovs, normalized(name)),
    ) + "default "@ + root_target(g) + "\n"@
}

/// A library package's compile rule, synthesized from its manifest's
/// entry override and edition.
pub open spec fn lib_rule(
    g: DependencyGraph,
    u: int,
    info: (Option<Seq<char>>, bool),
    registry: Seq<char>,
    ovs: Seq<Override>,
) -> Seq<char> {
    let name = g.packages@[u].name@;
    let version = g.packages@[u].version@;
    rule_text(
        name,
        lib_target(name),
        seq![entry_path(registry, name, version, entry_of(info.0))],
        Seq::<Seq<char>>::empty(),
        "build/deps"@,
        "lib"@,
        edition_text(info.1),
        "dep-info,metadata,link"@,
        dep_names_of(g, u),
        lookup_spec(ovs, normalized(name)),
    )
}

/// What one visited package contributes to the plan: the root's rule and
/// default declaration; nothing for a skipped package; a library rule for
/// any other, or the error generation aborts with when its manifest is
/// missing or unusable.
pub open spec fn block_text(
    g: DependencyGraph,
    u: int,
    ms: Seq<Option<Vec<u8>>>,
    lockfile: Seq<char>,
    registry: Seq<char>,
    ovs: Seq<Override>,
) -> Result<Seq<char>, Seq<char>> {
    let name = g.packages@[u].name@;
    if u == g.root as int {
        Ok(root_rule(g, lockfile, ovs))
    } else if skip_name(name) {
        Ok(Seq::<char>::empty())
    } else {
        match ms[u] {
            None => Err("missing manifest for "@ + name),
            Some(b) => match manifest_info(b@) {
                None => Err("invalid manifest for "@ + name),
                Some(info) => Ok(lib_rule(g, u, info, registry, ovs)),
            },
        }
    }
}

/// The serialized plan for the packages of `order`, visited left to
/// right after the preamble; the first failing package's error wins.
pub open spec fn render(
    g: DependencyGraph,
    order: Seq<usize>,
    ms: Seq<Option<Vec<u8>>>,
    lockfile: Seq<char>,
    registry: Seq<char>,
    ovs: Seq<Override>,
) -> Result<Seq<char>, Seq<char>>
    decreases order.len(),
{
    if order.len() == 0 {
        Ok(preamble())
    } else {
        match render(g, order.drop_last(), ms, lockfile, registry, ovs) {
            Err(e) => Err(e),
            Ok(t) => match block_text(g, order.last() as int, ms, lockfile, registry, ovs) {
                Err(e) => Err(e),
                Ok(b) => Ok(t + b),
            },
        }
    }
}

/// Once a prefix of the visit order fails to render, the whole order
/// fails with the same error.
proof fn lemma_render_err_persists(
    g: DependencyGraph,
    order: Seq<usize>,
    j: int,
    ms: Seq<Option<Vec<u8>>>,
    lockfile: Seq<char>,
    registry: Seq<char>,
    ovs: Seq<Override>,
)
    requires
        0 <= j <= order.len(),
        render(g, order.take(j), ms, lockfile, registry, ovs) is Err,
    ensures
        render(g, order, ms, lockfile, registry, ovs) == render(
            g,
            order.take(j),
            ms,
            lockfile,
            registry,
            ovs,
        ),
    decreases order.len() - j,
{
    if j == order.len() {
        assert(order.take(j) =~= order);
    } else {
        assert(order.take(j + 1).drop_last() =~= order.take(j));
        lemma_render_err_persists(g, order, j + 1, ms, lockfile, registry, ovs);
    }
}

/// Appends the root package's rule block and the default-target
/// declaration.
#[verifier::rlimit(100)]
fn emit_root_block(out: &mut String, g: &DependencyGraph, lockfile: &str, overrides: &Vec<Override>)
    requires
        graph_wf(*g),
    ensures
        final(out)@ == old(out)@ + root_rule(*g, lockfile@, overrides@),
{
    let u = g.root;
    let norm = normalize_crate_name(g.packages[u].name.as_str());
    let mut target = String::from_str("build/");
    target.append(norm.as_str());
    let mut deps: Vec<String> = Vec::new();
    deps.push(String::from_str("src/main.rs"));
    let mut implicit: Vec<String> = Vec::new();
    implicit.push(String::from_str(lockfile));
    let dep_names = collect_dep_names(g, u);
    let extra = lookup_override(overrides, norm.as_str());
    build_rule(
        out,
        g.packages[u].name.as_str(),
        target.as_str(),
        &deps,
        &implicit,
        "build",
        "bin",
        "2018",
        "dep-info,link",
        &dep_names,
        extra,
    );
    out.append("default ");
    out.append(target.as_str());
    out.append("\n");
    proof {
        assert(deps.deep_view() =~~= seq!["src/main.rs"@]);
        assert(implicit.deep_view() =~~= seq![lockfile@]);
        assert(out@ =~= old(out)@ + root_rule(*g, lockfile@, overrides@));
    }
}

/// Appends one library package's rule block, synthesized from its parsed
/// manifest.
#[verifier::rlimit(100)]
fn emit_lib_block(
    out: &mut String,
    g: &DependencyGraph,
    u: usize,
    info: &ManifestInfo,
    registry: &str,
    overrides: &Vec<Override>,
)
    requires
        graph_wf(*g),
        u < g.packages@.len(),
    ensures
        final(out)@ == old(out)@ + lib_rule(
            *g,
            u as int,
            crate::manifest::info_view(*info),
            registry@,
            overrides@,
        ),
{
    let name = g.packages[u].name.as_str();
    let norm = normalize_crate_name(name);
    let entry = resolve_entry(info);
    let mut ep = String::from_str(registry);
    ep.append("/");
    ep.append(name);
    ep.append("-");
    ep.append(g.packages[u].version.as_str());
    ep.append("/");
    ep.append(entry.as_str());
    let mut target = String::from_str("build/deps/lib");
    target.append(norm.as_str());
    target.append(".rlib");
    target.append(" ");
    target.append("build/deps/lib");
    target.append(norm.as_str());
    target.append(".rmeta");
    let mut deps: Vec<String> = Vec::new();
    deps.push(ep);
    let implicit: Vec<String> = Vec::new();
    let dep_names = collect_dep_names(g, u);
    let extra = lookup_override(overrides, norm.as_str());
    let ed = edition(info.edition);
    build_rule(
        out,
        name,
        target.as_str(),
        &deps,
        &implicit,
        "build/deps",
        "lib",
        ed,
        "dep-info,metadata,link",
        &dep_names,
        extra,
    );
    proof {
        let iv = crate::manifest::info_view(*info);
        assert(deps.deep_view() =~~= seq![
            entry_path(registry@, name@, g.packages@[u as int].version@, entry_of(iv.0)),
        ]);
        assert(implicit.deep_view() =~~= Seq::<Seq<char>>::empty());
        assert(target@ == lib_target(name@));
        assert(out@ == old(out)@ + lib_rule(*g, u as int, iv, registry@, overrides@));
    }
}

/// Generates the whole plan for a dependency graph: the preamble, one
/// rule per package reachable from the root and not matched by the skip
/// set, and the default-target declaration for the root. Fails, yielding
/// no plan at all, exactly when some reachable, non-skipped library
/// package has a missing or unusable manifest. Rules stand in
/// breadth-first visit order; the order affects only where blocks stand
/// in the text, since the executor resolves the graph from each rule's
/// declared inputs.
#[verifier::loop_isolation(false)]
#[verifier::rlimit(100)]
pub fn create_plan(
    g: &DependencyGraph,
    manifests: &Vec<Option<Vec<u8>>>,
    lockfile: &str,
    registry: &str,
    overrides: &Vec<Override>,
) -> (r: Result<String, Error>)
    requires
        graph_wf(*g),
        manifests@.len() == g.packages@.len(),
    ensures
        exists|order: Seq<usize>|
            {
                &&& order.len() >= 1
                &&& order[0] == g.root
                &&& #[trigger] order.no_duplicates()
                &&& (forall|v: usize| order.contains(v) <==> reachable(*g, v as int))
                &&& match render(*g, order, manifests@, lockfile@, registry@, overrides@) {
                    Ok(t) => r matches Ok(s) && s@ == t,
                    Err(m) => r matches Err(e) && e.msg@ == m,
                }
            },
{
    let order = bfs_order(g);
    let ghost ord = order@;
    let mut out = String::new();
    write_preamble(&mut out);
    proof {
        assert(ord.take(0) =~= Seq::<usize>::empty());
        assert(out@ =~= preamble());
    }
    let mut idx: usize = 0;
    while idx < order.len()
        invariant
            idx <= ord.len(),
            order@ == ord,
            render(*g, ord.take(idx as int), manifests@, lockfile@, registry@, overrides@) == Ok::<
                Seq<char>,
                Seq<char>,
            >(out@),
        decreases ord.len() - idx,
    {
        let ghost prev = out@;
        let u = order[idx];
        proof {
            assert(ord.take(idx as int + 1).drop_last() =~= ord.take(idx as int));
            assert(ord.take(idx as int + 1).last() == u);
        }
        if u == g.root {
            emit_root_block(&mut out, g, lockfile, overrides);
        } else {
            if !skip_dep(g.packages[u].name.as_str()) {
                match &manifests[u] {
                    None => {
                        let mut msg = String::from_str("missing manifest for ");
                        msg.append(g.packages[u].name.as_str());
                        proof {
                            lemma_render_err_persists(
                                *g,
                                ord,
                                idx as int + 1,
                                manifests@,
                                lockfile@,
                                registry@,
                                overrides@,
                            );
                        }
                        return Err(Error::new(msg));
                    },
                    Some(bytes) => {
                        match parse_manifest(bytes) {
                            None => {
                                let mut msg = String::from_str("invalid manifest for ");
                                msg.append(g.packages[u].name.as_str());
                                proof {
                                    lemma_render_err_persists(
                                        *g,
                                        ord,
                                        idx as int + 1,
                                        manifests@,
                                        lockfile@,
                                        registry@,
                                        overrides@,
                                    );
                                }
                                return Err(Error::new(msg));
                            },
                            Some(info) => {
                                emit_lib_block(&mut out, g, u, &info, registry, overrides);
                            },
                        }
                    },
                }
            } else {
                proof {
                    assert(prev + Seq::<char>::empty() =~= prev);
                }
            }
        }
        idx = idx + 1;
    }
    proof {
        assert(ord.take(ord.len() as int) =~= ord);
    }
    Ok(out)
}

/// The command line that runs the external executor against a plan file.
pub fn build(ninja_file: &str) -> (cmd: Vec<String>)
    ensures
        cmd@.len() == 3,
        cmd@[0]@ == "ninja"@,
        cmd@[1]@ == "-f"@,
        cmd@[2]@ == ninja_file@,
{
    let mut cmd: Vec<String> = Vec::new();
    cmd.push(String::from_str("ninja"));
    cmd.push(String::from_str("-f"));
    cmd.push(String::from_str(ninja_file));
    cmd
}

} // verus!
