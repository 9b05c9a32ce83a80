use bygge::graph::{bfs_order, DependencyGraph, Package};
use bygge::plan::{create_plan, default_overrides};

fn pkg(name: &str, version: &str, deps: Vec<usize>) -> Package {
    Package { name: String::from(name), version: String::from(version), deps }
}

fn manifest_2018() -> Vec<u8> {
    b"[package]\nname = \"dep\"\nversion = \"0.1.0\"\nedition = \"2018\"\n".to_vec()
}

fn manifest_2015_with_lib_path() -> Vec<u8> {
    b"[package]\nname = \"dep\"\nversion = \"0.1.0\"\n\n[lib]\npath = \"src/special.rs\"\n"
        .to_vec()
}

fn rule_block_count(plan: &str) -> usize {
    plan.matches(": rustc ").count()
}

#[test]
fn bfs_visits_diamond_once() {
    // root -> a, b; a -> c; b -> c: c is reached on two paths, visited once.
    let g = DependencyGraph {
        packages: vec![
            pkg("root", "1.0.0", vec![1, 2]),
            pkg("a", "0.1.0", vec![3]),
            pkg("b", "0.2.0", vec![3]),
            pkg("c", "0.3.0", vec![]),
        ],
        root: 0,
    };
    assert_eq!(bfs_order(&g), vec![0, 1, 2, 3]);
}

#[test]
fn bfs_ignores_unreachable_packages() {
    let g = DependencyGraph {
        packages: vec![
            pkg("root", "1.0.0", vec![2]),
            pkg("island", "0.1.0", vec![]),
            pkg("a", "0.2.0", vec![]),
        ],
        root: 0,
    };
    assert_eq!(bfs_order(&g), vec![0, 2]);
}

#[test]
fn three_node_round_trip() {
    // root -> a -> b, no skips: three rule blocks, chained implicit inputs,
    // and the default target is the root's binary.
    let g = DependencyGraph {
        packages: vec![
            pkg("root", "1.0.0", vec![1]),
            pkg("a", "0.1.0", vec![2]),
            pkg("b", "0.2.0", vec![]),
        ],
        root: 0,
    };
    let manifests = vec![None, Some(manifest_2018()), Some(manifest_2018())];
    let plan = create_plan(&g, &manifests, "Cargo.lock", "/reg", &default_overrides()).unwrap();
    assert_eq!(rule_block_count(&plan), 3);

    let root_header_at = plan.find("build build/root: rustc src/main.rs | Cargo.lock ").unwrap();
    let root_header_end = plan[root_header_at..].find('\n').unwrap() + root_header_at;
    let root_header = &plan[root_header_at..root_header_end];
    assert!(root_header.contains("build/deps/liba.rlib"));
    assert!(!root_header.contains("libb.rlib"));

    let a_header_at = plan
        .find("build build/deps/liba.rlib build/deps/liba.rmeta: rustc /reg/a-0.1.0/src/lib.rs")
        .unwrap();
    let a_header_end = plan[a_header_at..].find('\n').unwrap() + a_header_at;
    assert!(plan[a_header_at..a_header_end].contains("build/deps/libb.rlib"));

    assert!(plan.contains("build build/deps/libb.rlib build/deps/libb.rmeta: rustc"));
    assert!(plan.contains("\ndefault build/root\n"));
}

#[test]
fn diamond_dependency_gets_one_rule() {
    // root -> a, b; a -> shared; b -> shared: one rule for the shared
    // package, referenced by both dependents.
    let g = DependencyGraph {
        packages: vec![
            pkg("root", "1.0.0", vec![1, 2]),
            pkg("a", "0.1.0", vec![3]),
            pkg("b", "0.2.0", vec![3]),
            pkg("shared", "0.3.0", vec![]),
        ],
        root: 0,
    };
    let manifests =
        vec![None, Some(manifest_2018()), Some(manifest_2018()), Some(manifest_2018())];
    let plan = create_plan(&g, &manifests, "Cargo.lock", "/reg", &default_overrides()).unwrap();
    assert_eq!(rule_block_count(&plan), 4);
    assert_eq!(
        plan.matches("build build/deps/libshared.rlib build/deps/libshared.rmeta: rustc").count(),
        1
    );
    assert_eq!(plan.matches("--extern shared=build/deps/libshared.rlib ").count(), 2);
}

#[test]
fn skip_named_root_still_gets_its_rule() {
    // The skip set filters dependencies only; the root always gets a rule
    // and the default declaration.
    let g = DependencyGraph {
        packages: vec![pkg("winapi-tool", "1.0.0", vec![])],
        root: 0,
    };
    let plan = create_plan(&g, &vec![None], "Cargo.lock", "/reg", &default_overrides()).unwrap();
    assert_eq!(rule_block_count(&plan), 1);
    assert!(plan.contains("\ndefault build/winapi_tool\n"));
}

#[test]
fn exactly_one_default_target() {
    let g = DependencyGraph {
        packages: vec![pkg("my-tool", "1.0.0", vec![1]), pkg("a", "0.1.0", vec![])],
        root: 0,
    };
    let manifests = vec![None, Some(manifest_2018())];
    let plan = create_plan(&g, &manifests, "Cargo.lock", "/reg", &default_overrides()).unwrap();
    assert_eq!(plan.matches("\ndefault ").count(), 1);
    assert!(plan.contains("\ndefault build/my_tool\n"));
}

#[test]
fn skipped_dependency_gets_no_rule_and_no_references() {
    // root -> winapi-util, matched by the skip set: one rule block, and no
    // linkage or implicit reference to the skipped package's artifact.
    let g = DependencyGraph {
        packages: vec![pkg("root", "1.0.0", vec![1]), pkg("winapi-util", "0.1.5", vec![])],
        root: 0,
    };
    // No manifest is needed for a skipped package.
    let manifests = vec![None, None];
    let plan = create_plan(&g, &manifests, "Cargo.lock", "/reg", &default_overrides()).unwrap();
    assert_eq!(rule_block_count(&plan), 1);
    assert!(!plan.contains("--extern winapi_util"));
    assert!(!plan.contains("libwinapi_util"));
}

#[test]
fn normalized_names_agree_between_dependent_and_dependency() {
    // The linkage pairing in the dependent and the dependency's own output
    // stem use the same normalized name.
    let g = DependencyGraph {
        packages: vec![pkg("root", "1.0.0", vec![1]), pkg("some-dep", "0.4.2", vec![])],
        root: 0,
    };
    let manifests = vec![None, Some(manifest_2018())];
    let plan = create_plan(&g, &manifests, "Cargo.lock", "/reg", &default_overrides()).unwrap();
    assert!(plan.contains("--extern some_dep=build/deps/libsome_dep.rlib "));
    assert!(plan.contains("build build/deps/libsome_dep.rlib build/deps/libsome_dep.rmeta: rustc"));
    assert!(plan.contains("  name = some_dep \n"));
}

#[test]
fn missing_manifest_aborts_without_plan() {
    let g = DependencyGraph {
        packages: vec![pkg("root", "1.0.0", vec![1]), pkg("a", "0.1.0", vec![])],
        root: 0,
    };
    let manifests = vec![None, None];
    let err = create_plan(&g, &manifests, "Cargo.lock", "/reg", &default_overrides()).unwrap_err();
    assert_eq!(err.message().as_str(), "missing manifest for a");
}

#[test]
fn unparsable_manifest_aborts_without_plan() {
    let g = DependencyGraph {
        packages: vec![pkg("root", "1.0.0", vec![1]), pkg("a", "0.1.0", vec![])],
        root: 0,
    };
    let manifests = vec![None, Some(b"this is not a manifest [".to_vec())];
    let err = create_plan(&g, &manifests, "Cargo.lock", "/reg", &default_overrides()).unwrap_err();
    assert_eq!(err.message().as_str(), "invalid manifest for a");
}

#[test]
fn manifest_without_package_section_aborts() {
    let g = DependencyGraph {
        packages: vec![pkg("root", "1.0.0", vec![1]), pkg("a", "0.1.0", vec![])],
        root: 0,
    };
    let manifests = vec![None, Some(b"[lib]\npath = \"src/x.rs\"\n".to_vec())];
    let err = create_plan(&g, &manifests, "Cargo.lock", "/reg", &default_overrides()).unwrap_err();
    assert_eq!(err.message().as_str(), "invalid manifest for a");
}

#[test]
fn entry_override_and_editions_come_from_the_manifest() {
    let g = DependencyGraph {
        packages: vec![
            pkg("root", "1.0.0", vec![1, 2]),
            pkg("a", "0.1.0", vec![]),
            pkg("b", "0.2.0", vec![]),
        ],
        root: 0,
    };
    let manifests =
        vec![None, Some(manifest_2015_with_lib_path()), Some(manifest_2018())];
    let plan = create_plan(&g, &manifests, "Cargo.lock", "/reg", &default_overrides()).unwrap();
    // a: declared entry override, default edition.
    let a_at = plan.find("rustc /reg/a-0.1.0/src/special.rs").unwrap();
    let a_args = &plan[a_at..plan[a_at..].find("\n\n").unwrap() + a_at];
    assert!(a_args.contains("--edition 2015"));
    // b: conventional entry, 2018 edition.
    let b_at = plan.find("rustc /reg/b-0.2.0/src/lib.rs").unwrap();
    let b_args = &plan[b_at..plan[b_at..].find("\n\n").unwrap() + b_at];
    assert!(b_args.contains("--edition 2018"));
}

#[test]
fn libc_override_flags_are_applied() {
    let g = DependencyGraph {
        packages: vec![pkg("root", "1.0.0", vec![1]), pkg("libc", "0.2.80", vec![])],
        root: 0,
    };
    let manifests = vec![None, Some(manifest_2015_with_lib_path())];
    let plan = create_plan(&g, &manifests, "Cargo.lock", "/reg", &default_overrides()).unwrap();
    let libc_at = plan.find("  name = libc ").unwrap();
    let libc_args = &plan[libc_at..plan[libc_at..].find("\n\n").unwrap() + libc_at];
    assert!(libc_args.contains("--cfg 'feature=\"default\"'"));
    assert!(libc_args.contains("--cfg libc_packedN"));
    assert!(!plan[..libc_at].contains("--cfg libc_packedN"));
}

#[test]
fn plan_opens_with_the_fixed_preamble() {
    let g = DependencyGraph { packages: vec![pkg("root", "1.0.0", vec![])], root: 0 };
    let plan = create_plan(&g, &vec![None], "Cargo.lock", "/reg", &default_overrides()).unwrap();
    assert!(plan.starts_with("# Rules generated by bygge. DO NOT MODIFY BY HAND!\n"));
    assert!(plan.contains("\nrule rustc\n"));
    assert!(plan.contains("\nbuild Cargo.lock: cargo-fetch Cargo.toml\n"));
}

#[test]
fn lockfile_name_is_wired_into_the_root_rule() {
    let g = DependencyGraph { packages: vec![pkg("root", "1.0.0", vec![])], root: 0 };
    let plan =
        create_plan(&g, &vec![None], "other.lock", "/reg", &default_overrides()).unwrap();
    assert!(plan.contains("build build/root: rustc src/main.rs | other.lock "));
    assert!(plan.contains("--crate-type bin --edition 2018 -L dependency=build/deps"));
    assert!(plan.contains("  emit = dep-info,link\n"));
    assert!(plan.contains("  depfile = build/root.d\n"));
}
