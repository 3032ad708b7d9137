use sia32::isle::{
    get_isle_compilations, get_isle_compilations_with, shared_isle_lower_paths, IsleFeatures, IslePath,
};

fn path(parts: &[&str]) -> IslePath {
    IslePath { components: parts.iter().map(|s| s.to_string()).collect() }
}

fn show(p: &IslePath) -> String {
    p.components.join("/")
}

#[test]
fn shared_lowering_sources_are_the_preludes() {
    let paths = shared_isle_lower_paths(&path(&["codegen"]));
    let shown: Vec<String> = paths.iter().map(show).collect();
    assert_eq!(
        shown,
        vec!["codegen/src/inst_specs.isle", "codegen/src/prelude.isle", "codegen/src/prelude_lower.isle"]
    );
}

#[test]
fn compilations_cover_the_optimiser_and_every_backend() {
    let all = get_isle_compilations(&path(&["c"]), &path(&["out"]));
    let names: Vec<&str> = all.items.iter().map(|c| c.name.as_str()).collect();
    assert_eq!(names, vec!["opt", "x64", "aarch64", "s390x", "riscv64", "sia32"]);

    let sia = all.lookup("sia32").unwrap();
    assert_eq!(show(&sia.output), "out/isle_sia32.rs");
    let inputs: Vec<String> = sia.inputs().iter().map(show).collect();
    assert_eq!(
        inputs,
        vec![
            "c/src/prelude.isle",
            "c/src/prelude_lower.isle",
            "c/src/isa/sia32/inst.isle",
            "c/src/isa/sia32/lower.isle",
            "out/numerics.isle",
            "out/clif_lower.isle",
        ]
    );
    assert!(all.lookup("pulley").is_none());

    let opt = all.lookup("opt").unwrap();
    assert_eq!(opt.tracked_inputs.len(), 14);
    assert_eq!(show(&opt.tracked_inputs[6]), "c/src/opts/icmp.isle");
    assert_eq!(opt.untracked_inputs.iter().map(show).collect::<Vec<_>>(), vec!["out/numerics.isle", "out/clif_opt.isle"]);

    let x64 = all.lookup("x64").unwrap();
    assert_eq!(show(x64.untracked_inputs.last().unwrap()), "out/assembler.isle");
    let aarch64 = all.lookup("aarch64").unwrap();
    assert_eq!(show(&aarch64.tracked_inputs[5]), "c/src/isa/aarch64/lower_dynamic_neon.isle");
}

#[test]
fn join_appends_one_component() {
    let p = path(&["a", "b"]).join("c.isle");
    assert_eq!(p.components, vec!["a", "b", "c.isle"]);
}

#[test]
fn optional_features_add_specification_sources_and_pulley() {
    let all = get_isle_compilations_with(&path(&["c"]), &path(&["g"]), IsleFeatures { spec: true, pulley: true });
    let names: Vec<&str> = all.items.iter().map(|c| c.name.as_str()).collect();
    assert_eq!(names, vec!["opt", "x64", "aarch64", "s390x", "riscv64", "sia32", "pulley"]);

    let opt = all.lookup("opt").unwrap();
    let listed: Vec<String> = opt.tracked_inputs.iter().map(show).collect();
    assert_eq!(listed.len(), 19);
    assert_eq!(
        listed[2..7].to_vec(),
        vec![
            "c/src/spec/prelude_spec.isle",
            "c/src/spec/inst_specs.isle",
            "c/src/spec/inst_tags.isle",
            "c/src/spec/fpconst.isle",
            "c/src/spec/opt.isle",
        ]
    );

    let sia = all.lookup("sia32").unwrap();
    let listed: Vec<String> = sia.tracked_inputs.iter().map(show).collect();
    assert_eq!(
        listed,
        vec![
            "c/src/prelude.isle",
            "c/src/prelude_lower.isle",
            "c/src/spec/prelude_spec.isle",
            "c/src/spec/inst_specs.isle",
            "c/src/spec/inst_tags.isle",
            "c/src/spec/prelude_lower_spec.isle",
            "c/src/isa/sia32/inst.isle",
            "c/src/isa/sia32/lower.isle",
        ]
    );

    let aarch64 = all.lookup("aarch64").unwrap();
    assert!(aarch64.tracked_inputs.iter().map(show).any(|p| p == "c/src/isa/aarch64/spec"));

    let pulley = all.lookup("pulley").unwrap();
    assert_eq!(show(&pulley.output), "g/isle_pulley_shared.rs");
    assert_eq!(
        pulley.untracked_inputs.iter().map(show).collect::<Vec<_>>(),
        vec!["g/numerics.isle", "g/pulley_gen.isle", "g/clif_lower.isle"]
    );
    assert_eq!(pulley.tracked_inputs.len(), 4);
}

#[test]
fn isle_sources_are_recognised_by_extension() {
    assert!(path(&["src", "isa", "sia32", "lower.isle"]).has_isle_extension());
    assert!(path(&["..isle"]).has_isle_extension());
    assert!(!path(&[".isle"]).has_isle_extension());
    assert!(!path(&["lower.isle.rs"]).has_isle_extension());
    assert!(!path(&["lower.ISLE"]).has_isle_extension());
    assert!(!path(&["isle"]).has_isle_extension());
    assert!(!path(&[]).has_isle_extension());
}
