use polyqd::command::Tessellation;
use polyqd::config::{Config, SpecDims};
use polyqd::errors::PipelineError;
use polyqd::geometry::{flatness_verdict, surface_step};
use polyqd::pipeline::{check_exit, dispatch, plan_reg, tess_config, CliCommand, Plan};
use polyqd::stages::{Mesh, Reg, Tess};

fn dims(dx: &str, dy: &str, dz: &str) -> SpecDims {
    SpecDims { dx: dx.to_owned(), dy: dy.to_owned(), dz: dz.to_owned() }
}

/// The position of the flag token whose value immediately follows it, if the
/// flag occurs.
fn pair_value<'a>(args: &'a [String], flag: &str) -> Option<&'a str> {
    args.iter().position(|a| a == flag).map(|i| args[i + 1].as_str())
}

#[test]
fn fresh_spec_emits_only_required_flags() {
    let t = Tessellation::new("50");
    let args = t.command_args();
    assert_eq!(args, vec!["--rcfile", "none", "-T", "-n", "50", "-morpho", ""]);
}

#[test]
fn unset_sel_emits_no_sel_token() {
    let t = Tessellation::new("50");
    let args = t.command_args();
    assert!(!args.iter().any(|a| a == "-sel"));
}

#[test]
fn set_sel_emits_the_contiguous_pair() {
    let mut t = Tessellation::new("50");
    t.sel("0.05");
    let args = t.command_args();
    let i = args.iter().position(|a| a == "-sel").unwrap();
    assert_eq!(args[i + 1], "0.05");
}

#[test]
fn reg_flag_accepts_only_zero_and_one() {
    let mut t = Tessellation::new("50");
    assert_eq!(t.reg("0"), Ok(()));
    assert_eq!(t.reg("1"), Ok(()));
    let before = t.clone();
    assert_eq!(t.reg("2"), Err(PipelineError::InvalidRegFlag("2".to_owned())));
    assert_eq!(t, before);
    assert_eq!(t.reg(""), Err(PipelineError::InvalidRegFlag("".to_owned())));
}

#[test]
fn every_field_emits_its_pair_in_declared_order() {
    let mut t = Tessellation::new("20");
    t.domain("cube(1,1,1)");
    t.morpho("graingrowth");
    t.morphooptiini("coo:file(a),weight:file(a)");
    assert_eq!(t.reg("1"), Ok(()));
    t.fmax("20");
    t.sel("0.1");
    t.mloop("5");
    t.output("out");
    t.format("tess");
    let args = t.command_args();
    assert_eq!(
        args,
        vec![
            "--rcfile",
            "none",
            "-T",
            "-n",
            "20",
            "-domain",
            "cube(1,1,1)",
            "-morpho",
            "graingrowth",
            "-morphooptiini",
            "coo:file(a),weight:file(a)",
            "-reg",
            "1",
            "-fmax",
            "20",
            "-sel",
            "0.1",
            "-mloop",
            "5",
            "-o",
            "out",
            "-format",
            "tess",
        ]
    );
}

#[test]
fn tess_stage_scenario() {
    // `tess -n 50 --dims 1 1 1`: the persisted specification and the
    // generator invocation.
    let config = tess_config("50".to_owned(), dims("1", "1", "1"), None).unwrap();
    let t = Tess::new(config);
    assert_eq!(
        t.persisted_config().to_json(),
        "{\"dims\":{\"dx\":1,\"dy\":1,\"dz\":1},\"n\":\"50\",\"morpho\":\"graingrowth\"}"
    );
    let args = t.command_args();
    assert_eq!(pair_value(&args, "-domain"), Some("cube(1,1,1)"));
    assert_eq!(pair_value(&args, "-n"), Some("50"));
    assert_eq!(pair_value(&args, "-morpho"), Some("graingrowth"));
    assert_eq!(pair_value(&args, "-o"), Some("polyqd-cache/polyqd-tess"));
    assert_eq!(pair_value(&args, "-format"), Some("tess"));
    assert!(!args.iter().any(|a| a == "-reg"));
}

#[test]
fn reg_stage_scenario() {
    // `reg --fmax 15 --mloop 3` after the tess scenario.
    let config = Config {
        dims: dims("1", "1", "1"),
        n: "50".to_owned(),
        morpho: "graingrowth".to_owned(),
    };
    let reg = plan_reg(&config, Some("15"), None, Some("3"));
    let args = reg.command_args();
    assert_eq!(pair_value(&args, "-reg"), Some("1"));
    assert_eq!(pair_value(&args, "-fmax"), Some("15"));
    assert_eq!(pair_value(&args, "-mloop"), Some("3"));
    assert_eq!(
        pair_value(&args, "-morphooptiini"),
        Some("coo:file(polyqd-cache/polyqd-tess.tess),weight:file(polyqd-cache/polyqd-tess.tess)")
    );
    assert_eq!(pair_value(&args, "-domain"), Some("cube(1,1,1)"));
    assert_eq!(pair_value(&args, "-o"), Some("polyqd-cache/polyqd-tess-reg"));
    assert_eq!(pair_value(&args, "-format"), Some("geo"));
    assert!(!args.iter().any(|a| a == "-sel"));
}

#[test]
fn reg_defaults_apply_when_no_option_is_given() {
    let config = Config {
        dims: dims("1", "1", "1"),
        n: "50".to_owned(),
        morpho: "graingrowth".to_owned(),
    };
    let reg = plan_reg(&config, None, None, None);
    let args = reg.command_args();
    assert_eq!(pair_value(&args, "-fmax"), Some("20"));
    assert_eq!(pair_value(&args, "-mloop"), Some("5"));
    assert!(!args.iter().any(|a| a == "-sel"));
}

#[test]
fn reg_new_keeps_the_persisted_specification_verbatim() {
    let config = Config {
        dims: dims("2.5", "0.75", "10"),
        n: "128".to_owned(),
        morpho: "voronoi".to_owned(),
    };
    let reg = Reg::new(&config);
    let args = reg.command_args();
    assert_eq!(pair_value(&args, "-n"), Some("128"));
    assert_eq!(pair_value(&args, "-morpho"), Some("voronoi"));
    assert_eq!(pair_value(&args, "-domain"), Some("cube(2.5,0.75,10)"));
}

#[test]
fn mesh_script_is_rendered_exactly() {
    let m = Mesh::new("0.2", "part.msh", "Merge \"polyqd.geo\";");
    assert_eq!(m.script, "var_cl = 0.2;\nMerge \"polyqd.geo\";\nSave \"../part.msh\";");
    assert_eq!(m.command_args(), vec!["polyqd-cache/script.geo", "-"]);
}

#[test]
fn regmesh_forces_sel_equal_to_cl() {
    // `regmesh --cl 0.2 -o part.msh` after the tess scenario.
    let config_text =
        "{\"dims\":{\"dx\":1,\"dy\":1,\"dz\":1},\"n\":\"50\",\"morpho\":\"graingrowth\"}";
    let cmd = CliCommand::RegMesh {
        fmax: None,
        mloop: None,
        cl: "0.2".to_owned(),
        output: "part.msh".to_owned(),
    };
    let plan = dispatch(cmd, Some(config_text), "Mesh 3;").unwrap();
    match plan {
        Plan::RegMesh(reg, mesh) => {
            let args = reg.command_args();
            assert_eq!(pair_value(&args, "-sel"), Some("0.2"));
            assert_eq!(mesh.script, "var_cl = 0.2;\nMesh 3;\nSave \"../part.msh\";");
        },
        _ => panic!("regmesh must dispatch to a reg stage followed by a mesh stage"),
    }
}

#[test]
fn reg_without_prior_tess_is_a_missing_prerequisite() {
    let cmd = CliCommand::Reg { fmax: None, sel: None, mloop: None };
    assert_eq!(dispatch(cmd, None, ""), Err(PipelineError::ConfigNotFound));
    let cmd = CliCommand::RegMesh {
        fmax: None,
        mloop: None,
        cl: "0.2".to_owned(),
        output: "part.msh".to_owned(),
    };
    assert_eq!(dispatch(cmd, None, ""), Err(PipelineError::ConfigNotFound));
}

#[test]
fn reg_with_a_corrupt_cache_is_malformed() {
    let cmd = CliCommand::Reg { fmax: None, sel: None, mloop: None };
    assert_eq!(dispatch(cmd, Some("garbage"), ""), Err(PipelineError::ConfigMalformed));
}

#[test]
fn tess_dispatch_builds_the_tess_plan() {
    let cmd = CliCommand::Tess {
        n: "50".to_owned(),
        dims: dims("1", "1", "1"),
        morpho: Some("voronoi".to_owned()),
    };
    match dispatch(cmd, None, "").unwrap() {
        Plan::Tess(t) => {
            let args = t.command_args();
            assert_eq!(pair_value(&args, "-morpho"), Some("voronoi"));
        },
        _ => panic!("tess must dispatch to the tess stage"),
    }
}

#[test]
fn tess_rejects_values_the_cache_record_cannot_carry() {
    // A morphology with a quote cannot be embedded verbatim in the
    // persisted record; the command fails before any cache write.
    assert_eq!(
        tess_config("50".to_owned(), dims("1", "1", "1"), Some("gg\"x".to_owned())),
        Err(PipelineError::InvalidConfigText("gg\"x".to_owned()))
    );
    assert_eq!(
        tess_config("".to_owned(), dims("1", "1", "1"), None),
        Err(PipelineError::InvalidConfigText("".to_owned()))
    );
    assert_eq!(
        tess_config("50".to_owned(), dims("0", "1", "1"), None),
        Err(PipelineError::InvalidDimension("0".to_owned()))
    );
    let cmd = CliCommand::Tess {
        n: "50".to_owned(),
        dims: dims("1", "1", "1"),
        morpho: Some("back\\slash".to_owned()),
    };
    assert_eq!(
        dispatch(cmd, None, ""),
        Err(PipelineError::InvalidConfigText("back\\slash".to_owned()))
    );
}

#[test]
fn a_created_specification_survives_the_round_trip() {
    let config = tess_config(
        "from_morpho(diameq:lognormal(1,0.35))".to_owned(),
        dims("2.5", "0.75", "10"),
        Some("voronoi".to_owned()),
    )
    .unwrap();
    let text = config.to_json();
    assert_eq!(Config::load(Some(&text)), Ok(config));
}

#[test]
fn flatness_verdict_succeeds_when_every_surface_is_corrected() {
    assert_eq!(flatness_verdict(&vec![(1, true), (2, true), (3, true)]), Ok(()));
    assert_eq!(flatness_verdict(&vec![]), Ok(()));
}

#[test]
fn flatness_verdict_names_the_first_offending_surface() {
    assert_eq!(
        flatness_verdict(&vec![(7, true), (9, false), (11, false)]),
        Err(PipelineError::FlatnessCorrectionFailed(9))
    );
    assert_eq!(surface_step(4, true), Ok(()));
    assert_eq!(surface_step(4, false), Err(PipelineError::FlatnessCorrectionFailed(4)));
}

#[test]
fn nonzero_exit_status_is_a_process_failure() {
    assert_eq!(check_exit("neper", 0), Ok(()));
    assert_eq!(
        check_exit("neper", 7),
        Err(PipelineError::ProcessFailed("neper".to_owned(), 7))
    );
    assert_eq!(
        check_exit("gmsh", -1),
        Err(PipelineError::ProcessFailed("gmsh".to_owned(), -1))
    );
}

#[test]
fn cache_paths_are_fixed() {
    assert_eq!(polyqd::cache::rel_cache("x"), "polyqd-cache/x");
    assert_eq!(polyqd::cache::config_path(), "polyqd-cache/config.json");
    assert_eq!(polyqd::cache::tess_artifact(), "polyqd-cache/polyqd-tess.tess");
    assert_eq!(polyqd::cache::reg_geometry_path(), "polyqd-cache/polyqd-tess-reg.geo");
    assert_eq!(polyqd::cache::corrected_geometry_path(), "polyqd-cache/polyqd.geo");
    assert_eq!(polyqd::cache::script_path(), "polyqd-cache/script.geo");
}
