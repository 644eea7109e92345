//! The dispatcher: maps the four pipeline commands to fully built stage
//! values, wiring the shared defaults, and interprets external process exit
//! statuses.

use vstd::prelude::*;

use crate::command::TessView;
use crate::config::{
    config_wf, domain_descriptor_of, json_of, parse_spec, Config, ConfigView, SpecDims,
};
use crate::errors::PipelineError;
use crate::stages::{coord_weight_source, script_of, Mesh, Reg, Tess};
use crate::text::all_plain_chars;

verus! {

/// One parsed pipeline command, as the command-line front end hands it over.
#[derive(Debug, PartialEq, Eq)]
pub enum CliCommand {
    /// Generate the initial tessellation. The morphology defaults when the
    /// caller supplies none.
    Tess { n: String, dims: SpecDims, morpho: Option<String> },
    /// Regularize the cached tessellation.
    Reg { fmax: Option<String>, sel: Option<String>, mloop: Option<String> },
    /// Mesh the regularized tessellation.
    Mesh { cl: String, output: String },
    /// Regularize then mesh, with the small-edge selector forced equal to
    /// the characteristic length.
    RegMesh { fmax: Option<String>, mloop: Option<String>, cl: String, output: String },
}

/// What a command dispatches to: the stage values to run, in order.
#[derive(Debug, PartialEq, Eq)]
pub enum Plan {
    Tess(Tess),
    Reg(Reg),
    Mesh(Mesh),
    RegMesh(Reg, Mesh),
}

/// The specification a `tess` command creates: the given extents and grain
/// count, and the given morphology or its default. Validation happens here,
/// before any cache file could be touched: the command fails exactly when
/// the persisted record could not carry the values.
pub fn tess_config(n: String, dims: SpecDims, morpho: Option<String>) -> (r: Result<
    Config,
    PipelineError,
>)
    ensures
        r is Ok <==> config_wf(
            ConfigView {
                dims: dims@,
                n: n@,
                morpho: match morpho {
                    Some(m) => m@,
                    None => "graingrowth"@,
                },
            },
        ),
        r matches Ok(c) ==> c@ == (ConfigView {
            dims: dims@,
            n: n@,
            morpho: match morpho {
                Some(m) => m@,
                None => "graingrowth"@,
            },
        }) && parse_spec(json_of(c@)) == Some(c@),
        r matches Err(e) ==> (e matches PipelineError::InvalidDimension(_) || e matches
            PipelineError::InvalidConfigText(_)),
{
    match morpho {
        Some(m) => Config::new(dims, n, m),
        None => {
            let r = Config::new(dims, n, "graingrowth".to_owned());
            proof {
                reveal_strlit("graingrowth");
                assert(all_plain_chars("graingrowth"@));
            }
            r
        },
    }
}

/// The regularization stage a `reg` or `regmesh` command creates from the
/// persisted specification: the maximum flatness fault and the loop count
/// default when absent; the small-edge selector stays absent unless given,
/// leaving the generator's own default in force.
pub fn plan_reg(config: &Config, fmax: Option<&str>, sel: Option<&str>, mloop: Option<&str>) -> (r:
    Reg)
    ensures
        r.0@ == (TessView {
            n: config.n@,
            morpho: config.morpho@,
            domain: Some(domain_descriptor_of(config.dims@)),
            morphooptiini: Some(coord_weight_source()),
            reg: Some("1"@),
            fmax: Some(
                match fmax {
                    Some(f) => f@,
                    None => "20"@,
                },
            ),
            sel: match sel {
                Some(s) => Some(s@),
                None => None,
            },
            mloop: Some(
                match mloop {
                    Some(m) => m@,
                    None => "5"@,
                },
            ),
            output: Some("polyqd-cache/polyqd-tess-reg"@),
            format: Some("geo"@),
        }),
{
    let mut reg = Reg::new(config);
    match fmax {
        Some(f) => reg.fmax(f),
        None => reg.fmax("20"),
    }
    match sel {
        Some(s) => reg.sel(s),
        None => {},
    }
    match mloop {
        Some(m) => reg.mloop(m),
        None => reg.mloop("5"),
    }
    proof {
        assert(reg.0@ =~~= (TessView {
            n: config.n@,
            morpho: config.morpho@,
            domain: Some(domain_descriptor_of(config.dims@)),
            morphooptiini: Some(coord_weight_source()),
            reg: Some("1"@),
            fmax: Some(
                match fmax {
                    Some(f) => f@,
                    None => "20"@,
                },
            ),
            sel: match sel {
                Some(s) => Some(s@),
                None => None,
            },
            mloop: Some(
                match mloop {
                    Some(m) => m@,
                    None => "5"@,
                },
            ),
            output: Some("polyqd-cache/polyqd-tess-reg"@),
            format: Some("geo"@),
        }));
    }
    reg
}

/// Maps a command to its plan. `config_file` is the persisted
/// specification's contents, or nothing when the file does not exist; the
/// commands that do not need it never look at it. `template` is the opaque
/// external meshing procedure. A `reg` or `regmesh` with no persisted
/// specification fails with the missing-prerequisite error before any stage
/// value is built; a `regmesh` forces the small-edge selector equal to the
/// characteristic length.
pub fn dispatch(cmd: CliCommand, config_file: Option<&str>, template: &str) -> (r: Result<
    Plan,
    PipelineError,
>)
    ensures
        // A tess command succeeds exactly when the persisted record can
        // carry the values; the plan then holds the full command
        // specification and the fields to persist.
        cmd matches CliCommand::Tess { n, dims, morpho } ==> (r is Ok <==> config_wf(
            ConfigView {
                dims: dims@,
                n: n@,
                morpho: match morpho {
                    Some(m) => m@,
                    None => "graingrowth"@,
                },
            },
        )),
        cmd matches CliCommand::Tess { n, dims, morpho } ==> (r matches Ok(p) ==> p matches
            Plan::Tess(t) && t.dims@ == dims@ && t.n@ == n@ && t.tess@ == (TessView {
            n: n@,
            morpho: match morpho {
                Some(m) => m@,
                None => "graingrowth"@,
            },
            domain: Some(domain_descriptor_of(dims@)),
            morphooptiini: None,
            reg: None,
            fmax: None,
            sel: None,
            mloop: None,
            output: Some("polyqd-cache/polyqd-tess"@),
            format: Some("tess"@),
        })),
        cmd matches CliCommand::Tess { .. } ==> (r matches Err(e) ==> e matches
            PipelineError::InvalidDimension(_) || e matches PipelineError::InvalidConfigText(_)),
        // A reg or regmesh command succeeds exactly when the persisted
        // specification exists and denotes a specification.
        (cmd matches CliCommand::Reg { .. } || cmd matches CliCommand::RegMesh { .. })
            && config_file is None ==> r == Err::<Plan, PipelineError>(
            PipelineError::ConfigNotFound,
        ),
        (cmd matches CliCommand::Reg { .. } || cmd matches CliCommand::RegMesh { .. }) ==> (
        config_file matches Some(text) ==> ((r is Ok <==> parse_spec(text@) is Some) && (
        parse_spec(text@) is None ==> r == Err::<Plan, PipelineError>(
            PipelineError::ConfigMalformed,
        )))),
        cmd matches CliCommand::Reg { fmax, sel, mloop } ==> (r matches Ok(p) ==> p matches
            Plan::Reg(reg) && reg.0.sel.deep_view() == sel.deep_view() && reg.0.fmax.deep_view()
            == Some(
            match fmax {
                Some(f) => f@,
                None => "20"@,
            },
        ) && reg.0.mloop.deep_view() == Some(
            match mloop {
                Some(m) => m@,
                None => "5"@,
            },
        ) && reg.0.reg.deep_view() == Some("1"@) && reg.0.morphooptiini.deep_view() == Some(
            coord_weight_source(),
        )),
        // The reg stage reads the persisted specification verbatim: it never
        // alters the grain count, the extents or the morphology.
        cmd matches CliCommand::Reg { .. } ==> (config_file matches Some(text) ==> (r matches Ok(p)
            ==> p matches Plan::Reg(reg) && parse_spec(text@) matches Some(cv)
            && reg.0.n@ == cv.n && reg.0.morpho@ == cv.morpho && reg.0.domain.deep_view() == Some(
            domain_descriptor_of(cv.dims),
        ))),
        cmd matches CliCommand::Mesh { cl, output } ==> (r matches Ok(p) && p matches Plan::Mesh(m)
            && m.script@ == script_of(cl@, template@, output@)),
        cmd matches CliCommand::RegMesh { cl, output, fmax, mloop } ==> (r matches Ok(p) ==> p
            matches Plan::RegMesh(reg, m) && reg.0.sel.deep_view() == Some(cl@)
            && reg.0.fmax.deep_view() == Some(
            match fmax {
                Some(f) => f@,
                None => "20"@,
            },
        ) && reg.0.mloop.deep_view() == Some(
            match mloop {
                Some(m2) => m2@,
                None => "5"@,
            },
        ) && m.script@ == script_of(cl@, template@, output@)),
        // The regmesh plan, too, carries the persisted specification
        // verbatim: grain count, morphology and domain come from the parsed
        // record.
        cmd matches CliCommand::RegMesh { .. } ==> (config_file matches Some(text) ==> (r matches
            Ok(p) ==> p matches Plan::RegMesh(reg, m2) && parse_spec(text@) matches Some(cv)
            && reg.0.n@ == cv.n && reg.0.morpho@ == cv.morpho && reg.0.domain.deep_view() == Some(
            domain_descriptor_of(cv.dims),
        ))),
{
    match cmd {
        CliCommand::Tess { n, dims, morpho } => {
            let config = match tess_config(n, dims, morpho) {
                Ok(c) => c,
                Err(e) => {
                    return Err(e);
                },
            };
            Ok(Plan::Tess(Tess::new(config)))
        },
        CliCommand::Reg { fmax, sel, mloop } => {
            let config = match Config::load(config_file) {
                Ok(c) => c,
                Err(e) => {
                    return Err(e);
                },
            };
            let reg = plan_reg(
                &config,
                as_opt_str(&fmax),
                as_opt_str(&sel),
                as_opt_str(&mloop),
            );
            Ok(Plan::Reg(reg))
        },
        CliCommand::Mesh { cl, output } => {
            Ok(Plan::Mesh(Mesh::new(cl.as_str(), output.as_str(), template)))
        },
        CliCommand::RegMesh { fmax, mloop, cl, output } => {
            let config = match Config::load(config_file) {
                Ok(c) => c,
                Err(e) => {
                    return Err(e);
                },
            };
            let reg = plan_reg(
                &config,
                as_opt_str(&fmax),
                Some(cl.as_str()),
                as_opt_str(&mloop),
            );
            let mesh = Mesh::new(cl.as_str(), output.as_str(), template);
            Ok(Plan::RegMesh(reg, mesh))
        },
    }
}

/// Borrows an optional owned string as an optional slice.
fn as_opt_str(v: &Option<String>) -> (r: Option<&str>)
    ensures
        r.deep_view() == v.deep_view(),
{
    match v {
        Some(s) => Some(s.as_str()),
        None => None,
    }
}

/// Interprets an external process's exit status: a nonzero status is the
/// fatal error carrying the program name and the status; the pipeline must
/// not proceed past it.
pub fn check_exit(program: &str, code: i32) -> (r: Result<(), PipelineError>)
    ensures
        code == 0 <==> r is Ok,
        code != 0 ==> (r matches Err(e) && e matches PipelineError::ProcessFailed(p, c) && p@
            == program@ && c == code),
{
    if code == 0 {
        Ok(())
    } else {
        Err(PipelineError::ProcessFailed(program.to_owned(), code))
    }
}

} // verus!
