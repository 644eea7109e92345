//! The three pipeline stages. Each stage value holds a fully built command
//! specification; the surrounding binary performs the file writes and spawns
//! the external programs, in the order the stage documentation states.

use vstd::prelude::*;

use crate::cache::{rel_cache, script_path, tess_output_base, reg_output_base};
use crate::command::{generator_args, Tessellation, TessView};
use crate::config::{domain_descriptor_of, Config, ConfigView, SpecDims};

verus! {

/// The tessellation stage. Running it means: first persist the
/// specification (so a crash during generation still leaves recoverable
/// state), then invoke the generator with `command_args`.
#[derive(Debug, PartialEq, Eq)]
pub struct Tess {
    pub tess: Tessellation,
    pub dims: SpecDims,
    pub n: String,
}

impl Tess {
    /// Builds the tessellation command specification from a fresh
    /// specification: domain descriptor from the extents, output to the
    /// tessellation cache artifact in the tessellation-native format.
    pub fn new(config: Config) -> (r: Self)
        ensures
            r.tess@ == (TessView {
                n: config.n@,
                morpho: config.morpho@,
                domain: Some(domain_descriptor_of(config.dims@)),
                morphooptiini: None,
                reg: None,
                fmax: None,
                sel: None,
                mloop: None,
                output: Some("polyqd-cache/polyqd-tess"@),
                format: Some("tess"@),
            }),
            r.dims@ == config.dims@,
            r.n@ == config.n@,
    {
        let Config { dims, n, morpho } = config;
        let mut tess = Tessellation::new(n.as_str());
        let domain = dims.domain_descriptor();
        tess.morpho(morpho.as_str());
        tess.domain(domain.as_str());
        let out = tess_output_base();
        tess.output(out.as_str());
        tess.format("tess");
        let r = Tess { tess, dims, n };
        proof {
            assert(r.tess@ =~~= (TessView {
                n: r.n@,
                morpho: morpho@,
                domain: Some(domain_descriptor_of(r.dims@)),
                morphooptiini: None,
                reg: None,
                fmax: None,
                sel: None,
                mloop: None,
                output: Some("polyqd-cache/polyqd-tess"@),
                format: Some("tess"@),
            }));
        }
        r
    }

    /// The specification to persist before the generator is invoked: the
    /// same extents, grain count and morphology the command was built from.
    pub fn persisted_config(&self) -> (r: Config)
        ensures
            r@ == (ConfigView { dims: self.dims@, n: self.n@, morpho: self.tess.morpho@ }),
    {
        Config {
            dims: SpecDims {
                dx: self.dims.dx.clone(),
                dy: self.dims.dy.clone(),
                dz: self.dims.dz.clone(),
            },
            n: self.n.clone(),
            morpho: self.tess.morpho.clone(),
        }
    }

    /// The argument vector of the generator invocation.
    pub fn command_args(&self) -> (r: Vec<String>)
        ensures
            r.deep_view() == generator_args(self.tess@),
    {
        self.tess.command_args()
    }
}

/// The textual source descriptor that feeds the previous tessellation
/// artifact back into the regularization run as both its coordinate and its
/// weight input.
pub open spec fn coord_weight_source() -> Seq<char> {
    "coo:file("@ + "polyqd-cache/polyqd-tess.tess"@ + "),weight:file("@
        + "polyqd-cache/polyqd-tess.tess"@ + ")"@
}

/// The regularization stage. Running it means: invoke the generator with
/// `command_args`, then run the geometry-correction pass on its output.
#[derive(Debug, PartialEq, Eq)]
pub struct Reg(pub Tessellation);

impl Reg {
    /// Builds the regularization command specification from the
    /// specification the tess stage persisted: the same domain descriptor
    /// and morphology, the regularization flag on, coordinates and weights
    /// re-derived from the previous tessellation artifact, output to the
    /// regularized-geometry cache artifact in the geometry-native format.
    pub fn new(config: &Config) -> (r: Self)
        ensures
            r.0@ == (TessView {
                n: config.n@,
                morpho: config.morpho@,
                domain: Some(domain_descriptor_of(config.dims@)),
                morphooptiini: Some(coord_weight_source()),
                reg: Some("1"@),
                fmax: None,
                sel: None,
                mloop: None,
                output: Some("polyqd-cache/polyqd-tess-reg"@),
                format: Some("geo"@),
            }),
    {
        let mut tess = Tessellation::new(config.n.as_str());
        let reg_result = tess.reg("1");
        proof {
            assert(reg_result is Ok);
        }
        let source = tess_artifact_source();
        tess.morphooptiini(source.as_str());
        let domain = config.dims.domain_descriptor();
        tess.domain(domain.as_str());
        tess.morpho(config.morpho.as_str());
        let out = reg_output_base();
        tess.output(out.as_str());
        tess.format("geo");
        let r = Reg(tess);
        proof {
            assert(r.0@ =~~= (TessView {
                n: config.n@,
                morpho: config.morpho@,
                domain: Some(domain_descriptor_of(config.dims@)),
                morphooptiini: Some(coord_weight_source()),
                reg: Some("1"@),
                fmax: None,
                sel: None,
                mloop: None,
                output: Some("polyqd-cache/polyqd-tess-reg"@),
                format: Some("geo"@),
            }));
        }
        r
    }

    pub fn morpho(&mut self, v: &str)
        ensures
            final(self).0@ == (TessView { morpho: v@, ..old(self).0@ }),
    {
        self.0.morpho(v);
    }

    pub fn fmax(&mut self, v: &str)
        ensures
            final(self).0@ == (TessView { fmax: Some(v@), ..old(self).0@ }),
    {
        self.0.fmax(v);
    }

    pub fn sel(&mut self, v: &str)
        ensures
            final(self).0@ == (TessView { sel: Some(v@), ..old(self).0@ }),
    {
        self.0.sel(v);
    }

    pub fn mloop(&mut self, v: &str)
        ensures
            final(self).0@ == (TessView { mloop: Some(v@), ..old(self).0@ }),
    {
        self.0.mloop(v);
    }

    /// The argument vector of the generator invocation.
    pub fn command_args(&self) -> (r: Vec<String>)
        ensures
            r.deep_view() == generator_args(self.0@),
    {
        self.0.command_args()
    }
}

/// Renders the coordinate-and-weight source descriptor.
fn tess_artifact_source() -> (r: String)
    ensures
        r@ == coord_weight_source(),
{
    let artifact = rel_cache("polyqd-tess.tess");
    proof {
        reveal_strlit("polyqd-cache/");
        reveal_strlit("polyqd-tess.tess");
        reveal_strlit("polyqd-cache/polyqd-tess.tess");
        assert(artifact@ =~= "polyqd-cache/polyqd-tess.tess"@);
    }
    let mut s = String::new();
    s.append("coo:file(");
    s.append(artifact.as_str());
    s.append("),weight:file(");
    s.append(artifact.as_str());
    s.append(")");
    s
}

/// The rendered meshing procedure: an assignment of the characteristic
/// length, the fixed procedure template, and a save directive referencing
/// the output file relative to the cache directory's parent.
pub open spec fn script_of(cl: Seq<char>, template: Seq<char>, output: Seq<char>) -> Seq<char> {
    "var_cl = "@ + cl + ";\n"@ + template + "\nSave \"../"@ + output + "\";"@
}

/// The meshing stage. Running it means: create the cache directory, write
/// `script` to the script artifact, then invoke the mesher with
/// `command_args`.
#[derive(Debug, PartialEq, Eq)]
pub struct Mesh {
    pub script: String,
}

impl Mesh {
    /// Renders the meshing procedure for a characteristic length and an
    /// output file name. The template is the opaque external procedure the
    /// script embeds between the assignment and the save directive.
    pub fn new(cl: &str, output: &str, template: &str) -> (r: Self)
        ensures
            r.script@ == script_of(cl@, template@, output@),
    {
        let mut s = String::new();
        s.append("var_cl = ");
        s.append(cl);
        s.append(";\n");
        s.append(template);
        s.append("\nSave \"../");
        s.append(output);
        s.append("\";");
        Mesh { script: s }
    }

    /// The argument vector of the mesher invocation: the script path and the
    /// sentinel meaning "no additional interactive input".
    pub fn command_args(&self) -> (r: Vec<String>)
        ensures
            r.deep_view() == seq!["polyqd-cache/script.geo"@, "-"@],
    {
        let mut args: Vec<String> = Vec::new();
        args.push(script_path());
        args.push("-".to_owned());
        proof {
            assert(args.deep_view() =~~= seq!["polyqd-cache/script.geo"@, "-"@]);
        }
        args
    }
}

} // verus!
