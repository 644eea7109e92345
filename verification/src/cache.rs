//! Fixed layout of the cache directory that hands artifacts from one stage to
//! the next.

use vstd::prelude::*;

verus! {

/// Builds the path of a file inside the fixed cache directory.
pub fn rel_cache(filename: &str) -> (r: String)
    ensures
        r@ == "polyqd-cache/"@ + filename@,
{
    let mut s = String::new();
    s.append("polyqd-cache/");
    s.append(filename);
    s
}

/// The cache directory itself; stages create it before writing into it.
pub fn cache_dir() -> (r: String)
    ensures
        r@ == "polyqd-cache"@,
{
    let r = String::from_str("polyqd-cache");
    r
}

/// Path of the persisted specification, written by the tess stage and read
/// back by the reg stage.
pub fn config_path() -> (r: String)
    ensures
        r@ == "polyqd-cache/config.json"@,
{
    let r = rel_cache("config.json");
    proof {
        reveal_strlit("polyqd-cache/");
        reveal_strlit("config.json");
        reveal_strlit("polyqd-cache/config.json");
        assert(r@ =~= "polyqd-cache/config.json"@);
    }
    r
}

/// Base path (without extension) of the raw tessellation artifact.
pub fn tess_output_base() -> (r: String)
    ensures
        r@ == "polyqd-cache/polyqd-tess"@,
{
    let r = rel_cache("polyqd-tess");
    proof {
        reveal_strlit("polyqd-cache/");
        reveal_strlit("polyqd-tess");
        reveal_strlit("polyqd-cache/polyqd-tess");
        assert(r@ =~= "polyqd-cache/polyqd-tess"@);
    }
    r
}

/// Path of the raw tessellation artifact, fed back to the regularization run
/// as its coordinate and weight source.
pub fn tess_artifact() -> (r: String)
    ensures
        r@ == "polyqd-cache/polyqd-tess.tess"@,
{
    let r = rel_cache("polyqd-tess.tess");
    proof {
        reveal_strlit("polyqd-cache/");
        reveal_strlit("polyqd-tess.tess");
        reveal_strlit("polyqd-cache/polyqd-tess.tess");
        assert(r@ =~= "polyqd-cache/polyqd-tess.tess"@);
    }
    r
}

/// Base path (without extension) of the regularized geometry artifact.
pub fn reg_output_base() -> (r: String)
    ensures
        r@ == "polyqd-cache/polyqd-tess-reg"@,
{
    let r = rel_cache("polyqd-tess-reg");
    proof {
        reveal_strlit("polyqd-cache/");
        reveal_strlit("polyqd-tess-reg");
        reveal_strlit("polyqd-cache/polyqd-tess-reg");
        assert(r@ =~= "polyqd-cache/polyqd-tess-reg"@);
    }
    r
}

/// Path of the regularized geometry before correction, the input of the
/// geometry-correction pass.
pub fn reg_geometry_path() -> (r: String)
    ensures
        r@ == "polyqd-cache/polyqd-tess-reg.geo"@,
{
    let r = rel_cache("polyqd-tess-reg.geo");
    proof {
        reveal_strlit("polyqd-cache/");
        reveal_strlit("polyqd-tess-reg.geo");
        reveal_strlit("polyqd-cache/polyqd-tess-reg.geo");
        assert(r@ =~= "polyqd-cache/polyqd-tess-reg.geo"@);
    }
    r
}

/// Path of the corrected, mesher-ready geometry written by the
/// geometry-correction pass.
pub fn corrected_geometry_path() -> (r: String)
    ensures
        r@ == "polyqd-cache/polyqd.geo"@,
{
    let r = rel_cache("polyqd.geo");
    proof {
        reveal_strlit("polyqd-cache/");
        reveal_strlit("polyqd.geo");
        reveal_strlit("polyqd-cache/polyqd.geo");
        assert(r@ =~= "polyqd-cache/polyqd.geo"@);
    }
    r
}

/// Path of the rendered meshing procedure consumed by the external mesher.
pub fn script_path() -> (r: String)
    ensures
        r@ == "polyqd-cache/script.geo"@,
{
    let r = rel_cache("script.geo");
    proof {
        reveal_strlit("polyqd-cache/");
        reveal_strlit("script.geo");
        reveal_strlit("polyqd-cache/script.geo");
        assert(r@ =~= "polyqd-cache/script.geo"@);
    }
    r
}

} // verus!
