//! The specimen specification: dimensions, grain count and morphology, with
//! the textual codec that persists it between stages.
//!
//! The persisted form is a single structured-text record. The encoder and the
//! decoder are both verified against one grammar, and decoding an encoded
//! specification is proved to give the specification back.

use vstd::prelude::*;

use crate::errors::PipelineError;
use crate::text::{
    all_plain_chars, check_all_plain, check_nonzero_digit, check_numeral, is_dim, is_num_char,
    is_plain_char, lemma_numeral_chars, lemma_starts_at_skip, lemma_take_while_all,
    lemma_take_while_exact, num_charp, plain_charp, scan_num, scan_plain, starts_at,
    starts_with_at, take_while,
};

verus! {

/// The three specimen extents, each a strictly positive decimal numeral in
/// its canonical textual form.
#[derive(Debug, PartialEq, Eq)]
pub struct SpecDims {
    pub dx: String,
    pub dy: String,
    pub dz: String,
}

/// The mathematical value of a `SpecDims`: three character sequences.
#[verifier::ext_equal]
pub struct DimsView {
    pub dx: Seq<char>,
    pub dy: Seq<char>,
    pub dz: Seq<char>,
}

impl View for SpecDims {
    type V = DimsView;

    open spec fn view(&self) -> DimsView {
        DimsView { dx: self.dx@, dy: self.dy@, dz: self.dz@ }
    }
}

/// Well-formedness of specimen extents: each is a positive decimal numeral.
pub open spec fn dims_wf(d: DimsView) -> bool {
    is_dim(d.dx) && is_dim(d.dy) && is_dim(d.dz)
}

impl SpecDims {
    /// Validates the three extents; rejects the first one that is not a
    /// strictly positive decimal numeral, before anything else runs.
    pub fn new(dx: String, dy: String, dz: String) -> (r: Result<SpecDims, PipelineError>)
        ensures
            r matches Ok(d) ==> d@ == (DimsView { dx: dx@, dy: dy@, dz: dz@ }) && dims_wf(d@),
            r is Ok <==> dims_wf(DimsView { dx: dx@, dy: dy@, dz: dz@ }),
            !is_dim(dx@) ==> r == Err::<SpecDims, PipelineError>(PipelineError::InvalidDimension(dx)),
            is_dim(dx@) && !is_dim(dy@) ==> r == Err::<SpecDims, PipelineError>(
                PipelineError::InvalidDimension(dy),
            ),
            is_dim(dx@) && is_dim(dy@) && !is_dim(dz@) ==> r == Err::<SpecDims, PipelineError>(
                PipelineError::InvalidDimension(dz),
            ),
    {
        if !(check_numeral(dx.as_str()) && check_nonzero_digit(dx.as_str())) {
            return Err(PipelineError::InvalidDimension(dx));
        }
        if !(check_numeral(dy.as_str()) && check_nonzero_digit(dy.as_str())) {
            return Err(PipelineError::InvalidDimension(dy));
        }
        if !(check_numeral(dz.as_str()) && check_nonzero_digit(dz.as_str())) {
            return Err(PipelineError::InvalidDimension(dz));
        }
        Ok(SpecDims { dx, dy, dz })
    }

    /// The textual domain descriptor handed to the external generator.
    pub fn domain_descriptor(&self) -> (r: String)
        ensures
            r@ == domain_descriptor_of(self@),
    {
        let mut s = String::new();
        s.append("cube(");
        s.append(self.dx.as_str());
        s.append(",");
        s.append(self.dy.as_str());
        s.append(",");
        s.append(self.dz.as_str());
        s.append(")");
        s
    }
}

/// The domain descriptor of extents (dx, dy, dz) is exactly
/// `cube(dx,dy,dz)`.
pub open spec fn domain_descriptor_of(d: DimsView) -> Seq<char> {
    "cube("@ + d.dx + ","@ + d.dy + ","@ + d.dz + ")"@
}

/// The persisted specification: extents, grain count and morphology. The
/// grain count and the morphology are opaque descriptors interpreted only by
/// the external tessellator. Written once by the tess stage and read verbatim
/// by the reg stage; never mutated after creation.
#[derive(Debug, PartialEq, Eq)]
pub struct Config {
    pub dims: SpecDims,
    pub n: String,
    pub morpho: String,
}

/// The mathematical value of a `Config`.
#[verifier::ext_equal]
pub struct ConfigView {
    pub dims: DimsView,
    pub n: Seq<char>,
    pub morpho: Seq<char>,
}

impl View for Config {
    type V = ConfigView;

    open spec fn view(&self) -> ConfigView {
        ConfigView { dims: self.dims@, n: self.n@, morpho: self.morpho@ }
    }
}

/// Well-formedness of a specification: positive numeral extents, a nonempty
/// plain-text grain count, and a plain-text morphology.
pub open spec fn config_wf(c: ConfigView) -> bool {
    &&& dims_wf(c.dims)
    &&& c.n.len() > 0
    &&& all_plain_chars(c.n)
    &&& all_plain_chars(c.morpho)
}

/// The literal segments of the persisted record, in order of appearance.
pub open spec fn j_head() -> Seq<char> {
    "{\"dims\":{\"dx\":"@
}

pub open spec fn j_dy() -> Seq<char> {
    ",\"dy\":"@
}

pub open spec fn j_dz() -> Seq<char> {
    ",\"dz\":"@
}

pub open spec fn j_n() -> Seq<char> {
    "},\"n\":\""@
}

pub open spec fn j_morpho() -> Seq<char> {
    "\",\"morpho\":\""@
}

pub open spec fn j_tail() -> Seq<char> {
    "\"}"@
}

/// The persisted form of a specification.
pub open spec fn json_of(c: ConfigView) -> Seq<char> {
    j_head() + c.dims.dx + j_dy() + c.dims.dy + j_dz() + c.dims.dz + j_n() + c.n + j_morpho()
        + c.morpho + j_tail()
}

/// The meaning of a persisted record: the specification it denotes, or
/// nothing if the text does not follow the grammar.
pub open spec fn parse_spec(s: Seq<char>) -> Option<ConfigView> {
    if !starts_at(s, 0, j_head()) {
        None
    } else {
        let t1 = s.skip(j_head().len() as int);
        let dx = take_while(num_charp(), t1);
        if !is_dim(dx) {
            None
        } else {
            let t2 = t1.skip(dx.len() as int);
            if !starts_at(t2, 0, j_dy()) {
                None
            } else {
                let t3 = t2.skip(j_dy().len() as int);
                let dy = take_while(num_charp(), t3);
                if !is_dim(dy) {
                    None
                } else {
                    let t4 = t3.skip(dy.len() as int);
                    if !starts_at(t4, 0, j_dz()) {
                        None
                    } else {
                        let t5 = t4.skip(j_dz().len() as int);
                        let dz = take_while(num_charp(), t5);
                        if !is_dim(dz) {
                            None
                        } else {
                            let t6 = t5.skip(dz.len() as int);
                            if !starts_at(t6, 0, j_n()) {
                                None
                            } else {
                                let t7 = t6.skip(j_n().len() as int);
                                let n = take_while(plain_charp(), t7);
                                if n.len() == 0 {
                                    None
                                } else {
                                    let t8 = t7.skip(n.len() as int);
                                    if !starts_at(t8, 0, j_morpho()) {
                                        None
                                    } else {
                                        let t9 = t8.skip(j_morpho().len() as int);
                                        let morpho = take_while(plain_charp(), t9);
                                        let t10 = t9.skip(morpho.len() as int);
                                        if t10 != j_tail() {
                                            None
                                        } else {
                                            Some(
                                                ConfigView {
                                                    dims: DimsView { dx, dy, dz },
                                                    n,
                                                    morpho,
                                                },
                                            )
                                        }
                                    }
                                }
                            }
                        }
                    }
                }
            }
        }
    }
}

impl Config {
    /// Validates and assembles a specification. The opaque fields are
    /// embedded verbatim in the persisted record, so a value that record
    /// cannot carry is rejected here, before any cache file could be
    /// touched; a specification built here is guaranteed to survive the
    /// persistence round trip.
    pub fn new(dims: SpecDims, n: String, morpho: String) -> (r: Result<Config, PipelineError>)
        ensures
            r is Ok <==> config_wf(ConfigView { dims: dims@, n: n@, morpho: morpho@ }),
            r matches Ok(c) ==> c@ == (ConfigView { dims: dims@, n: n@, morpho: morpho@ })
                && parse_spec(json_of(c@)) == Some(c@),
            !dims_wf(dims@) ==> (r matches Err(e) && e matches PipelineError::InvalidDimension(_)),
            dims_wf(dims@) && !(n@.len() > 0 && all_plain_chars(n@)) ==> r == Err::<
                Config,
                PipelineError,
            >(PipelineError::InvalidConfigText(n)),
            dims_wf(dims@) && n@.len() > 0 && all_plain_chars(n@) && !all_plain_chars(morpho@)
                ==> r == Err::<Config, PipelineError>(PipelineError::InvalidConfigText(morpho)),
    {
        let SpecDims { dx, dy, dz } = dims;
        let dims = match SpecDims::new(dx, dy, dz) {
            Ok(d) => d,
            Err(e) => {
                return Err(e);
            },
        };
        if n.as_str().unicode_len() == 0 || !check_all_plain(n.as_str()) {
            return Err(PipelineError::InvalidConfigText(n));
        }
        if !check_all_plain(morpho.as_str()) {
            return Err(PipelineError::InvalidConfigText(morpho));
        }
        let c = Config { dims, n, morpho };
        proof {
            lemma_config_round_trip(c@);
        }
        Ok(c)
    }

    /// Renders the specification in its persisted form.
    pub fn to_json(&self) -> (r: String)
        ensures
            r@ == json_of(self@),
    {
        let mut s = String::new();
        s.append("{\"dims\":{\"dx\":");
        s.append(self.dims.dx.as_str());
        s.append(",\"dy\":");
        s.append(self.dims.dy.as_str());
        s.append(",\"dz\":");
        s.append(self.dims.dz.as_str());
        s.append("},\"n\":\"");
        s.append(self.n.as_str());
        s.append("\",\"morpho\":\"");
        s.append(self.morpho.as_str());
        s.append("\"}");
        s
    }

    /// Reads a specification back from its persisted form. Fails with
    /// `ConfigMalformed` exactly on the texts that denote no specification.
    #[verifier::rlimit(100)]
    pub fn from_json(s: &str) -> (r: Result<Config, PipelineError>)
        ensures
            match r {
                Ok(c) => parse_spec(s@) == Some(c@) && config_wf(c@),
                Err(e) => parse_spec(s@) is None && e == PipelineError::ConfigMalformed,
            },
    {
        let total = s.unicode_len();
        if !starts_with_at(s, 0, "{\"dims\":{\"dx\":") {
            return Err(PipelineError::ConfigMalformed);
        }
        let l1 = "{\"dims\":{\"dx\":".unicode_len();
        let i1: usize = l1;
        assert(s@.skip(0).subrange(0, j_head().len() as int) =~= s@.subrange(
            0,
            j_head().len() as int,
        ));
        assert(starts_at(s@, 0, j_head()));
        let dx_read = read_dim(s, i1);
        let (i2, dx) = match dx_read {
            Some(p) => p,
            None => {
                return Err(PipelineError::ConfigMalformed);
            },
        };
        proof {
            lemma_skip_skip(s@, i1 as int, (i2 - i1) as int);
            lemma_starts_at_skip(s@, i2 as int, j_dy());
        }
        if !starts_with_at(s, i2, ",\"dy\":") {
            return Err(PipelineError::ConfigMalformed);
        }
        let i3: usize = i2 + ",\"dy\":".unicode_len();
        proof {
            lemma_skip_skip(s@, i2 as int, j_dy().len() as int);
        }
        let dy_read = read_dim(s, i3);
        let (i4, dy) = match dy_read {
            Some(p) => p,
            None => {
                return Err(PipelineError::ConfigMalformed);
            },
        };
        proof {
            lemma_skip_skip(s@, i3 as int, (i4 - i3) as int);
            lemma_starts_at_skip(s@, i4 as int, j_dz());
        }
        if !starts_with_at(s, i4, ",\"dz\":") {
            return Err(PipelineError::ConfigMalformed);
        }
        let i5: usize = i4 + ",\"dz\":".unicode_len();
        proof {
            lemma_skip_skip(s@, i4 as int, j_dz().len() as int);
        }
        let dz_read = read_dim(s, i5);
        let (i6, dz) = match dz_read {
            Some(p) => p,
            None => {
                return Err(PipelineError::ConfigMalformed);
            },
        };
        proof {
            lemma_skip_skip(s@, i5 as int, (i6 - i5) as int);
            lemma_starts_at_skip(s@, i6 as int, j_n());
        }
        if !starts_with_at(s, i6, "},\"n\":\"") {
            return Err(PipelineError::ConfigMalformed);
        }
        let i7: usize = i6 + "},\"n\":\"".unicode_len();
        proof {
            lemma_skip_skip(s@, i6 as int, j_n().len() as int);
        }
        let (i8, n) = read_plain(s, i7);
        if n.unicode_len() == 0 {
            return Err(PipelineError::ConfigMalformed);
        }
        proof {
            lemma_skip_skip(s@, i7 as int, (i8 - i7) as int);
            lemma_starts_at_skip(s@, i8 as int, j_morpho());
        }
        if !starts_with_at(s, i8, "\",\"morpho\":\"") {
            return Err(PipelineError::ConfigMalformed);
        }
        let i9: usize = i8 + "\",\"morpho\":\"".unicode_len();
        proof {
            lemma_skip_skip(s@, i8 as int, j_morpho().len() as int);
        }
        let (i10, morpho) = read_plain(s, i9);
        proof {
            lemma_skip_skip(s@, i9 as int, (i10 - i9) as int);
            lemma_starts_at_skip(s@, i10 as int, j_tail());
        }
        let tl = "\"}".unicode_len();
        if !(starts_with_at(s, i10, "\"}") && total - i10 == tl) {
            proof {
                let t10 = s@.skip(i10 as int);
                if t10 == j_tail() {
                    assert(t10.subrange(0, j_tail().len() as int) =~= j_tail());
                    assert(starts_at(t10, 0, j_tail()));
                }
            }
            return Err(PipelineError::ConfigMalformed);
        }
        proof {
            let t10 = s@.skip(i10 as int);
            assert(t10 =~= t10.subrange(0, j_tail().len() as int));
            assert(t10 == j_tail());
            lemma_take_while_all(plain_charp(), s@.skip(i7 as int));
            lemma_take_while_all(plain_charp(), s@.skip(i9 as int));
            assert forall|m: int| 0 <= m < n@.len() implies is_plain_char(#[trigger] n@[m]) by {
                assert(plain_charp()(take_while(plain_charp(), s@.skip(i7 as int))[m]));
            }
            assert forall|m: int| 0 <= m < morpho@.len() implies is_plain_char(
                #[trigger] morpho@[m],
            ) by {
                assert(plain_charp()(take_while(plain_charp(), s@.skip(i9 as int))[m]));
            }
        }
        let dims = SpecDims { dx, dy, dz };
        let c = Config { dims, n, morpho };
        proof {
            assert(parse_spec(s@) matches Some(pv) && pv =~= c@);
        }
        Ok(c)
    }

    /// Recovers the specification persisted by the tess stage from the cache
    /// file's contents, or reports why it cannot: `ConfigNotFound` when the
    /// file does not exist (the tess stage has never run), `ConfigMalformed`
    /// when its text denotes no specification.
    pub fn load(file: Option<&str>) -> (r: Result<Config, PipelineError>)
        ensures
            file is None ==> r == Err::<Config, PipelineError>(PipelineError::ConfigNotFound),
            file matches Some(text) ==> match r {
                Ok(c) => parse_spec(text@) == Some(c@) && config_wf(c@),
                Err(e) => parse_spec(text@) is None && e == PipelineError::ConfigMalformed,
            },
    {
        match file {
            None => Err(PipelineError::ConfigNotFound),
            Some(text) => Config::from_json(text),
        }
    }
}

/// Reads the longest numeral-character run starting at `i` and keeps it only
/// if it is a well-formed positive dimension.
fn read_dim(s: &str, i: usize) -> (r: Option<(usize, String)>)
    requires
        i <= s@.len(),
    ensures
        ({
            let seg = take_while(num_charp(), s@.skip(i as int));
            match r {
                Some((j, d)) => {
                    &&& d@ == seg
                    &&& is_dim(seg)
                    &&& i + seg.len() == j
                    &&& j <= s@.len()
                },
                None => !is_dim(seg),
            }
        }),
{
    let j = scan_num(s, i);
    proof {
        let t = s@.skip(i as int);
        assert forall|m: int| 0 <= m < j - i implies num_charp()(t[m]) by {
            assert(t[m] == s@[i + m]);
        }
        if j - i < t.len() {
            assert(t[j - i] == s@[j as int]);
        }
        lemma_take_while_exact(num_charp(), t, j - i);
        assert(t.subrange(0, j - i) =~= s@.subrange(i as int, j as int));
    }
    let d = s.substring_char(i, j).to_owned();
    if check_numeral(d.as_str()) && check_nonzero_digit(d.as_str()) {
        Some((j, d))
    } else {
        None
    }
}

/// Reads the longest plain-character run starting at `i`.
fn read_plain(s: &str, i: usize) -> (r: (usize, String))
    requires
        i <= s@.len(),
    ensures
        ({
            let seg = take_while(plain_charp(), s@.skip(i as int));
            {
                &&& r.1@ == seg
                &&& i + seg.len() == r.0
                &&& r.0 <= s@.len()
            }
        }),
{
    let j = scan_plain(s, i);
    proof {
        let t = s@.skip(i as int);
        assert forall|m: int| 0 <= m < j - i implies plain_charp()(t[m]) by {
            assert(t[m] == s@[i + m]);
        }
        if j - i < t.len() {
            assert(t[j - i] == s@[j as int]);
        }
        lemma_take_while_exact(plain_charp(), t, j - i);
        assert(t.subrange(0, j - i) =~= s@.subrange(i as int, j as int));
    }
    let seg = s.substring_char(i, j).to_owned();
    (j, seg)
}

/// Dropping `a` then `b` characters is dropping `a + b` characters.
proof fn lemma_skip_skip(s: Seq<char>, a: int, b: int)
    requires
        0 <= a,
        0 <= b,
        a + b <= s.len(),
    ensures
        s.skip(a).skip(b) == s.skip(a + b),
{
    assert(s.skip(a).skip(b) =~= s.skip(a + b));
}

/// Decoding an encoded specification gives the specification back.
#[verifier::rlimit(100)]
#[verifier::spinoff_prover]
pub proof fn lemma_config_round_trip(v: ConfigView)
    requires
        config_wf(v),
    ensures
        parse_spec(json_of(v)) == Some(v),
{
    let s = json_of(v);
    reveal_strlit("{\"dims\":{\"dx\":");
    reveal_strlit(",\"dy\":");
    reveal_strlit(",\"dz\":");
    reveal_strlit("},\"n\":\"");
    reveal_strlit("\",\"morpho\":\"");
    reveal_strlit("\"}");
    lemma_numeral_chars(v.dims.dx);
    lemma_numeral_chars(v.dims.dy);
    lemma_numeral_chars(v.dims.dz);

    assert(s.subrange(0, j_head().len() as int) =~= j_head());
    assert(starts_at(s, 0, j_head()));

    let rest2 = j_dy() + v.dims.dy + j_dz() + v.dims.dz + j_n() + v.n + j_morpho() + v.morpho
        + j_tail();
    let rest3 = v.dims.dy + j_dz() + v.dims.dz + j_n() + v.n + j_morpho() + v.morpho + j_tail();
    let rest4 = j_dz() + v.dims.dz + j_n() + v.n + j_morpho() + v.morpho + j_tail();
    let rest5 = v.dims.dz + j_n() + v.n + j_morpho() + v.morpho + j_tail();
    let rest6 = j_n() + v.n + j_morpho() + v.morpho + j_tail();
    let rest7 = v.n + j_morpho() + v.morpho + j_tail();
    let rest8 = j_morpho() + v.morpho + j_tail();

    let t1 = s.skip(j_head().len() as int);
    assert(t1 =~= v.dims.dx + rest2);
    assert(rest2[0] == ',');
    lemma_prefix_take_num(t1, v.dims.dx, rest2, ',');
    assert(take_while(num_charp(), t1) == v.dims.dx);

    let t2 = t1.skip(v.dims.dx.len() as int);
    assert(t2 =~= rest2);
    assert(t2.subrange(0, j_dy().len() as int) =~= j_dy());
    assert(starts_at(t2, 0, j_dy()));

    let t3 = t2.skip(j_dy().len() as int);
    assert(t3 =~= v.dims.dy + rest4);
    assert(rest4[0] == ',');
    lemma_prefix_take_num(t3, v.dims.dy, rest4, ',');
    assert(take_while(num_charp(), t3) == v.dims.dy);

    let t4 = t3.skip(v.dims.dy.len() as int);
    assert(t4 =~= rest4);
    assert(t4.subrange(0, j_dz().len() as int) =~= j_dz());
    assert(starts_at(t4, 0, j_dz()));

    let t5 = t4.skip(j_dz().len() as int);
    assert(t5 =~= v.dims.dz + rest6);
    assert(rest6[0] == '}');
    lemma_prefix_take_num(t5, v.dims.dz, rest6, '}');
    assert(take_while(num_charp(), t5) == v.dims.dz);

    let t6 = t5.skip(v.dims.dz.len() as int);
    assert(t6 =~= rest6);
    assert(t6.subrange(0, j_n().len() as int) =~= j_n());
    assert(starts_at(t6, 0, j_n()));

    let t7 = t6.skip(j_n().len() as int);
    assert(t7 =~= v.n + rest8);
    assert(rest8[0] == '"');
    lemma_prefix_take_plain(t7, v.n, rest8);
    assert(take_while(plain_charp(), t7) == v.n);

    let t8 = t7.skip(v.n.len() as int);
    assert(t8 =~= rest8);
    assert(t8.subrange(0, j_morpho().len() as int) =~= j_morpho());
    assert(starts_at(t8, 0, j_morpho()));

    let t9 = t8.skip(j_morpho().len() as int);
    assert(t9 =~= v.morpho + j_tail());
    assert(j_tail()[0] == '"');
    lemma_prefix_take_plain(t9, v.morpho, j_tail());
    assert(take_while(plain_charp(), t9) == v.morpho);

    let t10 = t9.skip(v.morpho.len() as int);
    assert(t10 =~= j_tail());

    assert(parse_spec(s) matches Some(pv) && pv =~= v);
}

/// A run of numeral characters followed by text opening with a non-numeral
/// character is scanned off exactly.
proof fn lemma_prefix_take_num(t: Seq<char>, seg: Seq<char>, rest: Seq<char>, boundary: char)
    requires
        t == seg + rest,
        forall|m: int| 0 <= m < seg.len() ==> is_num_char(#[trigger] seg[m]),
        rest.len() > 0,
        rest[0] == boundary,
        !is_num_char(boundary),
    ensures
        take_while(num_charp(), t) == seg,
{
    assert forall|m: int| 0 <= m < seg.len() implies num_charp()(t[m]) by {
        assert(t[m] == seg[m]);
    }
    assert(t[seg.len() as int] == rest[0]);
    lemma_take_while_exact(num_charp(), t, seg.len() as int);
    assert(t.subrange(0, seg.len() as int) =~= seg);
}

/// A run of plain characters followed by text opening with a double quote is
/// scanned off exactly.
proof fn lemma_prefix_take_plain(t: Seq<char>, seg: Seq<char>, rest: Seq<char>)
    requires
        t == seg + rest,
        forall|m: int| 0 <= m < seg.len() ==> is_plain_char(#[trigger] seg[m]),
        rest.len() > 0,
        rest[0] == '"',
    ensures
        take_while(plain_charp(), t) == seg,
{
    assert forall|m: int| 0 <= m < seg.len() implies plain_charp()(t[m]) by {
        assert(t[m] == seg[m]);
    }
    assert(t[seg.len() as int] == rest[0]);
    lemma_take_while_exact(plain_charp(), t, seg.len() as int);
    assert(t.subrange(0, seg.len() as int) =~= seg);
}

} // verus!
