//! The command specification for the external generator: named optional
//! fields and their deterministic translation into an ordered argument
//! vector.

use vstd::prelude::*;

use crate::errors::PipelineError;
use crate::text::str_eq;

verus! {

/// A specification of one generator invocation. Every field except the grain
/// count and the morphology is optional; an absent field contributes no
/// tokens to the command line.
#[derive(Debug, Clone, PartialEq, Eq)]
pub struct Tessellation {
    pub n: String,
    pub morpho: String,
    pub domain: Option<String>,
    pub morphooptiini: Option<String>,
    pub reg: Option<String>,
    pub fmax: Option<String>,
    pub sel: Option<String>,
    pub mloop: Option<String>,
    pub output: Option<String>,
    pub format: Option<String>,
}

/// The mathematical value of a command specification.
#[verifier::ext_equal]
pub struct TessView {
    pub n: Seq<char>,
    pub morpho: Seq<char>,
    pub domain: Option<Seq<char>>,
    pub morphooptiini: Option<Seq<char>>,
    pub reg: Option<Seq<char>>,
    pub fmax: Option<Seq<char>>,
    pub sel: Option<Seq<char>>,
    pub mloop: Option<Seq<char>>,
    pub output: Option<Seq<char>>,
    pub format: Option<Seq<char>>,
}

impl View for Tessellation {
    type V = TessView;

    open spec fn view(&self) -> TessView {
        TessView {
            n: self.n@,
            morpho: self.morpho@,
            domain: self.domain.deep_view(),
            morphooptiini: self.morphooptiini.deep_view(),
            reg: self.reg.deep_view(),
            fmax: self.fmax.deep_view(),
            sel: self.sel.deep_view(),
            mloop: self.mloop.deep_view(),
            output: self.output.deep_view(),
            format: self.format.deep_view(),
        }
    }
}

/// The tokens one optional field contributes: nothing when absent, the flag
/// immediately followed by its value when set.
pub open spec fn opt_pair(flag: Seq<char>, v: Option<Seq<char>>) -> Seq<Seq<char>> {
    match v {
        None => Seq::empty(),
        Some(x) => seq![flag, x],
    }
}

/// The complete argument vector of a generator invocation: the fixed pair
/// disabling user rc-file loading, the tessellation-mode token, then the
/// flag/value pairs of the set fields in declared field order.
pub open spec fn generator_args(t: TessView) -> Seq<Seq<char>> {
    seq!["--rcfile"@, "none"@, "-T"@] + opt_pair("-n"@, Some(t.n)) + opt_pair("-domain"@, t.domain)
        + opt_pair("-morpho"@, Some(t.morpho)) + opt_pair("-morphooptiini"@, t.morphooptiini)
        + opt_pair("-reg"@, t.reg) + opt_pair("-fmax"@, t.fmax) + opt_pair("-sel"@, t.sel)
        + opt_pair("-mloop"@, t.mloop) + opt_pair("-o"@, t.output) + opt_pair("-format"@, t.format)
}

impl Tessellation {
    /// A fresh specification: only the grain count is set; the morphology
    /// starts empty and every optional field absent.
    pub fn new(n: &str) -> (r: Self)
        ensures
            r@ == (TessView {
                n: n@,
                morpho: Seq::<char>::empty(),
                domain: None,
                morphooptiini: None,
                reg: None,
                fmax: None,
                sel: None,
                mloop: None,
                output: None,
                format: None,
            }),
    {
        let r = Tessellation {
            n: n.to_owned(),
            morpho: String::new(),
            domain: None,
            morphooptiini: None,
            reg: None,
            fmax: None,
            sel: None,
            mloop: None,
            output: None,
            format: None,
        };
        r
    }

    pub fn domain(&mut self, v: &str)
        ensures
            final(self)@ == (TessView { domain: Some(v@), ..old(self)@ }),
    {
        self.domain = Some(v.to_owned());
    }

    pub fn morpho(&mut self, v: &str)
        ensures
            final(self)@ == (TessView { morpho: v@, ..old(self)@ }),
    {
        self.morpho = v.to_owned();
    }

    pub fn morphooptiini(&mut self, v: &str)
        ensures
            final(self)@ == (TessView { morphooptiini: Some(v@), ..old(self)@ }),
    {
        self.morphooptiini = Some(v.to_owned());
    }

    /// Sets the regularization flag. Only the literal values "0" and "1" are
    /// meaningful to the generator; anything else is rejected here, before
    /// any process could be spawned, and leaves the specification unchanged.
    pub fn reg(&mut self, v: &str) -> (r: Result<(), PipelineError>)
        ensures
            r is Ok <==> (v@ == "0"@ || v@ == "1"@),
            r is Ok ==> final(self)@ == (TessView { reg: Some(v@), ..old(self)@ }),
            r matches Err(e) ==> *final(self) == *old(self) && (e matches
                PipelineError::InvalidRegFlag(w) && w@ == v@),
    {
        if str_eq(v, "0") || str_eq(v, "1") {
            self.reg = Some(v.to_owned());
            Ok(())
        } else {
            Err(PipelineError::InvalidRegFlag(v.to_owned()))
        }
    }

    pub fn fmax(&mut self, v: &str)
        ensures
            final(self)@ == (TessView { fmax: Some(v@), ..old(self)@ }),
    {
        self.fmax = Some(v.to_owned());
    }

    pub fn sel(&mut self, v: &str)
        ensures
            final(self)@ == (TessView { sel: Some(v@), ..old(self)@ }),
    {
        self.sel = Some(v.to_owned());
    }

    pub fn mloop(&mut self, v: &str)
        ensures
            final(self)@ == (TessView { mloop: Some(v@), ..old(self)@ }),
    {
        self.mloop = Some(v.to_owned());
    }

    pub fn output(&mut self, v: &str)
        ensures
            final(self)@ == (TessView { output: Some(v@), ..old(self)@ }),
    {
        self.output = Some(v.to_owned());
    }

    pub fn format(&mut self, v: &str)
        ensures
            final(self)@ == (TessView { format: Some(v@), ..old(self)@ }),
    {
        self.format = Some(v.to_owned());
    }

    /// Translates the specification into the exact argument vector of the
    /// generator invocation.
    #[verifier::rlimit(100)]
    pub fn command_args(&self) -> (r: Vec<String>)
        ensures
            r.deep_view() == generator_args(self@),
    {
        let mut args: Vec<String> = Vec::new();
        args.push("--rcfile".to_owned());
        args.push("none".to_owned());
        args.push("-T".to_owned());
        assert(args.deep_view() =~~= seq!["--rcfile"@, "none"@, "-T"@]);
        push_pair(&mut args, "-n", &Some(self.n.clone()));
        push_pair(&mut args, "-domain", &self.domain);
        push_pair(&mut args, "-morpho", &Some(self.morpho.clone()));
        push_pair(&mut args, "-morphooptiini", &self.morphooptiini);
        push_pair(&mut args, "-reg", &self.reg);
        push_pair(&mut args, "-fmax", &self.fmax);
        push_pair(&mut args, "-sel", &self.sel);
        push_pair(&mut args, "-mloop", &self.mloop);
        push_pair(&mut args, "-o", &self.output);
        push_pair(&mut args, "-format", &self.format);
        assert(args.deep_view() =~~= generator_args(self@));
        args
    }
}

/// Appends the tokens of one optional field: nothing when absent, the flag
/// then the value when set.
fn push_pair(args: &mut Vec<String>, flag: &str, v: &Option<String>)
    ensures
        final(args).deep_view() == old(args).deep_view() + opt_pair(flag@, v.deep_view()),
{
    match v {
        None => {
            assert(args.deep_view() =~~= old(args).deep_view() + opt_pair(flag@, v.deep_view()));
        },
        Some(x) => {
            args.push(flag.to_owned());
            args.push(x.clone());
            assert(args.deep_view() =~~= old(args).deep_view() + opt_pair(flag@, v.deep_view()));
        },
    }
}

/// An element is in a concatenation exactly when it is in one of the parts.
proof fn lemma_add_contains<A>(a: Seq<A>, b: Seq<A>, x: A)
    ensures
        (a + b).contains(x) <==> a.contains(x) || b.contains(x),
{
    if a.contains(x) {
        let i = choose|i: int| 0 <= i < a.len() && a[i] == x;
        assert((a + b)[i] == x);
    }
    if b.contains(x) {
        let i = choose|i: int| 0 <= i < b.len() && b[i] == x;
        assert((a + b)[a.len() + i] == x);
    }
}

/// The tokens of one optional field contain `x` exactly when the field is
/// set and `x` is its flag or its value.
proof fn lemma_opt_pair_contains(flag: Seq<char>, v: Option<Seq<char>>, x: Seq<char>)
    ensures
        opt_pair(flag, v).contains(x) <==> (v matches Some(w) && (x == flag || x == w)),
{
    match v {
        None => {},
        Some(w) => {
            assert(opt_pair(flag, v)[0] == flag);
            assert(opt_pair(flag, v)[1] == w);
        },
    }
}

/// A specification whose small-edge selector is set emits the contiguous
/// token pair of the selector flag followed by the selector value.
pub proof fn lemma_sel_pair_emitted(t: TessView, v: Seq<char>)
    requires
        t.sel == Some(v),
    ensures
        exists|i: int|
            0 <= i && i + 1 < generator_args(t).len() && #[trigger] generator_args(t)[i] == "-sel"@
                && generator_args(t)[i + 1] == v,
{
    let pre = seq!["--rcfile"@, "none"@, "-T"@] + opt_pair("-n"@, Some(t.n)) + opt_pair(
        "-domain"@,
        t.domain,
    ) + opt_pair("-morpho"@, Some(t.morpho)) + opt_pair("-morphooptiini"@, t.morphooptiini)
        + opt_pair("-reg"@, t.reg) + opt_pair("-fmax"@, t.fmax);
    let i = pre.len() as int;
    assert(generator_args(t)[i] == "-sel"@);
    assert(generator_args(t)[i + 1] == v);
}

/// A specification whose small-edge selector is absent emits no selector
/// flag token, as long as no other set field carries that exact token as its
/// value.
pub proof fn lemma_sel_flag_absent(t: TessView)
    requires
        t.sel is None,
        t.n != "-sel"@,
        t.morpho != "-sel"@,
        t.domain matches Some(x) ==> x != "-sel"@,
        t.morphooptiini matches Some(x) ==> x != "-sel"@,
        t.reg matches Some(x) ==> x != "-sel"@,
        t.fmax matches Some(x) ==> x != "-sel"@,
        t.mloop matches Some(x) ==> x != "-sel"@,
        t.output matches Some(x) ==> x != "-sel"@,
        t.format matches Some(x) ==> x != "-sel"@,
    ensures
        !generator_args(t).contains("-sel"@),
{
    reveal_strlit("--rcfile");
    reveal_strlit("none");
    reveal_strlit("-T");
    reveal_strlit("-n");
    reveal_strlit("-domain");
    reveal_strlit("-morpho");
    reveal_strlit("-morphooptiini");
    reveal_strlit("-reg");
    reveal_strlit("-fmax");
    reveal_strlit("-sel");
    reveal_strlit("-mloop");
    reveal_strlit("-o");
    reveal_strlit("-format");
    let s = "-sel"@;
    let head = seq!["--rcfile"@, "none"@, "-T"@];
    let p1 = head + opt_pair("-n"@, Some(t.n));
    let p2 = p1 + opt_pair("-domain"@, t.domain);
    let p3 = p2 + opt_pair("-morpho"@, Some(t.morpho));
    let p4 = p3 + opt_pair("-morphooptiini"@, t.morphooptiini);
    let p5 = p4 + opt_pair("-reg"@, t.reg);
    let p6 = p5 + opt_pair("-fmax"@, t.fmax);
    let p7 = p6 + opt_pair("-sel"@, t.sel);
    let p8 = p7 + opt_pair("-mloop"@, t.mloop);
    let p9 = p8 + opt_pair("-o"@, t.output);
    let p10 = p9 + opt_pair("-format"@, t.format);
    assert(!head.contains(s)) by {
        assert("--rcfile"@ != s) by {
            assert("--rcfile"@.len() != s.len());
        }
        assert("none"@ != s) by {
            assert("none"@[0] != s[0]);
        }
        assert("-T"@ != s) by {
            assert("-T"@.len() != s.len());
        }
        assert(forall|i: int| 0 <= i < head.len() ==> #[trigger] head[i] != s);
    }
    assert("-n"@ != s) by {
        assert("-n"@.len() != s.len());
    }
    assert("-domain"@ != s) by {
        assert("-domain"@.len() != s.len());
    }
    assert("-morpho"@ != s) by {
        assert("-morpho"@.len() != s.len());
    }
    assert("-morphooptiini"@ != s) by {
        assert("-morphooptiini"@.len() != s.len());
    }
    assert("-reg"@ != s) by {
        assert("-reg"@[1] != s[1]);
    }
    assert("-fmax"@ != s) by {
        assert("-fmax"@.len() != s.len());
    }
    assert("-mloop"@ != s) by {
        assert("-mloop"@.len() != s.len());
    }
    assert("-o"@ != s) by {
        assert("-o"@.len() != s.len());
    }
    assert("-format"@ != s) by {
        assert("-format"@.len() != s.len());
    }
    lemma_opt_pair_contains("-n"@, Some(t.n), s);
    lemma_opt_pair_contains("-domain"@, t.domain, s);
    lemma_opt_pair_contains("-morpho"@, Some(t.morpho), s);
    lemma_opt_pair_contains("-morphooptiini"@, t.morphooptiini, s);
    lemma_opt_pair_contains("-reg"@, t.reg, s);
    lemma_opt_pair_contains("-fmax"@, t.fmax, s);
    lemma_opt_pair_contains("-sel"@, t.sel, s);
    lemma_opt_pair_contains("-mloop"@, t.mloop, s);
    lemma_opt_pair_contains("-o"@, t.output, s);
    lemma_opt_pair_contains("-format"@, t.format, s);
    lemma_add_contains(head, opt_pair("-n"@, Some(t.n)), s);
    lemma_add_contains(p1, opt_pair("-domain"@, t.domain), s);
    lemma_add_contains(p2, opt_pair("-morpho"@, Some(t.morpho)), s);
    lemma_add_contains(p3, opt_pair("-morphooptiini"@, t.morphooptiini), s);
    lemma_add_contains(p4, opt_pair("-reg"@, t.reg), s);
    lemma_add_contains(p5, opt_pair("-fmax"@, t.fmax), s);
    lemma_add_contains(p6, opt_pair("-sel"@, t.sel), s);
    lemma_add_contains(p7, opt_pair("-mloop"@, t.mloop), s);
    lemma_add_contains(p8, opt_pair("-o"@, t.output), s);
    lemma_add_contains(p9, opt_pair("-format"@, t.format), s);
    assert(generator_args(t) == p10);
}

} // verus!
