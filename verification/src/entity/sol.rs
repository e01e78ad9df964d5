use vstd::prelude::*;

verus! {

/// Configuration for one candidate solution file.
#[derive(Clone, Debug)]
pub struct SolutionConfig {
    /// Path to the solution file, relative to the project directory.
    pub path: String,
    /// Name of the language the solution is written in.
    pub language_name: String,
    /// The aggregate verdict this solution is expected to receive.
    pub expected_verdict: Verdict,
    /// Whether this solution is the reference solution used to produce
    /// expected outputs.
    pub is_reference_solution: bool,
}

/// Judge's verdict. The variants are totally ordered from best to worst;
/// a later variant is strictly worse than an earlier one, and `AC` is the
/// unique best outcome.
#[derive(Clone, Copy, PartialEq, Eq, PartialOrd, Ord, Structural, Debug, Hash)]
pub enum Verdict {
    /// Accepted: the solution's output matched the expected output.
    AC,
    /// Time Limit Exceeded.
    TLE,
    /// Wrong Answer: the output differed from the expected output.
    WA,
    /// Runtime Error: the run failed instead of producing output.
    RE,
    /// Memory Limit Exceeded.
    MLE,
    /// Query Limit Exceeded.
    QLE,
    /// Internal Error: the judge itself failed.
    IE,
}

impl Verdict {
    /// Position of this verdict in the best-to-worst order; `AC` is 0.
    pub open spec fn rank(self) -> int {
        match self {
            Verdict::AC => 0,
            Verdict::TLE => 1,
            Verdict::WA => 2,
            Verdict::RE => 3,
            Verdict::MLE => 4,
            Verdict::QLE => 5,
            Verdict::IE => 6,
        }
    }

    /// The rank of this verdict, as a machine integer.
    pub fn severity(&self) -> (r: u8)
        ensures
            r as int == self.rank(),
    {
        match self {
            Verdict::AC => 0,
            Verdict::TLE => 1,
            Verdict::WA => 2,
            Verdict::RE => 3,
            Verdict::MLE => 4,
            Verdict::QLE => 5,
            Verdict::IE => 6,
        }
    }

    /// The worse of two verdicts.
    pub fn worst(self, other: Verdict) -> (r: Verdict)
        ensures
            r == worst_of(self, other),
    {
        if other.severity() > self.severity() {
            other
        } else {
            self
        }
    }

    /// The lower-case name of this verdict, as it appears in a manifest.
    pub fn name(&self) -> (r: &'static str)
        ensures
            r@ == self.name_spec(),
    {
        match self {
            Verdict::AC => "ac",
            Verdict::TLE => "tle",
            Verdict::WA => "wa",
            Verdict::RE => "re",
            Verdict::MLE => "mle",
            Verdict::QLE => "qle",
            Verdict::IE => "ie",
        }
    }

    /// The manifest name of each verdict.
    pub open spec fn name_spec(self) -> Seq<char> {
        match self {
            Verdict::AC => "ac"@,
            Verdict::TLE => "tle"@,
            Verdict::WA => "wa"@,
            Verdict::RE => "re"@,
            Verdict::MLE => "mle"@,
            Verdict::QLE => "qle"@,
            Verdict::IE => "ie"@,
        }
    }

    /// The upper-case label of this verdict, used in diagnostics.
    pub fn label(&self) -> (r: &'static str)
        ensures
            r@ == self.label_spec(),
    {
        match self {
            Verdict::AC => "AC",
            Verdict::TLE => "TLE",
            Verdict::WA => "WA",
            Verdict::RE => "RE",
            Verdict::MLE => "MLE",
            Verdict::QLE => "QLE",
            Verdict::IE => "IE",
        }
    }

    /// The diagnostic label of each verdict.
    pub open spec fn label_spec(self) -> Seq<char> {
        match self {
            Verdict::AC => "AC"@,
            Verdict::TLE => "TLE"@,
            Verdict::WA => "WA"@,
            Verdict::RE => "RE"@,
            Verdict::MLE => "MLE"@,
            Verdict::QLE => "QLE"@,
            Verdict::IE => "IE"@,
        }
    }
}

impl Default for Verdict {
    /// The default expected verdict is `AC`.
    fn default() -> (r: Verdict)
        ensures
            r == Verdict::AC,
    {
        Verdict::AC
    }
}

/// The worse of two verdicts, by rank.
pub open spec fn worst_of(a: Verdict, b: Verdict) -> Verdict {
    if b.rank() > a.rank() {
        b
    } else {
        a
    }
}

/// Worst verdict of a whole sequence; the aggregate of an empty sequence is
/// `AC`.
pub open spec fn aggregate_of(vs: Seq<Verdict>) -> Verdict
    decreases vs.len(),
{
    if vs.len() == 0 {
        Verdict::AC
    } else {
        worst_of(aggregate_of(vs.drop_last()), vs.last())
    }
}

/// A verdict of rank 0 is `AC`: the best outcome is unique.
pub proof fn lemma_rank_zero_is_accepted(v: Verdict)
    ensures
        v.rank() == 0 <==> v == Verdict::AC,
        v.rank() >= 0,
{
}

/// The aggregate verdict of a sequence of per-run verdicts is `AC` exactly
/// when every single run's verdict is `AC`.
pub proof fn lemma_aggregate_accepted_iff_all(vs: Seq<Verdict>)
    ensures
        aggregate_of(vs) == Verdict::AC <==> (forall|i: int|
            0 <= i < vs.len() ==> vs[i] == Verdict::AC),
    decreases vs.len(),
{
    if vs.len() > 0 {
        lemma_aggregate_accepted_iff_all(vs.drop_last());
        assert(vs.drop_last().push(vs.last()) =~= vs);
        if aggregate_of(vs) == Verdict::AC {
            assert(forall|i: int| 0 <= i < vs.len() - 1 ==> vs[i] == vs.drop_last()[i]);
        }
    }
}

/// Verdict aggregation is monotonic: extending the sequence of observed
/// per-run verdicts can only keep or worsen the aggregate, never improve it.
/// In particular, once a verdict other than `AC` has been observed, the
/// aggregate never returns to `AC`.
pub proof fn lemma_aggregate_monotonic(pre: Seq<Verdict>, ext: Seq<Verdict>)
    requires
        pre.is_prefix_of(ext),
    ensures
        aggregate_of(ext).rank() >= aggregate_of(pre).rank(),
    decreases ext.len(),
{
    if ext.len() > pre.len() {
        assert(pre.is_prefix_of(ext.drop_last()));
        lemma_aggregate_monotonic(pre, ext.drop_last());
    } else {
        assert(pre =~= ext);
    }
}


/// Folds further per-run verdicts into an already-accumulated worst verdict,
/// front to back, as the engine observes them.
pub open spec fn agg_from(sofar: Verdict, vs: Seq<Verdict>) -> Verdict
    decreases vs.len(),
{
    if vs.len() == 0 {
        sofar
    } else {
        agg_from(worst_of(sofar, vs[0]), vs.skip(1))
    }
}

/// The aggregate can be peeled from the front as well as from the back.
pub proof fn lemma_aggregate_front(vs: Seq<Verdict>)
    requires
        vs.len() > 0,
    ensures
        aggregate_of(vs) == worst_of(vs[0], aggregate_of(vs.skip(1))),
    decreases vs.len(),
{
    if vs.len() == 1 {
        assert(vs.skip(1).len() == 0);
        assert(vs.drop_last().len() == 0);
    } else {
        lemma_aggregate_front(vs.drop_last());
        assert(vs.skip(1).drop_last() =~= vs.drop_last().skip(1));
        assert(vs.drop_last()[0] == vs[0]);
        assert(vs.skip(1).last() == vs.last());
        let a = aggregate_of(vs.drop_last().skip(1));
        assert(worst_of(worst_of(vs[0], a), vs.last()) == worst_of(vs[0], worst_of(a, vs.last())));
    }
}

/// Front-to-back accumulation computes the worst of the start value and the
/// aggregate of the rest.
pub proof fn lemma_agg_from_unfolds(sofar: Verdict, vs: Seq<Verdict>)
    ensures
        agg_from(sofar, vs) == worst_of(sofar, aggregate_of(vs)),
    decreases vs.len(),
{
    if vs.len() == 0 {
    } else {
        lemma_agg_from_unfolds(worst_of(sofar, vs[0]), vs.skip(1));
        lemma_aggregate_front(vs);
        let a = aggregate_of(vs.skip(1));
        assert(worst_of(worst_of(sofar, vs[0]), a) == worst_of(sofar, worst_of(vs[0], a)));
    }
}

/// Tells whether a verdict is `AC`; in the manifest an expected verdict is
/// only written out when it is something else.
pub fn is_ac(x: &Verdict) -> (r: bool)
    ensures
        r == (*x == Verdict::AC),
{
    *x == Verdict::AC
}

/// Tells whether a flag is false; in the manifest the reference flag is only
/// written out when it is set.
pub fn is_false(x: &bool) -> (r: bool)
    ensures
        r == !*x,
{
    !*x
}

} // verus!
