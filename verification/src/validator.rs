//! Validation of a PDK-adapter configuration: every check runs, and every
//! check that fails contributes one error, in a fixed order.

use vstd::prelude::*;

use crate::config::{Models, Syntax};
use crate::text::{contains_seq, contains_str, is_blank, is_blank_seq, str_eq};

verus! {

/// What validation reads of a configuration. The numeric range checks are
/// made by the caller on the floating-point values and arrive here as their
/// outcomes; so does whether the model library exists on disk.
#[derive(Debug, Clone)]
pub struct ConfigFacts {
    /// `environment.vdd <= 0`.
    pub vdd_not_positive: bool,
    /// `environment.vdd` is above the sane maximum.
    pub vdd_above_max: bool,
    /// `environment.min_length <= 0`.
    pub min_length_not_positive: bool,
    pub include_path: String,
    pub include_path_exists: bool,
    pub corner: String,
    pub models: Models,
    pub syntax: Syntax,
    /// `reference_inverter.w_is_multiple_of_w_min`.
    pub w_is_multiple_of_w_min: bool,
    /// `reference_inverter.wl_sweep_granularity` is given and is not at
    /// least `environment.min_width`.
    pub sweep_step_below_min_width: bool,
}

/// One way in which a configuration fails validation.
#[derive(Debug, Clone, PartialEq, Eq)]
pub enum ValidationError {
    VddNotPositive,
    VddOutOfRange,
    MinLengthNotPositive,
    IncludePathMissing(String),
    InvalidCorner(String),
    NmosEmpty,
    PmosEmpty,
    TemplateMissingPlaceholders(Vec<&'static str>),
    /// Widths snap to multiples of the minimum width, but the sweep step is
    /// smaller than the minimum width.
    SweepGranularityBelowMinWidth,
}

/// A `ValidationError` taken by value: strings as character sequences.
pub ghost enum Issue {
    VddNotPositive,
    VddOutOfRange,
    MinLengthNotPositive,
    IncludePathMissing(Seq<char>),
    InvalidCorner(Seq<char>),
    NmosEmpty,
    PmosEmpty,
    TemplateMissingPlaceholders(Seq<Seq<char>>),
    SweepGranularityBelowMinWidth,
}

/// The views of a vector of string literals.
pub open spec fn str_views(v: Seq<&'static str>) -> Seq<Seq<char>> {
    v.map_values(|s: &'static str| s@)
}

impl View for ValidationError {
    type V = Issue;

    open spec fn view(&self) -> Issue {
        match self {
            ValidationError::VddNotPositive => Issue::VddNotPositive,
            ValidationError::VddOutOfRange => Issue::VddOutOfRange,
            ValidationError::MinLengthNotPositive => Issue::MinLengthNotPositive,
            ValidationError::IncludePathMissing(p) => Issue::IncludePathMissing(p@),
            ValidationError::InvalidCorner(c) => Issue::InvalidCorner(c@),
            ValidationError::NmosEmpty => Issue::NmosEmpty,
            ValidationError::PmosEmpty => Issue::PmosEmpty,
            ValidationError::TemplateMissingPlaceholders(m) => Issue::TemplateMissingPlaceholders(
                str_views(m@),
            ),
            ValidationError::SweepGranularityBelowMinWidth => Issue::SweepGranularityBelowMinWidth,
        }
    }
}

/// All the errors found in one configuration, in the order of the checks.
#[derive(Debug, Clone, PartialEq, Eq)]
pub struct ValidationErrors(pub Vec<ValidationError>);

impl View for ValidationErrors {
    type V = Seq<Issue>;

    open spec fn view(&self) -> Seq<Issue> {
        self.0@.map_values(|e: ValidationError| e@)
    }
}

/// The process corners a configuration may name.
pub open spec fn allowed_corners_spec() -> Seq<Seq<char>> {
    seq!["tt"@, "ff"@, "ss"@, "sf"@, "fs"@]
}

/// The placeholders every device template must hold.
pub open spec fn required_placeholders_spec() -> Seq<Seq<char>> {
    seq![
        "{{name}}"@,
        "{{d}}"@,
        "{{g}}"@,
        "{{s}}"@,
        "{{b}}"@,
        "{{model}}"@,
        "{{w}}"@,
        "{{l}}"@,
    ]
}

/// The required placeholders that `template` lacks, in the order in which
/// they are required.
pub open spec fn missing_placeholders_spec(template: Seq<char>) -> Seq<Seq<char>> {
    required_placeholders_spec().filter(|p: Seq<char>| !contains_seq(template, p))
}

/// `x` when `b` holds, else nothing.
#[verifier::opaque]
pub open spec fn when<A>(b: bool, x: A) -> Seq<A> {
    if b {
        seq![x]
    } else {
        Seq::empty()
    }
}

/// The errors of a configuration, in the order of the checks: supply
/// voltage, minimum length, model library, corner, NMOS model, PMOS model,
/// device template, sweep step.
pub open spec fn expected_issues(
    vdd_not_positive: bool,
    vdd_above_max: bool,
    min_length_not_positive: bool,
    include_path: Seq<char>,
    include_path_exists: bool,
    corner: Seq<char>,
    nmos: Seq<char>,
    pmos: Seq<char>,
    template: Seq<char>,
    w_is_multiple_of_w_min: bool,
    sweep_step_below_min_width: bool,
) -> Seq<Issue> {
    let missing = missing_placeholders_spec(template);
    when(vdd_not_positive, Issue::VddNotPositive) + when(
        !vdd_not_positive && vdd_above_max,
        Issue::VddOutOfRange,
    ) + when(min_length_not_positive, Issue::MinLengthNotPositive) + when(
        !include_path_exists,
        Issue::IncludePathMissing(include_path),
    ) + when(!allowed_corners_spec().contains(corner), Issue::InvalidCorner(corner)) + when(
        is_blank_seq(nmos),
        Issue::NmosEmpty,
    ) + when(is_blank_seq(pmos), Issue::PmosEmpty) + when(
        missing.len() > 0,
        Issue::TemplateMissingPlaceholders(missing),
    ) + when(
        w_is_multiple_of_w_min && sweep_step_below_min_width,
        Issue::SweepGranularityBelowMinWidth,
    )
}

/// `expected_issues` of the facts.
pub open spec fn facts_issues(f: ConfigFacts) -> Seq<Issue> {
    expected_issues(
        f.vdd_not_positive,
        f.vdd_above_max,
        f.min_length_not_positive,
        f.include_path@,
        f.include_path_exists,
        f.corner@,
        f.models.nmos@,
        f.models.pmos@,
        f.syntax.device_template@,
        f.w_is_multiple_of_w_min,
        f.sweep_step_below_min_width,
    )
}

/// The process corners a configuration may name.
pub fn allowed_corners() -> (v: Vec<&'static str>)
    ensures
        str_views(v@) == allowed_corners_spec(),
{
    let v = vec!["tt", "ff", "ss", "sf", "fs"];
    assert(str_views(v@) =~= allowed_corners_spec());
    v
}

/// The placeholders every device template must hold.
pub fn required_placeholders() -> (v: Vec<&'static str>)
    ensures
        str_views(v@) == required_placeholders_spec(),
{
    let v = vec!["{{name}}", "{{d}}", "{{g}}", "{{s}}", "{{b}}", "{{model}}", "{{w}}", "{{l}}"];
    assert(str_views(v@) =~= required_placeholders_spec());
    v
}

/// Whether `corner` is one of the allowed process corners.
pub fn is_allowed_corner(corner: &str) -> (r: bool)
    ensures
        r == allowed_corners_spec().contains(corner@),
{
    let allowed = allowed_corners();
    let mut i: usize = 0;
    while i < allowed.len()
        invariant
            str_views(allowed@) == allowed_corners_spec(),
            i <= allowed.len(),
            forall|j: int| 0 <= j < i ==> allowed_corners_spec()[j] != corner@,
        decreases allowed.len() - i,
    {
        if str_eq(allowed[i], corner) {
            assert(allowed_corners_spec()[i as int] == corner@);
            return true;
        }
        i = i + 1;
    }
    false
}

/// The required placeholders that `template` lacks, in the order in which
/// they are required.
pub fn missing_placeholders(template: &str) -> (missing: Vec<&'static str>)
    ensures
        str_views(missing@) == missing_placeholders_spec(template@),
{
    let required = required_placeholders();
    let ghost pred = |p: Seq<char>| !contains_seq(template@, p);
    let mut missing: Vec<&'static str> = Vec::new();
    let mut i: usize = 0;
    while i < required.len()
        invariant
            str_views(required@) == required_placeholders_spec(),
            i <= required.len(),
            pred == (|p: Seq<char>| !contains_seq(template@, p)),
            str_views(missing@) == required_placeholders_spec().take(i as int).filter(pred),
        decreases required.len() - i,
    {
        let p = required[i];
        assert(required_placeholders_spec().take(i + 1).drop_last()
            == required_placeholders_spec().take(i as int));
        assert(required_placeholders_spec().take(i + 1).last() == p@);
        reveal_with_fuel(Seq::filter, 1);
        if !contains_str(template, p) {
            missing.push(p);
            assert(str_views(missing@) =~= str_views(missing@.drop_last()).push(p@));
        }
        i = i + 1;
    }
    assert(required_placeholders_spec().take(i as int) == required_placeholders_spec());
    missing
}

/// Appends `e` to `errors`.
fn record(errors: &mut Vec<ValidationError>, e: ValidationError)
    ensures
        views(final(errors)@) == views(old(errors)@).push(e@),
{
    errors.push(e);
    assert(views(errors@) =~= views(old(errors)@).push(e@));
}

/// Appending `when(b, x)` is pushing `x` when `b` holds.
proof fn lemma_append_when(s: Seq<Issue>, b: bool, x: Issue)
    ensures
        s + when(b, x) == (if b {
            s.push(x)
        } else {
            s
        }),
{
    reveal(when);
    if b {
        assert(s + seq![x] =~= s.push(x));
    } else {
        assert(s + Seq::<Issue>::empty() =~= s);
    }
}

/// The views of the errors recorded so far.
spec fn views(errors: Seq<ValidationError>) -> Seq<Issue> {
    errors.map_values(|x: ValidationError| x@)
}

/// A configuration validates exactly when each check holds on its own
/// terms: the supply voltage is positive and not above the maximum, the
/// minimum length is positive, the model library exists, the corner is an
/// allowed one, both model names hold text, the device template holds every
/// required placeholder, and the sweep step is not below the minimum width
/// when widths snap to multiples of it.
#[verifier::spinoff_prover]
pub proof fn lemma_validate_ok_exactly_when(f: ConfigFacts)
    ensures
        facts_issues(f).len() == 0 <==> {
            &&& !f.vdd_not_positive
            &&& !f.vdd_above_max
            &&& !f.min_length_not_positive
            &&& f.include_path_exists
            &&& allowed_corners_spec().contains(f.corner@)
            &&& !is_blank_seq(f.models.nmos@)
            &&& !is_blank_seq(f.models.pmos@)
            &&& forall|i: int|
                0 <= i < required_placeholders_spec().len() ==> contains_seq(
                    f.syntax.device_template@,
                    #[trigger] required_placeholders_spec()[i],
                )
            &&& !(f.w_is_multiple_of_w_min && f.sweep_step_below_min_width)
        },
{
    reveal(when);
    broadcast use vstd::seq_lib::group_filter_ensures;

    let t = f.syntax.device_template@;
    let req = required_placeholders_spec();
    let pred = |p: Seq<char>| !contains_seq(t, p);
    let missing = missing_placeholders_spec(t);
    assert(missing == req.filter(pred));
    assert((forall|i: int| 0 <= i < req.len() ==> contains_seq(t, #[trigger] req[i])) <==> missing.len()
        == 0) by {
        if missing.len() > 0 {
            assert(pred(missing[0]));
            assert(missing.contains(missing[0]));
            req.lemma_filter_contains_rev(pred, missing[0]);
        }
        if exists|i: int| 0 <= i < req.len() && !contains_seq(t, #[trigger] req[i]) {
            let i = choose|i: int| 0 <= i < req.len() && !contains_seq(t, #[trigger] req[i]);
            req.lemma_filter_contains(pred, i);
        }
    }
}

/// Every required placeholder that the device template lacks is named by a
/// `TemplateMissingPlaceholders` error of the configuration.
pub proof fn lemma_missing_placeholder_reported(f: ConfigFacts, p: Seq<char>)
    requires
        required_placeholders_spec().contains(p),
        !contains_seq(f.syntax.device_template@, p),
    ensures
        exists|j: int|
            0 <= j < facts_issues(f).len() && (#[trigger] facts_issues(f)[j] matches Issue::TemplateMissingPlaceholders(
                m,
            ) && m.contains(p)),
{
    reveal(when);
    broadcast use vstd::seq_lib::group_filter_ensures;

    let t = f.syntax.device_template@;
    let req = required_placeholders_spec();
    let pred = |q: Seq<char>| !contains_seq(t, q);
    let missing = missing_placeholders_spec(t);
    let i = choose|i: int| 0 <= i < req.len() && req[i] == p;
    req.lemma_filter_contains(pred, i);
    assert(missing.contains(p));
    let issues = facts_issues(f);
    let pre = when(f.vdd_not_positive, Issue::VddNotPositive) + when(
        !f.vdd_not_positive && f.vdd_above_max,
        Issue::VddOutOfRange,
    ) + when(f.min_length_not_positive, Issue::MinLengthNotPositive) + when(
        !f.include_path_exists,
        Issue::IncludePathMissing(f.include_path@),
    ) + when(!allowed_corners_spec().contains(f.corner@), Issue::InvalidCorner(f.corner@)) + when(
        is_blank_seq(f.models.nmos@),
        Issue::NmosEmpty,
    ) + when(is_blank_seq(f.models.pmos@), Issue::PmosEmpty);
    let tail = when(
        f.w_is_multiple_of_w_min && f.sweep_step_below_min_width,
        Issue::SweepGranularityBelowMinWidth,
    );
    assert(issues == pre + seq![Issue::TemplateMissingPlaceholders(missing)] + tail);
    assert(issues[pre.len() as int] == Issue::TemplateMissingPlaceholders(missing));
}

/// The position of each kind of error in the order of the checks.
pub open spec fn check_rank(i: Issue) -> int {
    match i {
        Issue::VddNotPositive => 0,
        Issue::VddOutOfRange => 1,
        Issue::MinLengthNotPositive => 2,
        Issue::IncludePathMissing(_) => 3,
        Issue::InvalidCorner(_) => 4,
        Issue::NmosEmpty => 5,
        Issue::PmosEmpty => 6,
        Issue::TemplateMissingPlaceholders(_) => 7,
        Issue::SweepGranularityBelowMinWidth => 8,
    }
}

/// Every issue of `s` has a rank in `[lo, hi)`, and the ranks increase.
#[verifier::opaque]
spec fn ranked(s: Seq<Issue>, lo: int, hi: int) -> bool {
    &&& forall|i: int| 0 <= i < s.len() ==> lo <= #[trigger] check_rank(s[i]) < hi
    &&& forall|i: int, j: int|
        0 <= i < j < s.len() ==> check_rank(#[trigger] s[i]) < check_rank(#[trigger] s[j])
}

/// Appending a ranked run of higher ranks keeps the ranks increasing.
proof fn lemma_ranked_append(a: Seq<Issue>, b: Seq<Issue>, lo: int, mid: int, hi: int)
    requires
        ranked(a, lo, mid),
        ranked(b, mid, hi),
        lo <= mid <= hi,
    ensures
        ranked(a + b, lo, hi),
{
    reveal(ranked);
    let c = a + b;
    assert forall|i: int| 0 <= i < c.len() implies lo <= #[trigger] check_rank(c[i]) < hi by {
        if i < a.len() {
            assert(c[i] == a[i]);
            assert(lo <= check_rank(a[i]) < mid);
        } else {
            assert(c[i] == b[i - a.len()]);
            assert(mid <= check_rank(b[i - a.len()]) < hi);
        }
    }
    assert forall|i: int, j: int| 0 <= i < j < c.len() implies check_rank(#[trigger] c[i])
        < check_rank(#[trigger] c[j]) by {
        if j < a.len() {
            assert(c[i] == a[i] && c[j] == a[j]);
        } else if i >= a.len() {
            assert(c[i] == b[i - a.len()] && c[j] == b[j - a.len()]);
        } else {
            assert(c[i] == a[i] && c[j] == b[j - a.len()]);
            assert(check_rank(a[i]) < mid);
            assert(mid <= check_rank(b[j - a.len()]));
        }
    }
}

/// In a sequence made of a run of lower ranks, `seg`, and a run of higher
/// ranks, the members of rank `r` are exactly those of `seg`.
proof fn lemma_rank_member(
    all: Seq<Issue>,
    pre: Seq<Issue>,
    seg: Seq<Issue>,
    post: Seq<Issue>,
    r: int,
    x: Issue,
)
    requires
        all == pre + seg + post,
        ranked(pre, 0, r),
        ranked(post, r + 1, 9),
        check_rank(x) == r,
    ensures
        all.contains(x) <==> seg.contains(x),
{
    reveal(ranked);
    if all.contains(x) {
        let k = choose|k: int| 0 <= k < all.len() && all[k] == x;
        if k < pre.len() {
            assert(all[k] == pre[k]);
            assert(check_rank(pre[k]) < r);
        } else if k >= pre.len() + seg.len() {
            assert(all[k] == post[k - pre.len() - seg.len()]);
            assert(check_rank(post[k - pre.len() - seg.len()]) >= r + 1);
        } else {
            assert(all[k] == seg[k - pre.len()]);
        }
    }
    if seg.contains(x) {
        let k = choose|k: int| 0 <= k < seg.len() && seg[k] == x;
        assert(all[pre.len() + k] == seg[k]);
    }
}

/// A run of at most one issue of rank `r` is ranked in `[r, r + 1)`.
proof fn lemma_when_ranked(b: bool, x: Issue, r: int)
    requires
        check_rank(x) == r,
    ensures
        ranked(when(b, x), r, r + 1),
{
    reveal(when);
    reveal(ranked);
}

/// The empty run is ranked in any range.
proof fn lemma_empty_ranked(r: int)
    ensures
        ranked(Seq::<Issue>::empty(), r, r),
{
    reveal(ranked);
}

/// The ranks of a ranked run increase.
proof fn lemma_ranked_increasing(s: Seq<Issue>)
    requires
        ranked(s, 0, 9),
    ensures
        forall|i: int, j: int|
            0 <= i < j < s.len() ==> check_rank(#[trigger] s[i]) < check_rank(#[trigger] s[j]),
{
    reveal(ranked);
}

/// In a run of lower ranks, the run `when(b, x)` of rank `r`, and a run of
/// higher ranks, `x` occurs exactly when `b` holds.
proof fn lemma_segment_member(
    all: Seq<Issue>,
    pre: Seq<Issue>,
    b: bool,
    x: Issue,
    post: Seq<Issue>,
    r: int,
)
    requires
        all == pre + when(b, x) + post,
        ranked(pre, 0, r),
        ranked(post, r + 1, 9),
        check_rank(x) == r,
    ensures
        all.contains(x) <==> b,
{
    reveal(when);
    lemma_rank_member(all, pre, when(b, x), post, r, x);
    if b {
        assert(when(b, x)[0] == x);
    }
}

/// Concatenation is associative.
proof fn lemma_concat_assoc(a: Seq<Issue>, b: Seq<Issue>, c: Seq<Issue>)
    ensures
        a + (b + c) == (a + b) + c,
{
    assert(a + (b + c) =~= (a + b) + c);
}

/// Runs of at most one issue each, of ranks 0 to 8 in turn, concatenate to
/// a sequence whose ranks increase and which holds each issue exactly when
/// its run does.
#[verifier::spinoff_prover]
proof fn lemma_whens_in_rank_order(
    b0: bool,
    b1: bool,
    b2: bool,
    b3: bool,
    b4: bool,
    b5: bool,
    b6: bool,
    b7: bool,
    b8: bool,
    x0: Issue,
    x1: Issue,
    x2: Issue,
    x3: Issue,
    x4: Issue,
    x5: Issue,
    x6: Issue,
    x7: Issue,
    x8: Issue,
)
    requires
        check_rank(x0) == 0,
        check_rank(x1) == 1,
        check_rank(x2) == 2,
        check_rank(x3) == 3,
        check_rank(x4) == 4,
        check_rank(x5) == 5,
        check_rank(x6) == 6,
        check_rank(x7) == 7,
        check_rank(x8) == 8,
    ensures
        forall|i: int, j: int|
            0 <= i < j < (when(b0, x0) + when(b1, x1) + when(b2, x2) + when(b3, x3) + when(b4, x4) + when(b5, x5) + when(b6, x6) + when(b7, x7) + when(b8, x8)).len() ==> check_rank(#[trigger] (when(b0, x0) + when(b1, x1) + when(b2, x2) + when(b3, x3) + when(b4, x4) + when(b5, x5) + when(b6, x6) + when(b7, x7) + when(b8, x8))[i]) < check_rank(#[trigger] (when(b0, x0) + when(b1, x1) + when(b2, x2) + when(b3, x3) + when(b4, x4) + when(b5, x5) + when(b6, x6) + when(b7, x7) + when(b8, x8))[j]),
        (when(b0, x0) + when(b1, x1) + when(b2, x2) + when(b3, x3) + when(b4, x4) + when(b5, x5) + when(b6, x6) + when(b7, x7) + when(b8, x8)).contains(x0) <==> b0,
        (when(b0, x0) + when(b1, x1) + when(b2, x2) + when(b3, x3) + when(b4, x4) + when(b5, x5) + when(b6, x6) + when(b7, x7) + when(b8, x8)).contains(x1) <==> b1,
        (when(b0, x0) + when(b1, x1) + when(b2, x2) + when(b3, x3) + when(b4, x4) + when(b5, x5) + when(b6, x6) + when(b7, x7) + when(b8, x8)).contains(x2) <==> b2,
        (when(b0, x0) + when(b1, x1) + when(b2, x2) + when(b3, x3) + when(b4, x4) + when(b5, x5) + when(b6, x6) + when(b7, x7) + when(b8, x8)).contains(x3) <==> b3,
        (when(b0, x0) + when(b1, x1) + when(b2, x2) + when(b3, x3) + when(b4, x4) + when(b5, x5) + when(b6, x6) + when(b7, x7) + when(b8, x8)).contains(x4) <==> b4,
        (when(b0, x0) + when(b1, x1) + when(b2, x2) + when(b3, x3) + when(b4, x4) + when(b5, x5) + when(b6, x6) + when(b7, x7) + when(b8, x8)).contains(x5) <==> b5,
        (when(b0, x0) + when(b1, x1) + when(b2, x2) + when(b3, x3) + when(b4, x4) + when(b5, x5) + when(b6, x6) + when(b7, x7) + when(b8, x8)).contains(x6) <==> b6,
        (when(b0, x0) + when(b1, x1) + when(b2, x2) + when(b3, x3) + when(b4, x4) + when(b5, x5) + when(b6, x6) + when(b7, x7) + when(b8, x8)).contains(x7) <==> b7,
        (when(b0, x0) + when(b1, x1) + when(b2, x2) + when(b3, x3) + when(b4, x4) + when(b5, x5) + when(b6, x6) + when(b7, x7) + when(b8, x8)).contains(x8) <==> b8,
{
    let s0 = when(b0, x0);
    lemma_when_ranked(b0, x0, 0);
    let s1 = when(b1, x1);
    lemma_when_ranked(b1, x1, 1);
    let s2 = when(b2, x2);
    lemma_when_ranked(b2, x2, 2);
    let s3 = when(b3, x3);
    lemma_when_ranked(b3, x3, 3);
    let s4 = when(b4, x4);
    lemma_when_ranked(b4, x4, 4);
    let s5 = when(b5, x5);
    lemma_when_ranked(b5, x5, 5);
    let s6 = when(b6, x6);
    lemma_when_ranked(b6, x6, 6);
    let s7 = when(b7, x7);
    lemma_when_ranked(b7, x7, 7);
    let s8 = when(b8, x8);
    lemma_when_ranked(b8, x8, 8);
    let p0 = Seq::<Issue>::empty();
    lemma_empty_ranked(0);
    let p1 = p0 + s0;
    lemma_ranked_append(p0, s0, 0, 0, 1);
    let p2 = p1 + s1;
    lemma_ranked_append(p1, s1, 0, 1, 2);
    let p3 = p2 + s2;
    lemma_ranked_append(p2, s2, 0, 2, 3);
    let p4 = p3 + s3;
    lemma_ranked_append(p3, s3, 0, 3, 4);
    let p5 = p4 + s4;
    lemma_ranked_append(p4, s4, 0, 4, 5);
    let p6 = p5 + s5;
    lemma_ranked_append(p5, s5, 0, 5, 6);
    let p7 = p6 + s6;
    lemma_ranked_append(p6, s6, 0, 6, 7);
    let p8 = p7 + s7;
    lemma_ranked_append(p7, s7, 0, 7, 8);
    let p9 = p8 + s8;
    lemma_ranked_append(p8, s8, 0, 8, 9);
    let t9 = Seq::<Issue>::empty();
    lemma_empty_ranked(9);
    let t8 = s8 + t9;
    lemma_ranked_append(s8, t9, 8, 9, 9);
    let t7 = s7 + t8;
    lemma_ranked_append(s7, t8, 7, 8, 9);
    let t6 = s6 + t7;
    lemma_ranked_append(s6, t7, 6, 7, 9);
    let t5 = s5 + t6;
    lemma_ranked_append(s5, t6, 5, 6, 9);
    let t4 = s4 + t5;
    lemma_ranked_append(s4, t5, 4, 5, 9);
    let t3 = s3 + t4;
    lemma_ranked_append(s3, t4, 3, 4, 9);
    let t2 = s2 + t3;
    lemma_ranked_append(s2, t3, 2, 3, 9);
    let t1 = s1 + t2;
    lemma_ranked_append(s1, t2, 1, 2, 9);
    let t0 = s0 + t1;
    lemma_ranked_append(s0, t1, 0, 1, 9);
    let all = p9;
    assert(p9 + t9 =~= p9) by { reveal(ranked); }
    lemma_concat_assoc(p8, s8, t9);
    lemma_concat_assoc(p7, s7, t8);
    lemma_concat_assoc(p6, s6, t7);
    lemma_concat_assoc(p5, s5, t6);
    lemma_concat_assoc(p4, s4, t5);
    lemma_concat_assoc(p3, s3, t4);
    lemma_concat_assoc(p2, s2, t3);
    lemma_concat_assoc(p1, s1, t2);
    lemma_concat_assoc(p0, s0, t1);
    lemma_segment_member(all, p0, b0, x0, t1, 0);
    lemma_segment_member(all, p1, b1, x1, t2, 1);
    lemma_segment_member(all, p2, b2, x2, t3, 2);
    lemma_segment_member(all, p3, b3, x3, t4, 3);
    lemma_segment_member(all, p4, b4, x4, t5, 4);
    lemma_segment_member(all, p5, b5, x5, t6, 5);
    lemma_segment_member(all, p6, b6, x6, t7, 6);
    lemma_segment_member(all, p7, b7, x7, t8, 7);
    lemma_segment_member(all, p8, b8, x8, t9, 8);
    lemma_ranked_increasing(all);
}

/// The errors of a configuration come in the order of the checks, each
/// kind at most once; and an error of each kind is reported exactly when
/// its check fails, naming what it concerns.
pub proof fn lemma_issues_follow_checks(f: ConfigFacts)
    ensures
        forall|i: int, j: int|
            0 <= i < j < facts_issues(f).len() ==> check_rank(#[trigger] facts_issues(f)[i])
                < check_rank(#[trigger] facts_issues(f)[j]),
        facts_issues(f).contains(Issue::VddNotPositive) <==> f.vdd_not_positive,
        facts_issues(f).contains(Issue::VddOutOfRange) <==> (!f.vdd_not_positive
            && f.vdd_above_max),
        facts_issues(f).contains(Issue::MinLengthNotPositive) <==> f.min_length_not_positive,
        facts_issues(f).contains(Issue::IncludePathMissing(f.include_path@))
            <==> !f.include_path_exists,
        facts_issues(f).contains(Issue::InvalidCorner(f.corner@)) <==> !allowed_corners_spec().contains(
            f.corner@,
        ),
        facts_issues(f).contains(Issue::NmosEmpty) <==> is_blank_seq(f.models.nmos@),
        facts_issues(f).contains(Issue::PmosEmpty) <==> is_blank_seq(f.models.pmos@),
        facts_issues(f).contains(Issue::SweepGranularityBelowMinWidth) <==> (
        f.w_is_multiple_of_w_min && f.sweep_step_below_min_width),
{
    let m = missing_placeholders_spec(f.syntax.device_template@);
    lemma_whens_in_rank_order(
        f.vdd_not_positive,
        !f.vdd_not_positive && f.vdd_above_max,
        f.min_length_not_positive,
        !f.include_path_exists,
        !allowed_corners_spec().contains(f.corner@),
        is_blank_seq(f.models.nmos@),
        is_blank_seq(f.models.pmos@),
        m.len() > 0,
        f.w_is_multiple_of_w_min && f.sweep_step_below_min_width,
        Issue::VddNotPositive,
        Issue::VddOutOfRange,
        Issue::MinLengthNotPositive,
        Issue::IncludePathMissing(f.include_path@),
        Issue::InvalidCorner(f.corner@),
        Issue::NmosEmpty,
        Issue::PmosEmpty,
        Issue::TemplateMissingPlaceholders(m),
        Issue::SweepGranularityBelowMinWidth,
    );
}

/// Checks a configuration. Every check runs; the result is `Ok` exactly when
/// none fails, and otherwise lists one error per failed check, in the order
/// supply voltage (not positive, or else above the sane maximum), minimum
/// length, model library, corner, NMOS model, PMOS model, device template,
/// sweep step (checked only when widths snap to multiples of the minimum
/// width).
#[verifier::rlimit(50)]
pub fn validate(facts: &ConfigFacts) -> (r: Result<(), ValidationErrors>)
    ensures
        r is Ok <==> facts_issues(*facts).len() == 0,
        r matches Err(errs) ==> errs@ == facts_issues(*facts),
{
    let mut errors: Vec<ValidationError> = Vec::new();
    let ghost v0 = views(errors@);
    assert(v0 =~= Seq::<Issue>::empty());
    let b1 = facts.vdd_not_positive;
    if b1 {
        record(&mut errors, ValidationError::VddNotPositive);
    }
    let ghost v1 = views(errors@);
    proof { lemma_append_when(v0, b1, Issue::VddNotPositive); }
    let b2 = !facts.vdd_not_positive && facts.vdd_above_max;
    if b2 {
        record(&mut errors, ValidationError::VddOutOfRange);
    }
    let ghost v2 = views(errors@);
    proof { lemma_append_when(v1, b2, Issue::VddOutOfRange); }
    let b3 = facts.min_length_not_positive;
    if b3 {
        record(&mut errors, ValidationError::MinLengthNotPositive);
    }
    let ghost v3 = views(errors@);
    proof { lemma_append_when(v2, b3, Issue::MinLengthNotPositive); }
    let b4 = !facts.include_path_exists;
    if b4 {
        record(&mut errors, ValidationError::IncludePathMissing(facts.include_path.clone()));
    }
    let ghost v4 = views(errors@);
    proof { lemma_append_when(v3, b4, Issue::IncludePathMissing(facts.include_path@)); }
    let b5 = !is_allowed_corner(facts.corner.as_str());
    if b5 {
        record(&mut errors, ValidationError::InvalidCorner(facts.corner.clone()));
    }
    let ghost v5 = views(errors@);
    proof { lemma_append_when(v4, b5, Issue::InvalidCorner(facts.corner@)); }
    let b6 = is_blank(facts.models.nmos.as_str());
    if b6 {
        record(&mut errors, ValidationError::NmosEmpty);
    }
    let ghost v6 = views(errors@);
    proof { lemma_append_when(v5, b6, Issue::NmosEmpty); }
    let b7 = is_blank(facts.models.pmos.as_str());
    if b7 {
        record(&mut errors, ValidationError::PmosEmpty);
    }
    let ghost v7 = views(errors@);
    proof { lemma_append_when(v6, b7, Issue::PmosEmpty); }
    let missing = missing_placeholders(facts.syntax.device_template.as_str());
    let ghost m = missing_placeholders_spec(facts.syntax.device_template@);
    let b8 = missing.len() > 0;
    if b8 {
        record(&mut errors, ValidationError::TemplateMissingPlaceholders(missing));
    }
    let ghost v8 = views(errors@);
    let b9 = facts.w_is_multiple_of_w_min && facts.sweep_step_below_min_width;
    if b9 {
        record(&mut errors, ValidationError::SweepGranularityBelowMinWidth);
    }
    let ghost v9 = views(errors@);
    proof {
        lemma_append_when(v8, b9, Issue::SweepGranularityBelowMinWidth);
        lemma_append_when(v7, b8, Issue::TemplateMissingPlaceholders(m));
        assert(v0 + when(b1, Issue::VddNotPositive) == when(b1, Issue::VddNotPositive));
    }
    assert(v9 == facts_issues(*facts));
    if errors.len() == 0 {
        Ok(())
    } else {
        Err(ValidationErrors(errors))
    }
}

} // verus!
