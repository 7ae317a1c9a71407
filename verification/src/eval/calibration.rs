//! Calibration of the judge: its verdicts held against cases with known
//! answers.
use vstd::prelude::*;
use vstd::string::*;

use super::dataset::QualityCriteria;
use super::loader::{convert_criteria, criteria_converted, YamlCriteria};
use super::types::Timestamp;
use crate::error::SyscityError;
use crate::scalar::Double;
use crate::strmap::StrMap;
use crate::text::{cat, chars_of, pieces, same, split, string_of_range, texts, trim, trimmed};

verus! {

/// The expected outcome of a case.
#[derive(Debug)]
pub struct ExpectedCalibration {
    /// The verdict.
    pub verdict: String,
    /// The score of each dimension, by its label.
    pub dimension_scores: StrMap<Double>,
}

/// A case with a known outcome.
#[derive(Debug)]
pub struct CalibrationCase {
    pub id: String,
    pub input: String,
    /// What the judge is shown.
    pub trajectory: String,
    /// What the judge judges by; the usual criteria where it is left open.
    pub criteria: Option<QualityCriteria>,
    pub expected: ExpectedCalibration,
    /// How far a score may be off.
    pub acceptable_deviation: Double,
}

/// A case of a calibration file.
#[derive(Debug)]
pub struct CalibrationCaseYaml {
    pub id: String,
    pub input: String,
    pub trajectory: String,
    pub criteria: Option<YamlCriteria>,
    pub expected: ExpectedCalibration,
    pub acceptable_deviation: Double,
}

/// How far a score may be off where a case does not say: 0.2.
pub fn default_deviation() -> (r: Double)
    ensures
        r.bits == 0x3fc9_9999_9999_999a,
{
    Double { bits: 0x3fc9_9999_9999_999a }
}

/// The result of a case.
#[derive(Debug)]
pub struct CalibrationResult {
    pub case_id: String,
    pub expected_verdict: String,
    pub actual_verdict: String,
    pub verdict_match: bool,
    pub dimension_accuracy: Double,
    pub overall_score_deviation: Double,
    pub details: String,
}

/// The results of all cases.
#[derive(Debug)]
pub struct CalibrationReport {
    pub total_cases: usize,
    pub matching_verdicts: usize,
    pub verdict_accuracy: Double,
    pub avg_dimension_accuracy: Double,
    pub avg_score_deviation: Double,
    pub per_case: Vec<CalibrationResult>,
    pub timestamp: Timestamp,
}

/// The error for a calibration file that cannot be parsed, given its path as it
/// is printed.
pub fn calibration_parse_error(shown_path: &str, error: &str) -> (r: SyscityError)
    ensures
        r matches SyscityError::Validation(m) && m@ == "Cannot parse calibration file "@
            + shown_path@ + ": "@ + error@,
{
    let mut s = cat("Cannot parse calibration file ", shown_path);
    s.append(": ");
    s.append(error);
    SyscityError::Validation(s)
}

/// Whether a case is the one that an entry of a file stands for.
pub open spec fn case_converted(yc: CalibrationCaseYaml, c: CalibrationCase) -> bool {
    &&& c.id == yc.id
    &&& c.input == yc.input
    &&& c.trajectory == yc.trajectory
    &&& criteria_converted(yc.criteria, c.criteria)
    &&& c.expected == yc.expected
    &&& c.acceptable_deviation == yc.acceptable_deviation
}

/// The cases of a calibration file.
pub fn load_calibration_cases(cases: Vec<CalibrationCaseYaml>) -> (r: Vec<CalibrationCase>)
    ensures
        r@.len() == cases@.len(),
        forall|i: int| 0 <= i < r@.len() ==> case_converted(cases@[i], #[trigger] r@[i]),
{
    let ghost all = cases@;
    let mut out: Vec<CalibrationCase> = Vec::new();
    for yc in it: cases
        invariant
            it.seq() == all,
            out@.len() == it.index(),
            forall|k: int| 0 <= k < out@.len() ==> case_converted(all[k], #[trigger] out@[k]),
    {
        let criteria = match yc.criteria {
            Some(c) => Some(convert_criteria(c)),
            None => None,
        };
        out.push(
            CalibrationCase {
                id: yc.id,
                input: yc.input,
                trajectory: yc.trajectory,
                criteria,
                expected: yc.expected,
                acceptable_deviation: yc.acceptable_deviation,
            },
        );
    }
    out
}

/// What the judge made of a case: its verdict, with the accuracy of its scores
/// and what is to be said of them, or its error.
#[derive(Debug)]
pub enum Judgement {
    Given {
        passed: bool,
        dimension_accuracy: Double,
        overall_score_deviation: Double,
        details: String,
    },
    Failed(String),
}

/// The verdict of the judge, in a word.
pub open spec fn verdict_word(passed: bool) -> Seq<char> {
    if passed {
        "Pass"@
    } else {
        "Fail"@
    }
}

/// The result of a case: an error of the judge matches nothing.
pub fn evaluate_case(case: &CalibrationCase, judgement: Judgement) -> (r: CalibrationResult)
    ensures
        r.case_id@ == case.id@,
        r.expected_verdict@ == case.expected.verdict@,
        match judgement {
            Judgement::Given { passed, dimension_accuracy, overall_score_deviation, details } => {
                &&& r.actual_verdict@ == verdict_word(passed)
                &&& r.verdict_match == (verdict_word(passed) == case.expected.verdict@)
                &&& r.dimension_accuracy == dimension_accuracy
                &&& r.overall_score_deviation == overall_score_deviation
                &&& r.details == details
            },
            Judgement::Failed(error) => {
                &&& r.actual_verdict@ == "error"@
                &&& !r.verdict_match
                &&& r.dimension_accuracy.bits == 0
                &&& r.overall_score_deviation.bits == 0x3ff0_0000_0000_0000
                &&& r.details@ == "Critic error: "@ + error@
            },
        },
{
    let case_id = case.id.clone();
    let expected_verdict = case.expected.verdict.clone();
    match judgement {
        Judgement::Given { passed, dimension_accuracy, overall_score_deviation, details } => {
            let actual = if passed {
                "Pass"
            } else {
                "Fail"
            };
            let verdict_match = same(actual, &expected_verdict);
            CalibrationResult {
                case_id,
                expected_verdict,
                actual_verdict: actual.to_string(),
                verdict_match,
                dimension_accuracy,
                overall_score_deviation,
                details,
            }
        },
        Judgement::Failed(error) => CalibrationResult {
            case_id,
            expected_verdict,
            actual_verdict: "error".to_string(),
            verdict_match: false,
            dimension_accuracy: Double { bits: 0 },
            overall_score_deviation: Double { bits: 0x3ff0_0000_0000_0000 },
            details: cat("Critic error: ", &error),
        },
    }
}

/// How many of the results match.
pub open spec fn match_count(results: Seq<CalibrationResult>) -> nat
    decreases results.len(),
{
    if results.len() == 0 {
        0
    } else {
        match_count(results.drop_last()) + (if results.last().verdict_match {
            1nat
        } else {
            0nat
        })
    }
}

/// How many of the results match.
pub fn matching_verdicts(results: &Vec<CalibrationResult>) -> (r: usize)
    ensures
        r == match_count(results@),
        r <= results@.len(),
{
    let mut count: usize = 0;
    let mut i: usize = 0;
    while i < results.len()
        invariant
            i <= results@.len(),
            count <= i,
            count == match_count(results@.take(i as int)),
        decreases results.len() - i,
    {
        proof {
            assert(results@.take(i + 1).drop_last() =~= results@.take(i as int));
            assert(results@.take(i + 1).last() == results@[i as int]);
        }
        if results[i].verdict_match {
            count += 1;
        }
        i += 1;
    }
    assert(results@.take(results@.len() as int) =~= results@);
    count
}

/// The averages over all cases.
#[derive(Debug, Clone, Copy)]
pub struct Averages {
    pub verdict_accuracy: Double,
    pub dimension_accuracy: Double,
    pub score_deviation: Double,
}

/// The report of a calibration, given the averages over its cases. Without any
/// case the accuracy is 1.0 and the deviation 0.0.
pub fn calibrate(per_case: Vec<CalibrationResult>, averages: Averages, now: Timestamp) -> (r:
    CalibrationReport)
    ensures
        r.total_cases == per_case@.len(),
        r.matching_verdicts == match_count(per_case@),
        per_case@.len() > 0 ==> r.verdict_accuracy == averages.verdict_accuracy
            && r.avg_dimension_accuracy == averages.dimension_accuracy && r.avg_score_deviation
            == averages.score_deviation,
        per_case@.len() == 0 ==> r.verdict_accuracy.bits == 0x3ff0_0000_0000_0000
            && r.avg_dimension_accuracy.bits == 0x3ff0_0000_0000_0000 && r.avg_score_deviation.bits
            == 0,
        r.per_case == per_case,
        r.timestamp == now,
{
    let matching = matching_verdicts(&per_case);
    let total = per_case.len();
    let shown = if total > 0 {
        averages
    } else {
        Averages {
            verdict_accuracy: Double { bits: 0x3ff0_0000_0000_0000 },
            dimension_accuracy: Double { bits: 0x3ff0_0000_0000_0000 },
            score_deviation: Double { bits: 0 },
        }
    };
    CalibrationReport {
        total_cases: total,
        matching_verdicts: matching,
        verdict_accuracy: shown.verdict_accuracy,
        avg_dimension_accuracy: shown.dimension_accuracy,
        avg_score_deviation: shown.score_deviation,
        per_case,
        timestamp: now,
    }
}

// ---------------------------------------------------------------------------
// History and drift
// ---------------------------------------------------------------------------

/// The line before a line feed: without the carriage return before it.
pub open spec fn line_of(piece: Seq<char>) -> Seq<char> {
    if piece.len() > 0 && piece.last() == '\r' {
        piece.drop_last()
    } else {
        piece
    }
}

/// The lines among the first `n` of the pieces between line feeds that hold more
/// than white space.
pub open spec fn lines_to(ps: Seq<Seq<char>>, n: int) -> Seq<Seq<char>>
    decreases n,
{
    if n <= 0 || n > ps.len() {
        Seq::empty()
    } else {
        let line = if n < ps.len() {
            line_of(ps[n - 1])
        } else {
            ps[n - 1]
        };
        if trimmed(line).len() > 0 {
            lines_to(ps, n - 1).push(line)
        } else {
            lines_to(ps, n - 1)
        }
    }
}

/// The lines of a history that hold a report.
pub fn history_lines(content: &str) -> (r: Vec<String>)
    ensures
        texts(r@) == lines_to(pieces(content@, '\n'), pieces(content@, '\n').len() as int),
{
    let ps = split(content, '\n');
    let ghost all = texts(ps@);
    let mut out: Vec<String> = Vec::new();
    let mut i: usize = 0;
    assert(texts(out@) =~= lines_to(all, 0));
    while i < ps.len()
        invariant
            i <= ps@.len(),
            all == texts(ps@),
            texts(out@) == lines_to(all, i as int),
        decreases ps.len() - i,
    {
        let ghost before = out@;
        assert(all[i as int] == ps@[i as int]@);
        let line = if i + 1 < ps.len() {
            let cs = chars_of(&ps[i]);
            if cs.len() > 0 && cs[cs.len() - 1] == '\r' {
                let head = string_of_range(&cs, 0, cs.len() - 1);
                assert(head@ =~= ps@[i as int]@.drop_last());
                head
            } else {
                ps[i].clone()
            }
        } else {
            ps[i].clone()
        };
        if !trim(&line).as_str().is_empty() {
            let ghost text = line@;
            out.push(line);
            assert(texts(out@) =~= texts(before).push(text));
        }
        i += 1;
    }
    out
}

/// How an accuracy changed: whether it dropped by more than 0.05, with the
/// percentages as they are printed.
#[derive(Debug)]
pub struct Change {
    pub dropped: bool,
    pub by: String,
    pub was: String,
    pub is_now: String,
}

/// What is said of a drop.
pub open spec fn drop_text(kind: Seq<char>, c: Change) -> Seq<char> {
    kind + " accuracy dropped "@ + c.by@ + "% (was "@ + c.was@ + "%, now "@ + c.is_now@ + "%)"@
}

fn describe_drop(kind: &str, c: &Change) -> (r: String)
    ensures
        r@ == drop_text(kind@, *c),
{
    let mut s = cat(kind, " accuracy dropped ");
    s.append(&c.by);
    s.append("% (was ");
    s.append(&c.was);
    s.append("%, now ");
    s.append(&c.is_now);
    s.append("%)");
    s
}

/// What drifted between the last two of a number of reports: the accuracy of the
/// verdicts, else that of the dimensions. Nothing is said of a single report.
pub fn detect_drift(reports: usize, verdicts: &Change, dimensions: &Change) -> (r: Option<String>)
    ensures
        match r {
            Some(s) => reports >= 2 && (if verdicts.dropped {
                s@ == drop_text("Verdict"@, *verdicts)
            } else {
                dimensions.dropped && s@ == drop_text("Dimension"@, *dimensions)
            }),
            None => reports < 2 || (!verdicts.dropped && !dimensions.dropped),
        },
{
    if reports < 2 {
        None
    } else if verdicts.dropped {
        Some(describe_drop("Verdict", verdicts))
    } else if dimensions.dropped {
        Some(describe_drop("Dimension", dimensions))
    } else {
        None
    }
}

/// Which reports are compared: the one before the last, and the last; none where
/// there are fewer than two.
pub fn compared_reports(reports: usize) -> (r: Option<(usize, usize)>)
    ensures
        r == (if reports >= 2 {
            Some(((reports - 2) as usize, (reports - 1) as usize))
        } else {
            None
        }),
{
    if reports < 2 {
        None
    } else {
        Some((reports - 2, reports - 1))
    }
}

} // verus!
