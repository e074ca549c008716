//! The scan orchestrator: one pass over the corpus, first-match-wins rule
//! selection, and aggregation into the report.
//!
//! Each unit is governed by at most one rule: the first, in declaration
//! order, whose guard matches the unit's namespace — never the most
//! specific one, and never several at once. A unit no guard matches is
//! left unscanned, which is neither an error nor a warning. A governed
//! unit whose text could not be read contributes its read-failure warning
//! and a skip count; a governed unit with text contributes the scanner's
//! violations.

use vstd::prelude::*;

use crate::pattern::tokens_match;
use crate::report::Report;
use crate::rule::CompiledRule;
use crate::rule::CompiledRuleView;
use crate::rule::rule_views;
use crate::scan::ViolationView;
use crate::scan::scan_violations;
use crate::scan::violation_views;
use crate::source::ClojureSourceFile;
use crate::source::SourceFileView;

verus! {

/// The views of a corpus of source units, in corpus order.
pub open spec fn file_views(files: Seq<ClojureSourceFile>) -> Seq<SourceFileView> {
    files.map_values(|f: ClojureSourceFile| f@)
}

/// The views of the pre-read texts: the bytes of each readable unit, or
/// the read-failure warning for the others.
pub open spec fn text_views(texts: Seq<Result<Vec<u8>, String>>) -> Seq<
    Result<Seq<u8>, Seq<char>>,
> {
    texts.map_values(
        |t: Result<Vec<u8>, String>| match t {
            Ok(code) => Ok(code@),
            Err(message) => Err(message@),
        },
    )
}

/// The index of the first rule, at position `k` or later in declaration
/// order, whose guard matches the namespace; `-1` when none does.
pub open spec fn first_rule_from(rules: Seq<CompiledRuleView>, ns: Seq<u8>, k: int) -> int
    decreases rules.len() - k,
{
    if k < 0 || k >= rules.len() {
        -1
    } else if tokens_match(rules[k].guard, ns) {
        k
    } else {
        first_rule_from(rules, ns, k + 1)
    }
}

/// The index of the rule that governs a namespace: the first in
/// declaration order whose guard matches it, or `-1` when none does.
pub open spec fn rule_for(rules: Seq<CompiledRuleView>, ns: Seq<u8>) -> int {
    first_rule_from(rules, ns, 0)
}

proof fn lemma_no_rule(rules: Seq<CompiledRuleView>, ns: Seq<u8>, k: int)
    requires
        0 <= k <= rules.len(),
        forall|j: int| k <= j < rules.len() ==> !tokens_match(rules[j].guard, ns),
    ensures
        first_rule_from(rules, ns, k) == -1,
    decreases rules.len() - k,
{
    if k < rules.len() {
        lemma_no_rule(rules, ns, k + 1);
    }
}

proof fn lemma_rule_exact(rules: Seq<CompiledRuleView>, ns: Seq<u8>, k: int, j: int)
    requires
        0 <= k <= j < rules.len(),
        tokens_match(rules[j].guard, ns),
        forall|x: int| k <= x < j ==> !tokens_match(rules[x].guard, ns),
    ensures
        first_rule_from(rules, ns, k) == j,
    decreases j - k,
{
    if k < j {
        lemma_rule_exact(rules, ns, k + 1, j);
    }
}

/// What one run adds to a report: the violations and warnings gathered,
/// and how far the matched and skipped counters advance.
pub struct RunOutcome {
    /// The violations of every governed, readable unit, in corpus order
    /// and then occurrence order.
    pub violations: Seq<ViolationView>,
    /// The read-failure warning of every governed, unreadable unit.
    pub warnings: Seq<Seq<char>>,
    /// How many units some rule governs.
    pub rules_matched: int,
    /// How many governed units could not be read.
    pub files_skipped: int,
}

/// The outcome of running the first `n` units of the corpus against the
/// rules, in corpus order: each unit is handled by the first rule whose
/// guard matches its namespace, or by none.
pub open spec fn run_outcome(
    rules: Seq<CompiledRuleView>,
    files: Seq<SourceFileView>,
    texts: Seq<Result<Seq<u8>, Seq<char>>>,
    n: int,
) -> RunOutcome
    decreases n,
{
    if n <= 0 {
        RunOutcome {
            violations: Seq::empty(),
            warnings: Seq::empty(),
            rules_matched: 0,
            files_skipped: 0,
        }
    } else {
        let prev = run_outcome(rules, files, texts, n - 1);
        let file = files[n - 1];
        let r = rule_for(rules, file.ns);
        if r < 0 {
            prev
        } else {
            match texts[n - 1] {
                Ok(code) => RunOutcome {
                    violations: prev.violations + scan_violations(
                        file.ns,
                        file.path,
                        code,
                        rules[r].forbidden,
                    ),
                    warnings: prev.warnings,
                    rules_matched: prev.rules_matched + 1,
                    files_skipped: prev.files_skipped,
                },
                Err(message) => RunOutcome {
                    violations: prev.violations,
                    warnings: prev.warnings.push(message),
                    rules_matched: prev.rules_matched + 1,
                    files_skipped: prev.files_skipped + 1,
                },
            }
        }
    }
}

proof fn lemma_outcome_bounds(
    rules: Seq<CompiledRuleView>,
    files: Seq<SourceFileView>,
    texts: Seq<Result<Seq<u8>, Seq<char>>>,
    n: int,
)
    requires
        n >= 0,
    ensures
        0 <= run_outcome(rules, files, texts, n).rules_matched <= n,
        0 <= run_outcome(rules, files, texts, n).files_skipped <= n,
    decreases n,
{
    if n > 0 {
        lemma_outcome_bounds(rules, files, texts, n - 1);
    }
}

/// The views of a list of warnings.
pub open spec fn warning_views(ws: Seq<String>) -> Seq<Seq<char>> {
    ws.map_values(|w: String| w@)
}

proof fn lemma_warning_views_push(ws: Seq<String>, w: String)
    ensures
        warning_views(ws.push(w)) == warning_views(ws).push(w@),
{
    assert(warning_views(ws.push(w)) =~= warning_views(ws).push(w@));
}

/// The first rule, in declaration order, whose guard matches the
/// namespace, if any: first match wins, never the most specific one.
pub fn select_rule(rules: &Vec<CompiledRule>, namespace: &Vec<u8>) -> (r: Option<usize>)
    ensures
        (match r {
            Some(k) => k < rules@.len() && rule_for(rule_views(rules@), namespace@) == k as int,
            None => rule_for(rule_views(rules@), namespace@) == -1,
        }),
{
    let mut k: usize = 0;
    while k < rules.len()
        invariant
            k <= rules@.len(),
            forall|j: int| 0 <= j < k ==> !tokens_match(
                rule_views(rules@)[j].guard,
                namespace@,
            ),
        decreases rules@.len() - k,
    {
        if rules[k].matches_bytes(namespace.as_slice()) {
            proof {
                assert(rule_views(rules@)[k as int] == rules@[k as int]@);
                lemma_rule_exact(rule_views(rules@), namespace@, 0, k as int);
            }
            return Some(k);
        }
        k += 1;
    }
    proof {
        lemma_no_rule(rule_views(rules@), namespace@, 0);
    }
    None
}

/// Runs every unit of the corpus against the rules, in corpus order, and
/// aggregates the results into the report. For each unit the first rule
/// whose guard matches is applied and no other; a unit no rule governs is
/// left untouched. `texts` holds, unit by unit, the pre-read text of each
/// file, or the read-failure warning to record in its place: a governed
/// unreadable unit is skipped with that warning and never aborts the run.
pub fn apply_rules(
    rules: &Vec<CompiledRule>,
    source_files: &Vec<ClojureSourceFile>,
    texts: &Vec<Result<Vec<u8>, String>>,
    report: &mut Report,
)
    requires
        texts@.len() == source_files@.len(),
        old(report).rules_matched + source_files@.len() <= usize::MAX,
        old(report).files_skipped + source_files@.len() <= usize::MAX,
    ensures
        ({
            let outcome = run_outcome(
                rule_views(rules@),
                file_views(source_files@),
                text_views(texts@),
                source_files@.len() as int,
            );
            violation_views(final(report).violations@) == violation_views(
                old(report).violations@,
            ) + outcome.violations && warning_views(final(report).warnings@) == warning_views(
                old(report).warnings@,
            ) + outcome.warnings && final(report).rules_matched == old(report).rules_matched
                + outcome.rules_matched && final(report).files_skipped == old(
                report,
            ).files_skipped + outcome.files_skipped && final(report).files_checked == old(
                report,
            ).files_checked
        }),
{
    let ghost rvs = rule_views(rules@);
    let ghost fvs = file_views(source_files@);
    let ghost tvs = text_views(texts@);
    let n = source_files.len();
    let mut i: usize = 0;
    while i < n
        invariant
            n == source_files@.len(),
            texts@.len() == n,
            rvs == rule_views(rules@),
            fvs == file_views(source_files@),
            tvs == text_views(texts@),
            i <= n,
            old(report).rules_matched + n <= usize::MAX,
            old(report).files_skipped + n <= usize::MAX,
            ({
                let outcome = run_outcome(rvs, fvs, tvs, i as int);
                violation_views(report.violations@) == violation_views(
                    old(report).violations@,
                ) + outcome.violations && warning_views(report.warnings@) == warning_views(
                    old(report).warnings@,
                ) + outcome.warnings && report.rules_matched == old(report).rules_matched
                    + outcome.rules_matched && report.files_skipped == old(report).files_skipped
                    + outcome.files_skipped && report.files_checked == old(report).files_checked
            }),
        decreases n - i,
    {
        proof {
            lemma_outcome_bounds(rvs, fvs, tvs, i as int);
            assert(fvs[i as int] == source_files@[i as int]@);
            assert(tvs[i as int] == (match texts@[i as int] {
                Ok(code) => Ok::<Seq<u8>, Seq<char>>(code@),
                Err(message) => Err::<Seq<u8>, Seq<char>>(message@),
            }));
        }
        let file = &source_files[i];
        match select_rule(rules, &file.ns) {
            Some(k) => {
                report.rule_matched();
                proof {
                    assert(rvs[k as int] == rules@[k as int]@);
                }
                match &texts[i] {
                    Ok(code) => {
                        rules[k].apply(file, code.as_slice(), report);
                    },
                    Err(message) => {
                        let warning = message.clone();
                        let ghost w = warning;
                        let ghost pre = report.warnings@;
                        report.file_skipped(warning);
                        proof {
                            lemma_warning_views_push(pre, w);
                            assert((warning_views(old(report).warnings@)
                                + run_outcome(rvs, fvs, tvs, i as int).warnings).push(w@)
                                =~= warning_views(old(report).warnings@) + run_outcome(
                                rvs,
                                fvs,
                                tvs,
                                i as int,
                            ).warnings.push(w@));
                        }
                    },
                }
                proof {
                    let prev = run_outcome(rvs, fvs, tvs, i as int);
                    let outcome = run_outcome(rvs, fvs, tvs, i + 1);
                    if texts@[i as int] is Ok {
                        let scanned = scan_violations(
                            fvs[i as int].ns,
                            fvs[i as int].path,
                            tvs[i as int]->Ok_0,
                            rvs[k as int].forbidden,
                        );
                        assert(outcome.violations == prev.violations + scanned);
                        assert(violation_views(report.violations@) =~= violation_views(
                            old(report).violations@,
                        ) + outcome.violations);
                        assert(warning_views(report.warnings@) =~= warning_views(
                            old(report).warnings@,
                        ) + outcome.warnings);
                    } else {
                        assert(outcome.warnings == prev.warnings.push(
                            tvs[i as int]->Err_0,
                        ));
                        assert(warning_views(report.warnings@) =~= warning_views(
                            old(report).warnings@,
                        ) + outcome.warnings);
                        assert(violation_views(report.violations@) =~= violation_views(
                            old(report).violations@,
                        ) + outcome.violations);
                    }
                }
            },
            None => {
                proof {
                    assert(run_outcome(rvs, fvs, tvs, i + 1) == run_outcome(
                        rvs,
                        fvs,
                        tvs,
                        i as int,
                    ));
                }
            },
        }
        i += 1;
    }
}

} // verus!
