//! The aggregate report of one run: violations, warnings and counters.

use vstd::prelude::*;

use crate::scan::Violation;
use crate::source::ClojureSourceFile;

verus! {

/// Everything one run reports: the violations found, the warnings raised,
/// and the counters of files seen, rules matched and files skipped. Built
/// once per run; the exit status is a pure function of whether any
/// violation exists.
#[derive(Debug)]
pub struct Report {
    /// Every violation found, in unit order and then occurrence order.
    pub violations: Vec<Violation>,
    /// Warnings raised while discovering and reading files.
    pub warnings: Vec<String>,
    /// How many candidate files the corpus holds.
    pub files_checked: usize,
    /// How many units matched some rule's guard.
    pub rules_matched: usize,
    /// How many files were skipped, at discovery or because they could not
    /// be read.
    pub files_skipped: usize,
}

impl Report {
    /// An empty report: no violations, no warnings, all counters zero.
    pub fn new() -> (r: Report)
        ensures
            r.violations@ =~= Seq::<Violation>::empty(),
            r.warnings@ =~= Seq::<String>::empty(),
            r.files_checked == 0,
            r.rules_matched == 0,
            r.files_skipped == 0,
    {
        Report {
            violations: Vec::new(),
            warnings: Vec::new(),
            files_checked: 0,
            rules_matched: 0,
            files_skipped: 0,
        }
    }

    /// Records how many candidate files the corpus holds.
    pub fn candidate_files(&mut self, files: &Vec<ClojureSourceFile>)
        ensures
            final(self).files_checked == files@.len(),
            final(self).violations@ == old(self).violations@,
            final(self).warnings@ == old(self).warnings@,
            final(self).rules_matched == old(self).rules_matched,
            final(self).files_skipped == old(self).files_skipped,
    {
        self.files_checked = files.len();
    }

    /// Records one skipped file: the warning is kept and the skip counted.
    pub fn file_skipped(&mut self, warning: String)
        requires
            old(self).files_skipped < usize::MAX,
        ensures
            final(self).warnings@ == old(self).warnings@.push(warning),
            final(self).files_skipped == old(self).files_skipped + 1,
            final(self).violations@ == old(self).violations@,
            final(self).files_checked == old(self).files_checked,
            final(self).rules_matched == old(self).rules_matched,
    {
        self.warnings.push(warning);
        self.files_skipped = self.files_skipped + 1;
    }

    /// Appends one violation.
    pub fn violation(&mut self, violation: Violation)
        ensures
            final(self).violations@ == old(self).violations@.push(violation),
            final(self).warnings@ == old(self).warnings@,
            final(self).files_checked == old(self).files_checked,
            final(self).rules_matched == old(self).rules_matched,
            final(self).files_skipped == old(self).files_skipped,
    {
        self.violations.push(violation);
    }

    /// Counts one unit whose namespace matched a rule's guard.
    pub fn rule_matched(&mut self)
        requires
            old(self).rules_matched < usize::MAX,
        ensures
            final(self).rules_matched == old(self).rules_matched + 1,
            final(self).violations@ == old(self).violations@,
            final(self).warnings@ == old(self).warnings@,
            final(self).files_checked == old(self).files_checked,
            final(self).files_skipped == old(self).files_skipped,
    {
        self.rules_matched = self.rules_matched + 1;
    }

    /// Records a warning that skips no file.
    pub fn warn(&mut self, warning: String)
        ensures
            final(self).warnings@ == old(self).warnings@.push(warning),
            final(self).violations@ == old(self).violations@,
            final(self).files_checked == old(self).files_checked,
            final(self).rules_matched == old(self).rules_matched,
            final(self).files_skipped == old(self).files_skipped,
    {
        self.warnings.push(warning);
    }

    /// The process exit status the report calls for: zero exactly when no
    /// violation was found, one otherwise.
    pub fn exit_status(&self) -> (r: i32)
        ensures
            r == 0 <==> self.violations@.len() == 0,
            r == 0 || r == 1,
    {
        if self.violations.is_empty() {
            0
        } else {
            1
        }
    }
}

} // verus!
