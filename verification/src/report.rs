//! What a run has come to.
use vstd::prelude::*;

use crate::debug;
use crate::debug::action_block;
use crate::issue::{copy_opt, ActionModel, BuildAction, BuildIssue, IssueModel};
use crate::issue;
use crate::llm::{SuggestionModel, TextSuggestion};
use crate::pieces;
use crate::pieces::{copy_texts, decimal_of};
use crate::text;
use crate::text::cat2;

verus! {

#[derive(Debug, Clone, Copy, PartialEq, Eq, Structural)]
pub enum Status {
    BuildSuccess,
    NeedHuman,
    Failed,
    DryRunComplete,
}

/// The name of a status.
pub open spec fn status_text(status: Status) -> Seq<char> {
    match status {
        Status::BuildSuccess => "BuildSuccess"@,
        Status::NeedHuman => "NeedHuman"@,
        Status::Failed => "Failed"@,
        Status::DryRunComplete => "DryRunComplete"@,
    }
}

pub fn status_name(status: Status) -> (r: String)
    ensures
        r@ == status_text(status),
{
    match status {
        Status::BuildSuccess => "BuildSuccess".to_owned(),
        Status::NeedHuman => "NeedHuman".to_owned(),
        Status::Failed => "Failed".to_owned(),
        Status::DryRunComplete => "DryRunComplete".to_owned(),
    }
}

/// A change of the spec, and what called for it.
#[derive(Debug, Clone)]
pub struct AppliedFix {
    pub action: BuildAction,
    pub diff: String,
}

/// The model of an [`AppliedFix`].
#[verifier::ext_equal]
pub struct FixModel {
    pub action: ActionModel,
    pub diff: Seq<char>,
}

impl View for AppliedFix {
    type V = FixModel;

    open spec fn view(&self) -> FixModel {
        FixModel { action: self.action@, diff: self.diff@ }
    }
}

pub open spec fn fix_models(fixes: Seq<AppliedFix>) -> Seq<FixModel> {
    Seq::new(fixes.len(), |i: int| fixes[i]@)
}

#[derive(Debug, Clone)]
pub struct Report {
    pub status: Status,
    pub package_name: Option<String>,
    pub spec_path: Option<String>,
    pub build_attempts: usize,
    pub fixes_applied: usize,
    pub last_log_path: Option<String>,
    pub operation_log_path: Option<String>,
    pub final_issue: Option<BuildIssue>,
    pub final_action: Option<BuildAction>,
    pub llm_text_suggestion: Option<TextSuggestion>,
    pub applied_fixes: Vec<AppliedFix>,
    pub notes: Vec<String>,
}

/// The model of a [`Report`].
#[verifier::ext_equal]
pub struct ReportModel {
    pub status: Status,
    pub package_name: Option<Seq<char>>,
    pub spec_path: Option<Seq<char>>,
    pub build_attempts: usize,
    pub fixes_applied: usize,
    pub last_log_path: Option<Seq<char>>,
    pub operation_log_path: Option<Seq<char>>,
    pub final_issue: Option<IssueModel>,
    pub final_action: Option<ActionModel>,
    pub llm_text_suggestion: Option<SuggestionModel>,
    pub applied_fixes: Seq<FixModel>,
    pub notes: Seq<Seq<char>>,
}

pub open spec fn opt_action(o: Option<BuildAction>) -> Option<ActionModel> {
    match o {
        Some(action) => Some(action@),
        None => None,
    }
}

pub open spec fn opt_suggestion(o: Option<TextSuggestion>) -> Option<SuggestionModel> {
    match o {
        Some(suggestion) => Some(suggestion@),
        None => None,
    }
}

impl View for Report {
    type V = ReportModel;

    open spec fn view(&self) -> ReportModel {
        ReportModel {
            status: self.status,
            package_name: text::opt_text(self.package_name),
            spec_path: text::opt_text(self.spec_path),
            build_attempts: self.build_attempts,
            fixes_applied: self.fixes_applied,
            last_log_path: text::opt_text(self.last_log_path),
            operation_log_path: text::opt_text(self.operation_log_path),
            final_issue: issue::opt_issue(self.final_issue),
            final_action: opt_action(self.final_action),
            llm_text_suggestion: opt_suggestion(self.llm_text_suggestion),
            applied_fixes: fix_models(self.applied_fixes@),
            notes: text::texts(self.notes@),
        }
    }
}

/// A report of which nothing but the status is known.
pub open spec fn empty_report(status: Status) -> ReportModel {
    ReportModel {
        status,
        package_name: None,
        spec_path: None,
        build_attempts: 0,
        fixes_applied: 0,
        last_log_path: None,
        operation_log_path: None,
        final_issue: None,
        final_action: None,
        llm_text_suggestion: None,
        applied_fixes: seq![],
        notes: seq![],
    }
}

/// `report` with one more note.
pub open spec fn noted(report: ReportModel, note: Seq<char>) -> ReportModel {
    ReportModel { notes: report.notes.push(note), ..report }
}

impl Report {
    pub fn new(status: Status) -> (r: Self)
        ensures
            r@ == empty_report(status),
    {
        let r = Report {
            status,
            package_name: None,
            spec_path: None,
            build_attempts: 0,
            fixes_applied: 0,
            last_log_path: None,
            operation_log_path: None,
            final_issue: None,
            final_action: None,
            llm_text_suggestion: None,
            applied_fixes: Vec::new(),
            notes: Vec::new(),
        };
        assert(r@.applied_fixes =~= seq![]);
        assert(r@.notes =~= seq![]);
        r
    }

    pub fn add_note(&mut self, note: String)
        ensures
            final(self)@ == noted(old(self)@, note@),
    {
        self.notes.push(note);
        assert(self@.notes =~= old(self)@.notes.push(note@));
    }

    pub fn add_fix(&mut self, fix: AppliedFix)
        ensures
            final(self)@ == (ReportModel {
                applied_fixes: old(self)@.applied_fixes.push(fix@),
                ..old(self)@
            }),
    {
        self.applied_fixes.push(fix);
        assert(self@.applied_fixes =~= old(self)@.applied_fixes.push(fix@));
    }

    /// A second report like this one.
    pub fn duplicate(&self) -> (r: Self)
        ensures
            r@ == self@,
    {
        let mut fixes: Vec<AppliedFix> = Vec::new();
        let mut i: usize = 0;
        while i < self.applied_fixes.len()
            invariant
                i <= self.applied_fixes@.len(),
                fixes@.len() == i,
                forall|k: int| 0 <= k < i ==> (#[trigger] fixes@[k])@ == self.applied_fixes@[k]@,
            decreases self.applied_fixes@.len() - i,
        {
            let fix = &self.applied_fixes[i];
            fixes.push(AppliedFix { action: fix.action.duplicate(), diff: fix.diff.clone() });
            i += 1;
        }
        let r = Report {
            status: self.status,
            package_name: copy_opt(&self.package_name),
            spec_path: copy_opt(&self.spec_path),
            build_attempts: self.build_attempts,
            fixes_applied: self.fixes_applied,
            last_log_path: copy_opt(&self.last_log_path),
            operation_log_path: copy_opt(&self.operation_log_path),
            final_issue: match &self.final_issue {
                Some(issue) => Some(issue.duplicate()),
                None => None,
            },
            final_action: match &self.final_action {
                Some(action) => Some(action.duplicate()),
                None => None,
            },
            llm_text_suggestion: match &self.llm_text_suggestion {
                Some(suggestion) => Some(suggestion.duplicate()),
                None => None,
            },
            applied_fixes: fixes,
            notes: copy_texts(&self.notes),
        };
        assert(r@.applied_fixes =~= self@.applied_fixes);
        r
    }
}

/// `line` behind `label` where there is a value.
pub open spec fn labelled(label: Seq<char>, value: Option<Seq<char>>) -> Seq<Seq<char>> {
    match value {
        Some(v) => seq![label + v],
        None => seq![],
    }
}

/// The lines in which a report is shown, the final action over several lines of one text.
pub open spec fn report_text(report: ReportModel) -> Seq<Seq<char>> {
    labelled("package: "@, report.package_name) + seq!["status: "@ + status_text(report.status)]
        + labelled("spec: "@, report.spec_path) + seq![
        "build_attempts: "@ + pieces::decimal(report.build_attempts as nat),
        "fixes_applied: "@ + pieces::decimal(report.fixes_applied as nat),
    ] + labelled("last_log: "@, report.last_log_path) + labelled(
        "operations_log: "@,
        report.operation_log_path,
    ) + labelled(
        "final_action: "@,
        match report.final_action {
            Some(action) => Some(debug::action_text(action, Some(""@))),
            None => None,
        },
    ) + pieces::prefix_each("note: "@, report.notes)
}

/// Puts `s` at the end of `v`.
pub fn push_line(v: &mut Vec<String>, s: String)
    ensures
        text::texts(final(v)@) == text::texts(old(v)@).push(s@),
{
    v.push(s);
    assert(text::texts(v@) =~= text::texts(old(v)@).push(s@));
}

fn push_labelled(v: &mut Vec<String>, label: &str, value: &Option<String>)
    ensures
        text::texts(final(v)@) == text::texts(old(v)@) + labelled(label@, text::opt_text(*value)),
{
    match value {
        Some(s) => {
            push_line(v, cat2(label, s.as_str()));
            assert(text::texts(v@) =~= text::texts(old(v)@) + seq![label@ + s@]);
        },
        None => {
            assert(text::texts(v@) =~= text::texts(old(v)@) + seq![]);
        },
    }
}

/// Puts each of `items`, behind `prefix`, at the end of `v`.
pub fn push_prefixed(v: &mut Vec<String>, prefix: &str, items: &[String])
    ensures
        text::texts(final(v)@) == text::texts(old(v)@) + pieces::prefix_each(
            prefix@,
            text::texts(items@),
        ),
{
    let ghost start = text::texts(v@);
    let ghost all = pieces::prefix_each(prefix@, text::texts(items@));
    let mut i: usize = 0;
    assert(start =~= start + all.take(0));
    while i < items.len()
        invariant
            i <= items@.len(),
            all == pieces::prefix_each(prefix@, text::texts(items@)),
            text::texts(v@) == start + all.take(i as int),
        decreases items@.len() - i,
    {
        push_line(v, cat2(prefix, items[i].as_str()));
        i += 1;
        assert(start + all.take(i as int) =~= (start + all.take(i - 1)).push(all[i - 1]));
    }
    assert(all.take(all.len() as int) =~= all);
}

/// What `print_report` prints, line by line.
pub fn report_lines(report: &Report) -> (r: Vec<String>)
    ensures
        text::texts(r@) == report_text(report@),
{
    let mut v: Vec<String> = Vec::new();
    push_labelled(&mut v, "package: ", &report.package_name);
    push_line(&mut v, cat2("status: ", status_name(report.status).as_str()));
    push_labelled(&mut v, "spec: ", &report.spec_path);
    push_line(&mut v, cat2("build_attempts: ", decimal_of(report.build_attempts as u64).as_str()));
    push_line(&mut v, cat2("fixes_applied: ", decimal_of(report.fixes_applied as u64).as_str()));
    push_labelled(&mut v, "last_log: ", &report.last_log_path);
    push_labelled(&mut v, "operations_log: ", &report.operation_log_path);
    if let Some(action) = &report.final_action {
        push_line(&mut v, cat2("final_action: ", action_block(action).as_str()));
    }
    push_prefixed(&mut v, "note: ", &report.notes);
    assert(text::texts(v@) =~= report_text(report@));
    v
}

pub open spec fn report_models(reports: Seq<Report>) -> Seq<ReportModel> {
    Seq::new(reports.len(), |i: int| reports[i]@)
}

/// The lines in which several reports are shown, with an empty line between each two.
pub open spec fn reports_text(reports: Seq<ReportModel>) -> Seq<Seq<char>>
    decreases reports.len(),
{
    if reports.len() == 0 {
        seq![]
    } else if reports.len() == 1 {
        report_text(reports[0])
    } else {
        reports_text(reports.drop_last()).push(""@) + report_text(reports.last())
    }
}

/// What `print_reports` prints, line by line.
pub fn reports_lines(reports: &[Report]) -> (r: Vec<String>)
    ensures
        text::texts(r@) == reports_text(report_models(reports@)),
{
    let ghost all = report_models(reports@);
    let mut v: Vec<String> = Vec::new();
    let mut i: usize = 0;
    assert(text::texts(v@) =~= reports_text(all.take(0)));
    while i < reports.len()
        invariant
            i <= reports@.len(),
            all == report_models(reports@),
            text::texts(v@) == reports_text(all.take(i as int)),
        decreases reports@.len() - i,
    {
        if i > 0 {
            push_line(&mut v, "".to_owned());
        }
        let ghost before = text::texts(v@);
        let lines = report_lines(&reports[i]);
        let mut k: usize = 0;
        assert(before =~= before + text::texts(lines@).take(0));
        while k < lines.len()
            invariant
                k <= lines@.len(),
                text::texts(v@) == before + text::texts(lines@).take(k as int),
            decreases lines@.len() - k,
        {
            push_line(&mut v, lines[k].clone());
            k += 1;
            assert(text::texts(v@) =~= before + text::texts(lines@).take(k as int));
        }
        assert(text::texts(lines@).take(k as int) =~= text::texts(lines@));
        i += 1;
        assert(all.take(i as int).drop_last() =~= all.take(i - 1));
        assert(text::texts(v@) =~= reports_text(all.take(i as int)));
    }
    assert(all.take(all.len() as int) =~= all);
    v
}

} // verus!
