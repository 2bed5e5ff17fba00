//! Issues and actions as text, on one line or over several.
use vstd::prelude::*;

use crate::issue::{ActionModel, BuildAction, BuildIssue, IssueModel};
use crate::outside;
use crate::outside::debug_form;
use crate::pieces;
use crate::pieces::joined;
use crate::report::push_line;
use crate::text;
use crate::text::{cat2, cat3};

verus! {

/// What opens a value: `bracket` alone, or, at the indentation `pad`, a line of its own.
pub open spec fn opening(bracket: Seq<char>, gap: Seq<char>, pad: Option<Seq<char>>) -> Seq<char> {
    match pad {
        None => bracket + gap,
        Some(p) => bracket + "\n"@ + p + "    "@,
    }
}

pub open spec fn between(pad: Option<Seq<char>>) -> Seq<char> {
    match pad {
        None => ", "@,
        Some(p) => ",\n"@ + p + "    "@,
    }
}

pub open spec fn closing(bracket: Seq<char>, gap: Seq<char>, pad: Option<Seq<char>>) -> Seq<char> {
    match pad {
        None => gap + bracket,
        Some(p) => ",\n"@ + p + bracket,
    }
}

/// The indentation inside a value that stands at `pad`.
pub open spec fn inner(pad: Option<Seq<char>>) -> Option<Seq<char>> {
    match pad {
        None => None,
        Some(p) => Some(p + "    "@),
    }
}

fn opening_of(bracket: &str, gap: &str, pad: &Option<String>) -> (r: String)
    ensures
        r@ == opening(bracket@, gap@, text::opt_text(*pad)),
{
    match pad {
        None => cat2(bracket, gap),
        Some(p) => cat2(cat3(bracket, "\n", p.as_str()).as_str(), "    "),
    }
}

fn between_of(pad: &Option<String>) -> (r: String)
    ensures
        r@ == between(text::opt_text(*pad)),
{
    match pad {
        None => ", ".to_owned(),
        Some(p) => cat3(",\n", p.as_str(), "    "),
    }
}

fn closing_of(bracket: &str, gap: &str, pad: &Option<String>) -> (r: String)
    ensures
        r@ == closing(bracket@, gap@, text::opt_text(*pad)),
{
    match pad {
        None => cat2(gap, bracket),
        Some(p) => cat3(",\n", p.as_str(), bracket),
    }
}

fn inner_of(pad: &Option<String>) -> (r: Option<String>)
    ensures
        text::opt_text(r) == inner(text::opt_text(*pad)),
{
    match pad {
        None => None,
        Some(p) => Some(cat2(p.as_str(), "    ")),
    }
}

pub open spec fn quote_each(v: Seq<Seq<char>>) -> Seq<Seq<char>> {
    Seq::new(v.len(), |i: int| outside::quoted(v[i]))
}

/// A list of texts.
pub open spec fn list_text(v: Seq<Seq<char>>, pad: Option<Seq<char>>) -> Seq<char> {
    if v.len() == 0 {
        "[]"@
    } else {
        opening("["@, ""@, pad) + pieces::join(quote_each(v), between(pad)) + closing(
            "]"@,
            ""@,
            pad,
        )
    }
}

pub fn list_of(v: &[String], pad: &Option<String>) -> (r: String)
    ensures
        r@ == list_text(text::texts(v@), text::opt_text(*pad)),
{
    if v.len() == 0 {
        return "[]".to_owned();
    }
    let mut quoted: Vec<String> = Vec::new();
    let mut i: usize = 0;
    let ghost all = quote_each(text::texts(v@));
    assert(text::texts(quoted@) =~= all.take(0));
    while i < v.len()
        invariant
            i <= v@.len(),
            all == quote_each(text::texts(v@)),
            text::texts(quoted@) == all.take(i as int),
        decreases v@.len() - i,
    {
        push_line(&mut quoted, debug_form(v[i].as_str()));
        i += 1;
        assert(all.take(i as int) =~= all.take(i - 1).push(all[i - 1]));
    }
    assert(all.take(all.len() as int) =~= all);
    cat3(
        opening_of("[", "", pad).as_str(),
        joined(&quoted, between_of(pad).as_str()).as_str(),
        closing_of("]", "", pad).as_str(),
    )
}

/// An optional text.
pub open spec fn option_text(o: Option<Seq<char>>, pad: Option<Seq<char>>) -> Seq<char> {
    match o {
        None => "None"@,
        Some(s) => opening("Some("@, ""@, pad) + outside::quoted(s) + closing(")"@, ""@, pad),
    }
}

fn option_of(o: &Option<String>, pad: &Option<String>) -> (r: String)
    ensures
        r@ == option_text(text::opt_text(*o), text::opt_text(*pad)),
{
    match o {
        None => "None".to_owned(),
        Some(s) => cat3(
            opening_of("Some(", "", pad).as_str(),
            debug_form(s.as_str()).as_str(),
            closing_of(")", "", pad).as_str(),
        ),
    }
}

pub open spec fn field_text(key: Seq<char>, value: Seq<char>) -> Seq<char> {
    key + ": "@ + value
}

/// A value with named fields.
pub open spec fn fields_text(
    name: Seq<char>,
    fields: Seq<Seq<char>>,
    pad: Option<Seq<char>>,
) -> Seq<char> {
    name + opening(" {"@, " "@, pad) + pieces::join(fields, between(pad)) + closing(
        "}"@,
        " "@,
        pad,
    )
}

fn fields_of(name: &str, fields: &[String], pad: &Option<String>) -> (r: String)
    ensures
        r@ == fields_text(name@, text::texts(fields@), text::opt_text(*pad)),
{
    let mut out = name.to_owned();
    out.append(opening_of(" {", " ", pad).as_str());
    out.append(joined(fields, between_of(pad).as_str()).as_str());
    out.append(closing_of("}", " ", pad).as_str());
    out
}

/// A field that holds a list.
pub open spec fn list_field(key: Seq<char>, v: Seq<Seq<char>>, pad: Option<Seq<char>>) -> Seq<
    char,
> {
    field_text(key, list_text(v, inner(pad)))
}

/// A field that holds a text.
pub open spec fn text_field(key: Seq<char>, s: Seq<char>) -> Seq<char> {
    field_text(key, outside::quoted(s))
}

fn list_field_of(key: &str, v: &[String], pad: &Option<String>) -> (r: String)
    ensures
        r@ == list_field(key@, text::texts(v@), text::opt_text(*pad)),
{
    cat3(key, ": ", list_of(v, &inner_of(pad)).as_str())
}

fn text_field_of(key: &str, s: &str) -> (r: String)
    ensures
        r@ == text_field(key@, s@),
{
    cat3(key, ": ", debug_form(s).as_str())
}

fn fields1(name: &str, a: String, pad: &Option<String>) -> (r: String)
    ensures
        r@ == fields_text(name@, seq![a@], text::opt_text(*pad)),
{
    let mut v: Vec<String> = Vec::new();
    push_line(&mut v, a);
    assert(text::texts(v@) =~= seq![a@]);
    fields_of(name, &v, pad)
}

fn fields2(name: &str, a: String, b: String, pad: &Option<String>) -> (r: String)
    ensures
        r@ == fields_text(name@, seq![a@, b@], text::opt_text(*pad)),
{
    let mut v: Vec<String> = Vec::new();
    push_line(&mut v, a);
    push_line(&mut v, b);
    assert(text::texts(v@) =~= seq![a@, b@]);
    fields_of(name, &v, pad)
}

/// An issue, at an indentation, or on one line where there is none.
pub open spec fn issue_text(issue: IssueModel, pad: Option<Seq<char>>) -> Seq<char> {
    match issue {
        IssueModel::MissingBuildDependencies { deps } => fields_text(
            "MissingBuildDependencies"@,
            seq![list_field("deps"@, deps, pad)],
            pad,
        ),
        IssueModel::DependencyUnresolvable { deps } => fields_text(
            "DependencyUnresolvable"@,
            seq![list_field("deps"@, deps, pad)],
            pad,
        ),
        IssueModel::MissingPythonModule { module, import_context } => fields_text(
            "MissingPythonModule"@,
            seq![
                text_field("module"@, module),
                field_text("import_context"@, option_text(import_context, inner(pad))),
            ],
            pad,
        ),
        IssueModel::ImportCheckExclusions { modules, missing_modules, exclusions } => fields_text(
            "ImportCheckExclusions"@,
            seq![
                list_field("modules"@, modules, pad),
                list_field("missing_modules"@, missing_modules, pad),
                list_field("exclusions"@, exclusions, pad),
            ],
            pad,
        ),
        IssueModel::EmptyImportCheck => "EmptyImportCheck"@,
        IssueModel::InstalledButUnpackagedFiles { files } => fields_text(
            "InstalledButUnpackagedFiles"@,
            seq![list_field("files"@, files, pad)],
            pad,
        ),
        IssueModel::ArchDependentInNoarch => "ArchDependentInNoarch"@,
        IssueModel::MissingPep639LicenseMetadata => "MissingPep639LicenseMetadata"@,
        IssueModel::InstallModuleMismatch { wrong_module, suggested_module } => fields_text(
            "InstallModuleMismatch"@,
            seq![
                text_field("wrong_module"@, wrong_module),
                text_field("suggested_module"@, suggested_module),
            ],
            pad,
        ),
        IssueModel::PyprojectBackendMissing { deps } => fields_text(
            "PyprojectBackendMissing"@,
            seq![list_field("deps"@, deps, pad)],
            pad,
        ),
        IssueModel::CExtensionCompileError { important_lines } => fields_text(
            "CExtensionCompileError"@,
            seq![list_field("important_lines"@, important_lines, pad)],
            pad,
        ),
        IssueModel::TestFailure { important_lines } => fields_text(
            "TestFailure"@,
            seq![list_field("important_lines"@, important_lines, pad)],
            pad,
        ),
        IssueModel::PatchApplyError { important_lines } => fields_text(
            "PatchApplyError"@,
            seq![list_field("important_lines"@, important_lines, pad)],
            pad,
        ),
        IssueModel::Unknown { important_lines } => fields_text(
            "Unknown"@,
            seq![list_field("important_lines"@, important_lines, pad)],
            pad,
        ),
    }
}

fn issue_at(issue: &BuildIssue, pad: &Option<String>) -> (r: String)
    ensures
        r@ == issue_text(issue@, text::opt_text(*pad)),
{
    match issue {
        BuildIssue::MissingBuildDependencies { deps } => fields1(
            "MissingBuildDependencies",
            list_field_of("deps", deps, pad),
            pad,
        ),
        BuildIssue::DependencyUnresolvable { deps } => fields1(
            "DependencyUnresolvable",
            list_field_of("deps", deps, pad),
            pad,
        ),
        BuildIssue::MissingPythonModule { module, import_context } => fields2(
            "MissingPythonModule",
            text_field_of("module", module.as_str()),
            cat3("import_context", ": ", option_of(import_context, &inner_of(pad)).as_str()),
            pad,
        ),
        BuildIssue::ImportCheckExclusions { modules, missing_modules, exclusions } => {
            let mut v: Vec<String> = Vec::new();
            push_line(&mut v, list_field_of("modules", modules, pad));
            push_line(&mut v, list_field_of("missing_modules", missing_modules, pad));
            push_line(&mut v, list_field_of("exclusions", exclusions, pad));
            let ghost p = text::opt_text(*pad);
            assert(text::texts(v@) =~= seq![
                list_field("modules"@, text::texts(modules@), p),
                list_field("missing_modules"@, text::texts(missing_modules@), p),
                list_field("exclusions"@, text::texts(exclusions@), p),
            ]);
            fields_of("ImportCheckExclusions", &v, pad)
        },
        BuildIssue::EmptyImportCheck => "EmptyImportCheck".to_owned(),
        BuildIssue::InstalledButUnpackagedFiles { files } => fields1(
            "InstalledButUnpackagedFiles",
            list_field_of("files", files, pad),
            pad,
        ),
        BuildIssue::ArchDependentInNoarch => "ArchDependentInNoarch".to_owned(),
        BuildIssue::MissingPep639LicenseMetadata => "MissingPep639LicenseMetadata".to_owned(),
        BuildIssue::InstallModuleMismatch { wrong_module, suggested_module } => fields2(
            "InstallModuleMismatch",
            text_field_of("wrong_module", wrong_module.as_str()),
            text_field_of("suggested_module", suggested_module.as_str()),
            pad,
        ),
        BuildIssue::PyprojectBackendMissing { deps } => fields1(
            "PyprojectBackendMissing",
            list_field_of("deps", deps, pad),
            pad,
        ),
        BuildIssue::CExtensionCompileError { important_lines } => fields1(
            "CExtensionCompileError",
            list_field_of("important_lines", important_lines, pad),
            pad,
        ),
        BuildIssue::TestFailure { important_lines } => fields1(
            "TestFailure",
            list_field_of("important_lines", important_lines, pad),
            pad,
        ),
        BuildIssue::PatchApplyError { important_lines } => fields1(
            "PatchApplyError",
            list_field_of("important_lines", important_lines, pad),
            pad,
        ),
        BuildIssue::Unknown { important_lines } => fields1(
            "Unknown",
            list_field_of("important_lines", important_lines, pad),
            pad,
        ),
    }
}

/// An action, at an indentation, or on one line where there is none.
pub open spec fn action_text(action: ActionModel, pad: Option<Seq<char>>) -> Seq<char> {
    match action {
        ActionModel::AddBuildRequires { deps, reason } => fields_text(
            "AddBuildRequires"@,
            seq![list_field("deps"@, deps, pad), text_field("reason"@, reason)],
            pad,
        ),
        ActionModel::AddBuildOptionCheckExcludes { patterns, reason } => fields_text(
            "AddBuildOptionCheckExcludes"@,
            seq![list_field("patterns"@, patterns, pad), text_field("reason"@, reason)],
            pad,
        ),
        ActionModel::AddEmptyCheckSection { comment, reason } => fields_text(
            "AddEmptyCheckSection"@,
            seq![text_field("comment"@, comment), text_field("reason"@, reason)],
            pad,
        ),
        ActionModel::FixBuildOptionInstall { arg, reason } => fields_text(
            "FixBuildOptionInstall"@,
            seq![text_field("arg"@, arg), text_field("reason"@, reason)],
            pad,
        ),
        ActionModel::AppendFilesEntries { files, reason } => fields_text(
            "AppendFilesEntries"@,
            seq![list_field("files"@, files, pad), text_field("reason"@, reason)],
            pad,
        ),
        ActionModel::RemoveNoarch { reason } => fields_text(
            "RemoveNoarch"@,
            seq![text_field("reason"@, reason)],
            pad,
        ),
        ActionModel::NeedHuman { reason, issue } => fields_text(
            "NeedHuman"@,
            seq![
                text_field("reason"@, reason),
                field_text("issue"@, issue_text(issue, inner(pad))),
            ],
            pad,
        ),
        ActionModel::NoOp { reason } => fields_text(
            "NoOp"@,
            seq![text_field("reason"@, reason)],
            pad,
        ),
    }
}

fn action_at(action: &BuildAction, pad: &Option<String>) -> (r: String)
    ensures
        r@ == action_text(action@, text::opt_text(*pad)),
{
    match action {
        BuildAction::AddBuildRequires { deps, reason } => fields2(
            "AddBuildRequires",
            list_field_of("deps", deps, pad),
            text_field_of("reason", reason.as_str()),
            pad,
        ),
        BuildAction::AddBuildOptionCheckExcludes { patterns, reason } => fields2(
            "AddBuildOptionCheckExcludes",
            list_field_of("patterns", patterns, pad),
            text_field_of("reason", reason.as_str()),
            pad,
        ),
        BuildAction::AddEmptyCheckSection { comment, reason } => fields2(
            "AddEmptyCheckSection",
            text_field_of("comment", comment.as_str()),
            text_field_of("reason", reason.as_str()),
            pad,
        ),
        BuildAction::FixBuildOptionInstall { arg, reason } => fields2(
            "FixBuildOptionInstall",
            text_field_of("arg", arg.as_str()),
            text_field_of("reason", reason.as_str()),
            pad,
        ),
        BuildAction::AppendFilesEntries { files, reason } => fields2(
            "AppendFilesEntries",
            list_field_of("files", files, pad),
            text_field_of("reason", reason.as_str()),
            pad,
        ),
        BuildAction::RemoveNoarch { reason } => fields1(
            "RemoveNoarch",
            text_field_of("reason", reason.as_str()),
            pad,
        ),
        BuildAction::NeedHuman { reason, issue } => fields2(
            "NeedHuman",
            text_field_of("reason", reason.as_str()),
            cat3("issue", ": ", issue_at(issue, &inner_of(pad)).as_str()),
            pad,
        ),
        BuildAction::NoOp { reason } => fields1(
            "NoOp",
            text_field_of("reason", reason.as_str()),
            pad,
        ),
    }
}

/// A value with one field that is a text, and perhaps another that is an optional text, on one
/// line.
pub fn record_line(name: &str, key: &str, value: &str) -> (r: String)
    ensures
        r@ == fields_text(name@, seq![text_field(key@, value@)], None),
{
    fields1(name, text_field_of(key, value), &None)
}

pub fn record_line_with(
    name: &str,
    key: &str,
    value: &str,
    option_key: &str,
    option: &Option<String>,
) -> (r: String)
    ensures
        r@ == fields_text(
            name@,
            seq![
                text_field(key@, value@),
                field_text(option_key@, option_text(text::opt_text(*option), None)),
            ],
            None,
        ),
{
    let second = cat3(option_key, ": ", option_of(option, &None).as_str());
    fields2(name, text_field_of(key, value), second, &None)
}

/// An issue on one line.
pub fn issue_line(issue: &BuildIssue) -> (r: String)
    ensures
        r@ == issue_text(issue@, None),
{
    issue_at(issue, &None)
}

/// An action on one line.
pub fn action_line(action: &BuildAction) -> (r: String)
    ensures
        r@ == action_text(action@, None),
{
    action_at(action, &None)
}

/// An issue over several lines.
pub fn issue_block(issue: &BuildIssue) -> (r: String)
    ensures
        r@ == issue_text(issue@, Some(""@)),
{
    issue_at(issue, &Some("".to_owned()))
}

/// An action over several lines.
pub fn action_block(action: &BuildAction) -> (r: String)
    ensures
        r@ == action_text(action@, Some(""@)),
{
    action_at(action, &Some("".to_owned()))
}

} // verus!
