//! Talking to the Open Build Service: requests, documents, and the steps of a submission.
use vstd::prelude::*;

use crate::outside;
use crate::outside::form_urlencode;
use crate::pieces;
use crate::pieces::{decimal_of, joined, lines_of};
use crate::report::push_line;
use crate::text;
use crate::text::{cat2, cat3, cat4, cat5, chars_of, is_empty, trimmed, without_prefix};

verus! {

/// A character as it stands in an XML document.
pub open spec fn xml_char(c: char) -> Seq<char> {
    if c == '&' {
        "&amp;"@
    } else if c == '<' {
        "&lt;"@
    } else if c == '>' {
        "&gt;"@
    } else if c == '"' {
        "&quot;"@
    } else if c == '\'' {
        "&apos;"@
    } else {
        seq![c]
    }
}

/// A text as it stands in an XML document.
pub open spec fn xml_text(s: Seq<char>) -> Seq<char>
    decreases s.len(),
{
    if s.len() == 0 {
        seq![]
    } else {
        xml_text(s.drop_last()) + xml_char(s.last())
    }
}

pub fn xml_escape(s: &str) -> (r: String)
    ensures
        r@ == xml_text(s@),
{
    let v = chars_of(s);
    let mut out = String::new();
    let mut i: usize = 0;
    while i < v.len()
        invariant
            i <= v@.len(),
            v@ == s@,
            out@ == xml_text(v@.take(i as int)),
        decreases v@.len() - i,
    {
        let c = v[i];
        assert(v@.take(i + 1).drop_last() =~= v@.take(i as int));
        let ghost before = out@;
        if c == '&' {
            out.append("&amp;");
        } else if c == '<' {
            out.append("&lt;");
        } else if c == '>' {
            out.append("&gt;");
        } else if c == '"' {
            out.append("&quot;");
        } else if c == '\'' {
            out.append("&apos;");
        } else {
            out.push(c);
            assert(out@ =~= before + seq![c]);
        }
        i += 1;
    }
    assert(v@.take(v@.len() as int) =~= v@);
    out
}

/// An escaped text holds no character that would end a text or an attribute of the document.
pub proof fn law_escaped_text_is_inert(s: Seq<char>, i: int)
    requires
        0 <= i < xml_text(s).len(),
    ensures
        xml_text(s)[i] != '<',
        xml_text(s)[i] != '>',
        xml_text(s)[i] != '"',
        xml_text(s)[i] != '\'',
    decreases s.len(),
{
    reveal_strlit("&amp;");
    reveal_strlit("&lt;");
    reveal_strlit("&gt;");
    reveal_strlit("&quot;");
    reveal_strlit("&apos;");
    let before = xml_text(s.drop_last());
    if i < before.len() {
        law_escaped_text_is_inert(s.drop_last(), i);
        assert(xml_text(s)[i] == before[i]);
    } else {
        assert(xml_text(s)[i] == xml_char(s.last())[i - before.len()]);
    }
}

/// The name and password of a user of the service.
#[derive(Debug, Clone)]
pub struct ObsCredentials {
    pub user: String,
    pub pass: String,
}

/// What the first of the lines from `i` on gives that starts with `key`, white space around it
/// aside.
pub open spec fn setting_from(v: Seq<Seq<char>>, key: Seq<char>, i: int) -> Option<Seq<char>>
    decreases v.len() - i,
{
    if i < 0 || i >= v.len() {
        None
    } else {
        match text::strip_prefix(text::trim(v[i]), key) {
            Some(value) => Some(text::trim(value)),
            None => setting_from(v, key, i + 1),
        }
    }
}

fn setting_of(lines: &[String], key: &str) -> (r: Option<String>)
    ensures
        text::opt_text(r) == setting_from(text::texts(lines@), key@, 0),
{
    let mut i: usize = 0;
    while i < lines.len()
        invariant
            i <= lines@.len(),
            setting_from(text::texts(lines@), key@, 0) == setting_from(
                text::texts(lines@),
                key@,
                i as int,
            ),
        decreases lines@.len() - i,
    {
        if let Some(value) = without_prefix(trimmed(lines[i].as_str()).as_str(), key) {
            return Some(trimmed(value.as_str()));
        }
        i += 1;
    }
    None
}

pub open spec fn text_or_empty(o: Option<Seq<char>>) -> Seq<char> {
    match o {
        Some(s) => s,
        None => seq![],
    }
}

/// The credentials in the contents of the configuration file `path`.
pub fn read_osc_credentials(content: &str, path: &str, exists: bool) -> (r: Result<
    ObsCredentials,
    String,
>)
    ensures
        ({
            let v = pieces::lines(content@);
            let user = text_or_empty(setting_from(v, "user="@, 0));
            let pass = text_or_empty(setting_from(v, "pass="@, 0));
            match r {
                Ok(creds) => user.len() > 0 && pass.len() > 0 && creds.user@ == user && creds.pass@
                    == pass,
                Err(message) => (user.len() == 0 || pass.len() == 0) && message@
                    == "could not find user= / pass= in oscrc '"@ + path@ + "' (file exists: "@ + (
                if exists {
                    "true"@
                } else {
                    "false"@
                }) + ")"@,
            }
        }),
{
    let lines = lines_of(content);
    let user = match setting_of(&lines, "user=") {
        Some(value) => value,
        None => String::new(),
    };
    let pass = match setting_of(&lines, "pass=") {
        Some(value) => value,
        None => String::new(),
    };
    if is_empty(user.as_str()) || is_empty(pass.as_str()) {
        let known = if exists {
            "true"
        } else {
            "false"
        };
        return Err(
            cat5(
                "could not find user= / pass= in oscrc '",
                path,
                "' (file exists: ",
                known,
                ")",
            ),
        );
    }
    Ok(ObsCredentials { user, pass })
}

pub open spec fn source_path(project: Seq<char>, package: Seq<char>) -> Seq<char> {
    "/source/"@ + project + "/"@ + package
}

/// Where the sources of a package are.
pub fn package_path(project: &str, package: &str) -> (r: String)
    ensures
        r@ == source_path(project@, package@),
{
    cat4("/source/", project, "/", package)
}

pub fn meta_path(project: &str, package: &str) -> (r: String)
    ensures
        r@ == source_path(project@, package@) + "/_meta"@,
{
    cat2(package_path(project, package).as_str(), "/_meta")
}

pub fn service_path(project: &str, package: &str) -> (r: String)
    ensures
        r@ == source_path(project@, package@) + "/_service"@,
{
    cat2(package_path(project, package).as_str(), "/_service")
}

pub fn rebuild_path(project: &str, package: &str) -> (r: String)
    ensures
        r@ == "/build/"@ + project@ + "?cmd=rebuild&package="@ + package@,
{
    cat4("/build/", project, "?cmd=rebuild&package=", package)
}

pub fn build_log_path(project: &str, repository: &str, arch: &str, package: &str) -> (r: String)
    ensures
        r@ == "/build/"@ + project@ + "/"@ + repository@ + "/"@ + arch@ + "/"@ + package@
            + "/_log"@,
{
    let mut path = cat5("/build/", project, "/", repository, "/");
    path.append(arch);
    path.append("/");
    path.append(package);
    path.append("/_log");
    path
}

/// The request that commits a package, with the comment in form encoding.
pub fn commit_path(project: &str, package: &str, action: &str) -> (r: String)
    ensures
        r@ == source_path(project@, package@) + "?cmd=commit&comment="@ + outside::form_encode(
            vstd::utf8::encode_utf8(action@ + " "@ + package@ + " package"@),
        ),
{
    let comment = cat4(action, " ", package, " package");
    let encoded = form_urlencode(comment.as_str().as_bytes());
    cat3(package_path(project, package).as_str(), "?cmd=commit&comment=", encoded.as_str())
}

/// The document that describes a package.
pub open spec fn meta_document(project: Seq<char>, package: Seq<char>) -> Seq<char> {
    let ep = xml_text(package);
    "<package name=\""@ + ep + "\" project=\""@ + xml_text(project) + "\">\n  <title>"@ + ep
        + "</title>\n  <description>Auto-generated package for "@ + ep
        + "</description>\n</package>"@
}

pub fn package_meta_xml(project: &str, package: &str) -> (r: String)
    ensures
        r@ == meta_document(project@, package@),
{
    let ep = xml_escape(package);
    let ej = xml_escape(project);
    let mut doc = cat5("<package name=\"", ep.as_str(), "\" project=\"", ej.as_str(), "\">\n  <title>");
    doc.append(ep.as_str());
    doc.append("</title>\n  <description>Auto-generated package for ");
    doc.append(ep.as_str());
    doc.append("</description>\n</package>");
    doc
}

/// The document that says where the sources of a package come from.
pub open spec fn service_document(
    package: Seq<char>,
    revision: Seq<char>,
    repo_url: Seq<char>,
) -> Seq<char> {
    "<services>\n  <service name=\"obs_scm\">\n    <param name=\"scm\">git</param>\n    <param name=\"url\">"@
        + xml_text(repo_url) + "</param>\n    <param name=\"revision\">"@ + xml_text(revision)
        + "</param>\n    <param name=\"extract\">SPECS/"@ + xml_text(package)
        + "/*</param>\n  </service>\n  <service name=\"download_files\"/>\n</services>"@
}

pub fn service_xml(package: &str, revision: &str, repo_url: &str) -> (r: String)
    ensures
        r@ == service_document(package@, revision@, repo_url@),
{
    let mut doc = cat5(
        "<services>\n  <service name=\"obs_scm\">\n    <param name=\"scm\">git</param>\n    <param name=\"url\">",
        xml_escape(repo_url).as_str(),
        "</param>\n    <param name=\"revision\">",
        xml_escape(revision).as_str(),
        "</param>\n    <param name=\"extract\">SPECS/",
    );
    doc.append(xml_escape(package).as_str());
    doc.append("/*</param>\n  </service>\n  <service name=\"download_files\"/>\n</services>");
    doc
}

/// Whether a package exists, by the answer to the question for it; there may be none.
pub fn package_exists(code: Option<u16>) -> (r: bool)
    ensures
        r == (code == Some(200u16)),
{
    match code {
        Some(code) => code == 200,
        None => false,
    }
}

/// A request has been done where the service answers it with 200.
pub fn expect_ok(what: &str, code: u16) -> (r: Result<(), String>)
    ensures
        match r {
            Ok(_) => code == 200,
            Err(message) => code != 200 && message@ == what@ + " failed: HTTP "@ + pieces::decimal(
                code as nat,
            ),
        },
{
    if code == 200 {
        Ok(())
    } else {
        Err(cat3(what, " failed: HTTP ", decimal_of(code as u64).as_str()))
    }
}

/// What a submission has come to.
#[derive(Debug, Clone)]
pub struct EbfSubmitResult {
    pub success: bool,
    pub returncode: i32,
    pub log_path: String,
    pub stdout: String,
    pub stderr: String,
    pub success_count: usize,
    pub total_count: usize,
}

/// What is to be done next for a component.
#[derive(Debug, Clone, Copy, PartialEq, Eq, Structural)]
pub enum EbfStep {
    CreateMeta,
    UploadService,
    Commit,
    TriggerRebuild,
    Finished,
}

/// A submission of several components.
#[derive(Debug)]
pub struct EbfSubmission {
    pub total: usize,
    pub success_count: usize,
    pub failed: Vec<String>,
    pub messages: String,
}

/// The model of an [`EbfSubmission`].
#[verifier::ext_equal]
pub struct SubmissionModel {
    pub total: usize,
    pub success_count: usize,
    pub failed: Seq<Seq<char>>,
    pub messages: Seq<char>,
}

impl View for EbfSubmission {
    type V = SubmissionModel;

    open spec fn view(&self) -> SubmissionModel {
        SubmissionModel {
            total: self.total,
            success_count: self.success_count,
            failed: text::texts(self.failed@),
            messages: self.messages@,
        }
    }
}

/// What a step is called when it fails.
pub open spec fn failed_step(step: EbfStep) -> Seq<char> {
    match step {
        EbfStep::CreateMeta => "create_meta failed: "@,
        EbfStep::UploadService => "service_upload failed: "@,
        _ => "commit failed: "@,
    }
}

/// What is said of a step that has been done.
pub open spec fn done_step(step: EbfStep) -> Seq<char> {
    match step {
        EbfStep::CreateMeta => "meta_created "@,
        EbfStep::UploadService => "service_uploaded "@,
        EbfStep::Commit => "committed "@,
        EbfStep::TriggerRebuild => "rebuild_triggered\n"@,
        EbfStep::Finished => ""@,
    }
}

/// The step that follows one that has been done.
pub open spec fn next_step(step: EbfStep) -> EbfStep {
    match step {
        EbfStep::CreateMeta => EbfStep::UploadService,
        EbfStep::UploadService => EbfStep::Commit,
        EbfStep::Commit => EbfStep::TriggerRebuild,
        EbfStep::TriggerRebuild => EbfStep::Finished,
        EbfStep::Finished => EbfStep::Finished,
    }
}

/// A submission after a step for a component: a step that fails ends the component, except that a
/// rebuild counts as triggered whatever the service answers.
pub open spec fn after_step(
    state: SubmissionModel,
    component: Seq<char>,
    step: EbfStep,
    error: Option<Seq<char>>,
) -> SubmissionModel {
    match error {
        Some(message) => if step == EbfStep::TriggerRebuild {
            SubmissionModel {
                success_count: (state.success_count + 1) as usize,
                messages: state.messages + done_step(step),
                ..state
            }
        } else {
            SubmissionModel {
                failed: state.failed.push(component),
                messages: state.messages + failed_step(step) + message + "\n"@,
                ..state
            }
        },
        None => SubmissionModel {
            success_count: if step == EbfStep::TriggerRebuild {
                (state.success_count + 1) as usize
            } else {
                state.success_count
            },
            messages: state.messages + done_step(step),
            ..state
        },
    }
}

/// The steps of a component end by counting it once: as done, or among those that failed.
pub proof fn law_component_counts_once(
    state: SubmissionModel,
    component: Seq<char>,
    step: EbfStep,
    error: Option<Seq<char>>,
)
    requires
        step != EbfStep::Finished,
        state.success_count < usize::MAX,
    ensures
        ({
            let after = after_step(state, component, step, error);
            let finished = step == EbfStep::TriggerRebuild || error is Some;
            after.success_count + after.failed.len() == state.success_count + state.failed.len()
                + if finished {
                1int
            } else {
                0int
            }
        }),
{
}

/// What a commit is called: a package that existed is updated.
pub fn commit_action(exists: bool) -> (r: &'static str)
    ensures
        r@ == (if exists {
            "update"@
        } else {
            "create"@
        }),
{
    if exists {
        "update"
    } else {
        "create"
    }
}

impl EbfSubmission {
    pub fn new(total: usize) -> (r: Self)
        ensures
            r@ == (SubmissionModel {
                total,
                success_count: 0,
                failed: seq![],
                messages: seq![],
            }),
    {
        let r = EbfSubmission {
            total,
            success_count: 0,
            failed: Vec::new(),
            messages: String::new(),
        };
        assert(r@.failed =~= seq![]);
        r
    }

    /// Starts a component. A package that does not exist yet is created first.
    pub fn start(&mut self, component: &str, exists: bool) -> (r: EbfStep)
        ensures
            final(self)@ == (SubmissionModel {
                messages: old(self)@.messages + "[ebf] "@ + component@ + (if exists {
                    ": existing -> "@
                } else {
                    ": new -> "@
                }),
                ..old(self)@
            }),
            r == (if exists {
                EbfStep::UploadService
            } else {
                EbfStep::CreateMeta
            }),
    {
        self.messages.append("[ebf] ");
        self.messages.append(component);
        if exists {
            self.messages.append(": existing -> ");
            EbfStep::UploadService
        } else {
            self.messages.append(": new -> ");
            EbfStep::CreateMeta
        }
    }

    /// Records what a step for a component has come to, and says which follows.
    pub fn on_step(&mut self, component: &str, step: EbfStep, result: Result<(), String>) -> (r:
        EbfStep)
        requires
            step != EbfStep::Finished,
            old(self)@.success_count < old(self)@.total,
        ensures
            final(self)@ == after_step(
                old(self)@,
                component@,
                step,
                match result {
                    Ok(_) => None,
                    Err(message) => Some(message@),
                },
            ),
            r == (if result is Ok || step == EbfStep::TriggerRebuild {
                next_step(step)
            } else {
                EbfStep::Finished
            }),
    {
        let message = match result {
            Ok(_) => None,
            Err(message) => if matches!(step, EbfStep::TriggerRebuild) {
                None
            } else {
                Some(message)
            },
        };
        match message {
            Some(message) => {
                let what = match step {
                    EbfStep::CreateMeta => "create_meta failed: ",
                    EbfStep::UploadService => "service_upload failed: ",
                    _ => "commit failed: ",
                };
                self.messages.append(what);
                self.messages.append(message.as_str());
                self.messages.append("\n");
                push_line(&mut self.failed, component.to_owned());
                EbfStep::Finished
            },
            None => match step {
                EbfStep::CreateMeta => {
                    self.messages.append("meta_created ");
                    EbfStep::UploadService
                },
                EbfStep::UploadService => {
                    self.messages.append("service_uploaded ");
                    EbfStep::Commit
                },
                EbfStep::Commit => {
                    self.messages.append("committed ");
                    EbfStep::TriggerRebuild
                },
                _ => {
                    self.messages.append("rebuild_triggered\n");
                    self.success_count += 1;
                    EbfStep::Finished
                },
            },
        }
    }

    /// What the submission has come to.
    pub fn finish(self) -> (r: EbfSubmitResult)
        ensures
            r.success == (self@.failed.len() == 0),
            r.returncode == (if r.success {
                0i32
            } else {
                1i32
            }),
            r.log_path@ == "logs/ebf_submit.log"@,
            r.stdout@ == self@.messages,
            r.stderr@ == (if r.success {
                Seq::<char>::empty()
            } else {
                "failed components: "@ + pieces::join(self@.failed, ", "@)
            }),
            r.success_count == self@.success_count,
            r.total_count == self@.total,
    {
        assert(self@.failed.len() == self.failed@.len());
        let success = self.failed.len() == 0;
        let stderr = if success {
            String::new()
        } else {
            cat2("failed components: ", joined(&self.failed, ", ").as_str())
        };
        EbfSubmitResult {
            success,
            returncode: if success {
                0
            } else {
                1
            },
            log_path: "logs/ebf_submit.log".to_owned(),
            stdout: self.messages,
            stderr,
            success_count: self.success_count,
            total_count: self.total,
        }
    }
}

} // verus!
