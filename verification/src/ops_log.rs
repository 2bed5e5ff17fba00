//! The log of what has been done in a working directory.
use vstd::prelude::*;

use crate::pieces;
use crate::pieces::{decimal3_of, decimal_of, path_of};
use crate::report::push_line;
use crate::text;
use crate::text::cat4;

verus! {

/// Where the log of a working directory is.
pub open spec fn log_path(workdir: Seq<char>) -> Seq<char> {
    pieces::path_join(pieces::path_join(workdir, "logs"@), "packfix_operations.log"@)
}

pub fn operation_log_path(workdir: &str) -> (r: String)
    ensures
        r@ == log_path(workdir@),
{
    path_of(path_of(workdir, "logs").as_str(), "packfix_operations.log")
}

/// A time: the seconds since the epoch and the milliseconds of the second, where the clock is not
/// before it.
pub open spec fn time_text(time: Option<(u64, u32)>) -> Seq<char> {
    match time {
        Some(t) => pieces::decimal(t.0 as nat) + "."@ + pieces::decimal3(t.1 as nat) + "Z"@,
        None => "before-unix-epoch"@,
    }
}

pub fn timestamp(time: Option<(u64, u32)>) -> (r: String)
    ensures
        r@ == time_text(time),
{
    match time {
        Some(t) => cat4(
            decimal_of(t.0).as_str(),
            ".",
            decimal3_of(t.1 as u64).as_str(),
            "Z",
        ),
        None => "before-unix-epoch".to_owned(),
    }
}

/// Each line with its end.
pub open spec fn ended(lines: Seq<Seq<char>>) -> Seq<char>
    decreases lines.len(),
{
    if lines.len() == 0 {
        seq![]
    } else {
        ended(lines.drop_last()) + lines.last() + "\n"@
    }
}

/// An entry of the log.
pub open spec fn entry_text(
    time: Option<(u64, u32)>,
    title: Seq<char>,
    lines: Seq<Seq<char>>,
) -> Seq<char> {
    "== "@ + time_text(time) + " | "@ + title + " ==\n"@ + ended(lines) + "\n"@
}

/// What is put at the end of the log for an operation.
pub fn append_operation(time: Option<(u64, u32)>, title: &str, lines: &[String]) -> (r: String)
    ensures
        r@ == entry_text(time, title@, text::texts(lines@)),
{
    let mut out = cat4("== ", timestamp(time).as_str(), " | ", title);
    out.append(" ==\n");
    let ghost head = out@;
    let ghost all = text::texts(lines@);
    let mut i: usize = 0;
    assert(head + ended(all.take(0)) =~= head);
    while i < lines.len()
        invariant
            i <= lines@.len(),
            all == text::texts(lines@),
            out@ == head + ended(all.take(i as int)),
        decreases lines@.len() - i,
    {
        out.append(lines[i].as_str());
        out.append("\n");
        i += 1;
        assert(all.take(i as int).drop_last() =~= all.take(i - 1));
        assert(out@ =~= head + ended(all.take(i as int)));
    }
    assert(all.take(all.len() as int) =~= all);
    out.append("\n");
    out
}

/// The lines of an operation, given one by one.
pub fn lines1(a: String) -> (r: Vec<String>)
    ensures
        text::texts(r@) == seq![a@],
{
    let mut v: Vec<String> = Vec::new();
    push_line(&mut v, a);
    assert(text::texts(v@) =~= seq![a@]);
    v
}

pub fn lines2(a: String, b: String) -> (r: Vec<String>)
    ensures
        text::texts(r@) == seq![a@, b@],
{
    let mut v: Vec<String> = Vec::new();
    push_line(&mut v, a);
    push_line(&mut v, b);
    assert(text::texts(v@) =~= seq![a@, b@]);
    v
}

pub fn lines3(a: String, b: String, c: String) -> (r: Vec<String>)
    ensures
        text::texts(r@) == seq![a@, b@, c@],
{
    let mut v: Vec<String> = Vec::new();
    push_line(&mut v, a);
    push_line(&mut v, b);
    push_line(&mut v, c);
    assert(text::texts(v@) =~= seq![a@, b@, c@]);
    v
}

pub fn lines4(a: String, b: String, c: String, d: String) -> (r: Vec<String>)
    ensures
        text::texts(r@) == seq![a@, b@, c@, d@],
{
    let mut v: Vec<String> = Vec::new();
    push_line(&mut v, a);
    push_line(&mut v, b);
    push_line(&mut v, c);
    push_line(&mut v, d);
    assert(text::texts(v@) =~= seq![a@, b@, c@, d@]);
    v
}

pub fn lines5(a: String, b: String, c: String, d: String, e: String) -> (r: Vec<String>)
    ensures
        text::texts(r@) == seq![a@, b@, c@, d@, e@],
{
    let mut v: Vec<String> = Vec::new();
    push_line(&mut v, a);
    push_line(&mut v, b);
    push_line(&mut v, c);
    push_line(&mut v, d);
    push_line(&mut v, e);
    assert(text::texts(v@) =~= seq![a@, b@, c@, d@, e@]);
    v
}

/// Something that has been done, as it goes into the log.
#[derive(Debug, Clone)]
pub struct Operation {
    pub title: String,
    pub lines: Vec<String>,
}

/// The model of an [`Operation`].
#[verifier::ext_equal]
pub struct OperationModel {
    pub title: Seq<char>,
    pub lines: Seq<Seq<char>>,
}

impl View for Operation {
    type V = OperationModel;

    open spec fn view(&self) -> OperationModel {
        OperationModel { title: self.title@, lines: text::texts(self.lines@) }
    }
}

pub open spec fn operation_models(v: Seq<Operation>) -> Seq<OperationModel> {
    Seq::new(v.len(), |i: int| v[i]@)
}

pub open spec fn opt_operation(o: Option<Operation>) -> Option<OperationModel> {
    match o {
        Some(operation) => Some(operation@),
        None => None,
    }
}

/// Puts an operation at the end of a list.
pub fn push_operation(v: &mut Vec<Operation>, title: &str, lines: Vec<String>)
    ensures
        operation_models(final(v)@) == operation_models(old(v)@).push(
            OperationModel { title: title@, lines: text::texts(lines@) },
        ),
{
    v.push(operation(title, lines));
    assert(operation_models(v@) =~= operation_models(old(v)@).push(
        OperationModel { title: title@, lines: text::texts(lines@) },
    ));
}

pub fn operation(title: &str, lines: Vec<String>) -> (r: Operation)
    ensures
        r@ == (OperationModel { title: title@, lines: text::texts(lines@) }),
{
    Operation { title: title.to_owned(), lines }
}

} // verus!
