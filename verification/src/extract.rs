//! Which source archive is unpacked, and where to.
use vstd::prelude::*;

use crate::ops_log;
use crate::ops_log::{lines1, lines2, lines4, operation, Operation, OperationModel};
use crate::pieces;
use crate::pieces::{insert_sorted, path_of, split_on};
use crate::text;
use crate::text::{
    ascii_letter, cat2, chars_of, has_prefix, has_suffix, same, without_suffix,
};

verus! {

/// What has become of the sources.
#[derive(Debug, Clone, PartialEq, Eq)]
pub enum ExtractStatus {
    Extracted,
    Skipped,
    Failed(String),
}

/// What is remembered of the sources of a package.
#[derive(Debug, Clone)]
pub struct PackfixState {
    pub source_archive: Option<String>,
    pub source_extract_dir: Option<String>,
    pub extract_status: ExtractStatus,
    pub updated_at: String,
}

/// The time of a change, where the clock is not before the epoch.
pub open spec fn change_time(time: Option<(u64, u32)>) -> Seq<char> {
    match time {
        Some(_) => ops_log::time_text(time),
        None => "unknown"@,
    }
}

pub fn timestamp_now(time: Option<(u64, u32)>) -> (r: String)
    ensures
        r@ == change_time(time),
{
    match time {
        Some(_) => ops_log::timestamp(time),
        None => "unknown".to_owned(),
    }
}

impl PackfixState {
    /// There was nothing to unpack.
    pub fn new(time: Option<(u64, u32)>) -> (r: Self)
        ensures
            r.source_archive is None,
            r.source_extract_dir is None,
            r.extract_status is Skipped,
            r.updated_at@ == change_time(time),
    {
        PackfixState {
            source_archive: None,
            source_extract_dir: None,
            extract_status: ExtractStatus::Skipped,
            updated_at: timestamp_now(time),
        }
    }

    /// The plan has been carried out.
    pub fn extracted(plan: &ExtractPlan, time: Option<(u64, u32)>) -> (r: Self)
        ensures
            text::opt_text(r.source_archive) == Some(plan.archive@),
            text::opt_text(r.source_extract_dir) == Some(plan.extract_dir@),
            r.extract_status is Extracted,
            r.updated_at@ == change_time(time),
    {
        PackfixState {
            source_archive: Some(plan.archive.clone()),
            source_extract_dir: Some(plan.extract_dir.clone()),
            extract_status: ExtractStatus::Extracted,
            updated_at: timestamp_now(time),
        }
    }

    /// The sources could not be unpacked.
    pub fn failed(message: &str, time: Option<(u64, u32)>) -> (r: Self)
        ensures
            r.source_archive is None,
            r.source_extract_dir is None,
            r.extract_status matches ExtractStatus::Failed(reason) && reason@ == message@,
            r.updated_at@ == change_time(time),
    {
        PackfixState {
            source_archive: None,
            source_extract_dir: None,
            extract_status: ExtractStatus::Failed(message.to_owned()),
            updated_at: timestamp_now(time),
        }
    }
}

/// A name with an ending that no source archive has.
pub open spec fn is_ignored(name: Seq<char>) -> bool {
    text::ends_with(name, ".src.rpm"@) || text::ends_with(name, ".patch"@) || text::ends_with(
        name,
        ".diff"@,
    ) || text::ends_with(name, ".asc"@) || text::ends_with(name, ".sig"@) || text::ends_with(
        name,
        ".spec"@,
    ) || text::ends_with(name, ".service"@)
}

/// The name of a tar archive.
pub open spec fn is_tar(name: Seq<char>) -> bool {
    text::ends_with(name, ".tar.gz"@) || text::ends_with(name, ".tar.xz"@) || text::ends_with(
        name,
        ".tar.bz2"@,
    ) || text::ends_with(name, ".tgz"@)
}

/// The name of a source archive.
pub open spec fn is_archive(name: Seq<char>) -> bool {
    !is_ignored(name) && (is_tar(name) || text::ends_with(name, ".zip"@))
}

pub fn is_tar_archive(name: &str) -> (r: bool)
    ensures
        r == is_tar(name@),
{
    has_suffix(name, ".tar.gz") || has_suffix(name, ".tar.xz") || has_suffix(name, ".tar.bz2")
        || has_suffix(name, ".tgz")
}

pub fn is_source_archive(name: &str) -> (r: bool)
    ensures
        r == is_archive(name@),
{
    let ignored = has_suffix(name, ".src.rpm") || has_suffix(name, ".patch") || has_suffix(
        name,
        ".diff",
    ) || has_suffix(name, ".asc") || has_suffix(name, ".sig") || has_suffix(name, ".spec")
        || has_suffix(name, ".service");
    !ignored && (is_tar_archive(name) || has_suffix(name, ".zip"))
}

/// The source archives among `names`, in order.
pub open spec fn archives_of(names: Seq<Seq<char>>) -> Seq<Seq<char>>
    decreases names.len(),
{
    if names.len() == 0 {
        seq![]
    } else {
        let before = archives_of(names.drop_last());
        if is_archive(names.last()) {
            pieces::sorted_insert(before, names.last())
        } else {
            before
        }
    }
}

/// The source archives among the files of a directory.
pub fn find_source_archives(names: &[String]) -> (r: Vec<String>)
    ensures
        text::texts(r@) == archives_of(text::texts(names@)),
{
    let ghost all = text::texts(names@);
    let mut found: Vec<String> = Vec::new();
    let mut i: usize = 0;
    assert(text::texts(found@) =~= archives_of(all.take(0)));
    while i < names.len()
        invariant
            i <= names@.len(),
            all == text::texts(names@),
            text::texts(found@) == archives_of(all.take(i as int)),
        decreases names@.len() - i,
    {
        assert(all[i as int] == names@[i as int]@);
        assert(all.take(i + 1).drop_last() =~= all.take(i as int));
        if is_source_archive(names[i].as_str()) {
            insert_sorted(&mut found, names[i].as_str());
        }
        i += 1;
    }
    assert(all.take(all.len() as int) =~= all);
    found
}

/// The first of two archives is not better than the second: a tar archive goes before any other,
/// and a larger one before a smaller one of its sort.
pub open spec fn not_better(a: (Seq<char>, u64), b: (Seq<char>, u64)) -> bool {
    if is_tar(a.0) == is_tar(b.0) {
        a.1 <= b.1
    } else {
        is_tar(b.0)
    }
}

/// The place of the best archive, the last of those that are equally good.
pub open spec fn best_place(v: Seq<(Seq<char>, u64)>) -> int
    decreases v.len(),
{
    if v.len() <= 1 {
        0
    } else {
        let before = best_place(v.drop_last());
        if not_better(v[before], v.last()) {
            v.len() - 1
        } else {
            before
        }
    }
}

pub open spec fn named_sizes(names: Seq<Seq<char>>, sizes: Seq<u64>) -> Seq<(Seq<char>, u64)> {
    Seq::new(names.len(), |i: int| (names[i], sizes[i]))
}

proof fn lemma_best_place(v: Seq<(Seq<char>, u64)>)
    requires
        v.len() > 0,
    ensures
        0 <= best_place(v) < v.len(),
        forall|i: int| 0 <= i < v.len() ==> not_better(#[trigger] v[i], v[best_place(v)]),
        forall|i: int|
            best_place(v) < i < v.len() ==> !not_better(v[best_place(v)], #[trigger] v[i]),
    decreases v.len(),
{
    if v.len() > 1 {
        let w = v.drop_last();
        lemma_best_place(w);
        assert forall|i: int| 0 <= i < v.len() implies not_better(
            #[trigger] v[i],
            v[best_place(v)],
        ) by {
            if i < w.len() {
                assert(w[i] == v[i]);
                assert(not_better(w[i], w[best_place(w)]));
            }
        }
        assert forall|i: int| best_place(v) < i < v.len() implies !not_better(
            v[best_place(v)],
            #[trigger] v[i],
        ) by {
            if i < w.len() {
                assert(w[i] == v[i]);
            }
        }
    }
}

/// The archive to unpack, by its place among `names`.
pub fn pick_best_archive(names: &[String], sizes: &[u64]) -> (r: usize)
    requires
        0 < names@.len() == sizes@.len(),
    ensures
        r < names@.len(),
        r == best_place(named_sizes(text::texts(names@), sizes@)),
{
    let ghost v = named_sizes(text::texts(names@), sizes@);
    let mut best: usize = 0;
    let mut i: usize = 1;
    while i < names.len()
        invariant
            1 <= i <= names@.len(),
            names@.len() == sizes@.len(),
            best < i,
            v == named_sizes(text::texts(names@), sizes@),
            best == best_place(v.take(i as int)),
        decreases names@.len() - i,
    {
        let best_tar = is_tar_archive(names[best].as_str());
        let tar = is_tar_archive(names[i].as_str());
        assert(v.take(i + 1).drop_last() =~= v.take(i as int));
        assert(v[best as int] == (names@[best as int]@, sizes@[best as int]));
        assert(v[i as int] == (names@[i as int]@, sizes@[i as int]));
        let better = if tar == best_tar {
            sizes[best] <= sizes[i]
        } else {
            tar
        };
        if better {
            best = i;
        }
        i += 1;
    }
    assert(v.take(v.len() as int) =~= v);
    best
}

/// A tar archive is picked before any other, however large that is; and of the tar archives one
/// that none is larger than.
pub proof fn law_tar_is_picked_first(names: Seq<Seq<char>>, sizes: Seq<u64>, i: int)
    requires
        0 <= i < names.len() == sizes.len(),
        is_tar(names[i]),
    ensures
        ({
            let best = best_place(named_sizes(names, sizes));
            0 <= best < names.len() && is_tar(names[best]) && sizes[i] <= sizes[best]
        }),
{
    let v = named_sizes(names, sizes);
    lemma_best_place(v);
    assert(not_better(v[i], v[best_place(v)]));
}

/// Of the archives of the sort that is picked none is larger than the one picked, and of the
/// largest it is the last. So where there is no tar archive the largest of the others is picked.
pub proof fn law_largest_is_picked(names: Seq<Seq<char>>, sizes: Seq<u64>, i: int)
    requires
        0 <= i < names.len() == sizes.len(),
    ensures
        ({
            let best = best_place(named_sizes(names, sizes));
            &&& 0 <= best < names.len()
            &&& is_tar(names[i]) == is_tar(names[best]) ==> {
                &&& sizes[i] <= sizes[best]
                &&& sizes[i] == sizes[best] ==> i <= best
            }
            &&& (forall|k: int| 0 <= k < names.len() ==> !is_tar(#[trigger] names[k])) ==> {
                &&& sizes[i] <= sizes[best]
                &&& sizes[i] == sizes[best] ==> i <= best
            }
        }),
{
    let v = named_sizes(names, sizes);
    lemma_best_place(v);
    let best = best_place(v);
    assert(not_better(v[i], v[best]));
    if best < i {
        assert(!not_better(v[best], v[i]));
    }
}

/// The name of an archive without its ending.
pub open spec fn stem_of(name: Seq<char>) -> Seq<char> {
    if text::ends_with(name, ".tar.gz"@) {
        name.take(name.len() - ".tar.gz"@.len())
    } else if text::ends_with(name, ".tar.xz"@) {
        name.take(name.len() - ".tar.xz"@.len())
    } else if text::ends_with(name, ".tar.bz2"@) {
        name.take(name.len() - ".tar.bz2"@.len())
    } else if text::ends_with(name, ".tgz"@) {
        name.take(name.len() - ".tgz"@.len())
    } else if text::ends_with(name, ".zip"@) {
        name.take(name.len() - ".zip"@.len())
    } else {
        name
    }
}

pub fn archive_stem(name: &str) -> (r: String)
    ensures
        r@ == stem_of(name@),
{
    if let Some(s) = without_suffix(name, ".tar.gz") {
        s
    } else if let Some(s) = without_suffix(name, ".tar.xz") {
        s
    } else if let Some(s) = without_suffix(name, ".tar.bz2") {
        s
    } else if let Some(s) = without_suffix(name, ".tgz") {
        s
    } else if let Some(s) = without_suffix(name, ".zip") {
        s
    } else {
        name.to_owned()
    }
}

/// How an archive is packed.
#[derive(Debug, Clone, Copy, PartialEq, Eq, Structural)]
pub enum ArchiveFormat {
    TarGz,
    TarBz2,
    TarXz,
    Zip,
}

pub open spec fn format_of(name: Seq<char>) -> Option<ArchiveFormat> {
    if text::ends_with(name, ".tar.gz"@) || text::ends_with(name, ".tgz"@) {
        Some(ArchiveFormat::TarGz)
    } else if text::ends_with(name, ".tar.bz2"@) {
        Some(ArchiveFormat::TarBz2)
    } else if text::ends_with(name, ".tar.xz"@) {
        Some(ArchiveFormat::TarXz)
    } else if text::ends_with(name, ".zip"@) {
        Some(ArchiveFormat::Zip)
    } else {
        None
    }
}

/// How the archive `path` with the file name `name` is unpacked.
pub fn extract_archive(name: &str, path: &str) -> (r: Result<ArchiveFormat, String>)
    ensures
        match r {
            Ok(format) => format_of(name@) == Some(format),
            Err(message) => format_of(name@) is None && message@ == "unknown archive format: "@
                + path@,
        },
{
    if has_suffix(name, ".tar.gz") || has_suffix(name, ".tgz") {
        Ok(ArchiveFormat::TarGz)
    } else if has_suffix(name, ".tar.bz2") {
        Ok(ArchiveFormat::TarBz2)
    } else if has_suffix(name, ".tar.xz") {
        Ok(ArchiveFormat::TarXz)
    } else if has_suffix(name, ".zip") {
        Ok(ArchiveFormat::Zip)
    } else {
        Err(cat2("unknown archive format: ", path))
    }
}

/// Every source archive can be unpacked.
pub proof fn law_archives_have_a_format(name: Seq<char>)
    requires
        is_archive(name),
    ensures
        format_of(name) is Some,
{
}

/// A step up, on one system or the other.
pub open spec fn is_step_up(component: Seq<char>) -> bool {
    component == ".."@ || text::starts_with(component, "..\\"@)
}

/// An absolute path of a system with drive letters.
pub open spec fn is_drive_path(path: Seq<char>) -> bool {
    path.len() >= 3 && text::is_ascii_letter(path[0]) && path[1] == ':' && path[2] == '\\'
}

/// The path of an archive entry that stays in the directory it is unpacked to.
pub open spec fn is_safe_entry(path: Seq<char>) -> bool {
    &&& !text::starts_with(path, "/"@)
    &&& forall|i: int|
        0 <= i < pieces::split(path, '/').len() ==> !is_step_up(
            #[trigger] pieces::split(path, '/')[i],
        )
    &&& !is_drive_path(path)
}

pub fn is_safe_entry_path(path: &str) -> (r: bool)
    ensures
        r == is_safe_entry(path@),
{
    if has_prefix(path, "/") {
        return false;
    }
    let parts = split_on(path, '/');
    let ghost all = text::texts(parts@);
    let mut i: usize = 0;
    while i < parts.len()
        invariant
            i <= parts@.len(),
            all == text::texts(parts@),
            all == pieces::split(path@, '/'),
            forall|k: int| 0 <= k < i ==> !is_step_up(#[trigger] all[k]),
        decreases parts@.len() - i,
    {
        assert(all[i as int] == parts@[i as int]@);
        if same(parts[i].as_str(), "..") || has_prefix(parts[i].as_str(), "..\\") {
            return false;
        }
        i += 1;
    }
    let v = chars_of(path);
    if v.len() >= 3 {
        if ascii_letter(v[0]) && v[1] == ':' && v[2] == '\\' {
            return false;
        }
    }
    true
}

/// Where an entry of an archive is unpacked to below `dest`. One that is not safe is left out.
pub fn entry_target(dest: &str, path: &str) -> (r: Option<String>)
    ensures
        text::opt_text(r) == (if is_safe_entry(path@) {
            Some(pieces::path_join(dest@, path@))
        } else {
            None
        }),
{
    if is_safe_entry_path(path) {
        Some(path_of(dest, path))
    } else {
        None
    }
}

/// A safe entry is unpacked below its directory: its path follows that of the directory, and no
/// part of it leads up again.
pub proof fn law_safe_entry_stays_below(dest: Seq<char>, path: Seq<char>)
    requires
        is_safe_entry(path),
    ensures
        text::starts_with(pieces::path_join(dest, path), dest),
        text::ends_with(pieces::path_join(dest, path), path),
        !pieces::split(path, '/').contains(".."@),
{
    reveal_strlit("/");
    let full = pieces::path_join(dest, path);
    if path.len() > 0 && path[0] == '/' {
        assert(path.subrange(0, 1) =~= "/"@);
        assert(text::starts_with(path, "/"@));
    }
    assert(full.subrange(0, dest.len() as int) =~= dest);
    assert(full.subrange(full.len() - path.len(), full.len() as int) =~= path);
    if pieces::split(path, '/').contains(".."@) {
        let i = choose|i: int|
            0 <= i < pieces::split(path, '/').len() && pieces::split(path, '/')[i] == ".."@;
        assert(is_step_up(pieces::split(path, '/')[i]));
    }
}

/// Where what is remembered of a package is kept.
pub fn state_path(state_root: &str) -> (r: String)
    ensures
        r@ == pieces::path_join(pieces::path_join(state_root@, ".packfix"@), "state.json"@),
{
    path_of(path_of(state_root, ".packfix").as_str(), "state.json")
}

/// What is unpacked, and where to.
#[derive(Debug, Clone)]
pub struct ExtractPlan {
    pub archive: String,
    pub format: ArchiveFormat,
    pub extract_dir: String,
}

/// Plans to unpack the best of the source archives of `source_dir`, which `find_source_archives`
/// has found, into a directory below `state_root`. There is no plan without an archive.
pub fn try_extract(source_dir: &str, state_root: &str, archives: &[String], sizes: &[u64]) -> (r:
    Result<Option<ExtractPlan>, String>)
    requires
        archives@.len() == sizes@.len(),
    ensures
        ({
            let names = text::texts(archives@);
            let best = names[best_place(named_sizes(names, sizes@))];
            match r {
                Ok(None) => archives@.len() == 0,
                Ok(Some(plan)) => {
                    &&& archives@.len() > 0
                    &&& plan.archive@ == pieces::path_join(source_dir@, best)
                    &&& format_of(best) == Some(plan.format)
                    &&& plan.extract_dir@ == pieces::path_join(
                        pieces::path_join(
                            pieces::path_join(state_root@, ".packfix"@),
                            "source-extract"@,
                        ),
                        stem_of(best),
                    )
                },
                Err(message) => archives@.len() > 0 && format_of(best) is None && message@
                    == "unknown archive format: "@ + pieces::path_join(source_dir@, best),
            }
        }),
{
    if archives.len() == 0 {
        return Ok(None);
    }
    let best: usize = pick_best_archive(archives, sizes);
    let name = archives[best].as_str();
    assert(text::texts(archives@)[best as int] == name@);
    let archive = path_of(source_dir, name);
    let format = match extract_archive(name, archive.as_str()) {
        Ok(format) => format,
        Err(message) => return Err(message),
    };
    let root = path_of(path_of(state_root, ".packfix").as_str(), "source-extract");
    let extract_dir = path_of(root.as_str(), archive_stem(name).as_str());
    Ok(Some(ExtractPlan { archive, format, extract_dir }))
}

/// What is logged where there is nothing to unpack.
pub fn skipped_operation() -> (r: Operation)
    ensures
        r@ == (OperationModel {
            title: "source-extract"@,
            lines: seq!["STATUS: skipped (no source archive found)"@],
        }),
{
    operation(
        "source-extract",
        lines1("STATUS: skipped (no source archive found)".to_owned()),
    )
}

/// What is logged of a plan that has been carried out.
pub fn extracted_operation(source_dir: &str, plan: &ExtractPlan) -> (r: Operation)
    ensures
        r@ == (OperationModel {
            title: "source-extract"@,
            lines: seq![
                "SOURCE_DIR: "@ + source_dir@,
                "ARCHIVE: "@ + plan.archive@,
                "EXTRACT_DIR: "@ + plan.extract_dir@,
                "STATUS: extracted"@,
            ],
        }),
{
    operation(
        "source-extract",
        lines4(
            cat2("SOURCE_DIR: ", source_dir),
            cat2("ARCHIVE: ", plan.archive.as_str()),
            cat2("EXTRACT_DIR: ", plan.extract_dir.as_str()),
            "STATUS: extracted".to_owned(),
        ),
    )
}

/// What is logged of a plan that could not be carried out.
pub fn failed_operation(error: &str) -> (r: Operation)
    ensures
        r@ == (OperationModel {
            title: "source-extract"@,
            lines: seq!["STATUS: failed"@, "ERROR: "@ + error@],
        }),
{
    operation("source-extract", lines2("STATUS: failed".to_owned(), cat2("ERROR: ", error)))
}

} // verus!
