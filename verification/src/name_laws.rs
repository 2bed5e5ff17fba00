//! Laws of the names of files, directories and archives, and of the arguments that hold them.
use vstd::prelude::*;

use crate::extract;
use crate::extract::ArchiveFormat;
use crate::obs_local;
use crate::obs_local::FixModel;
use crate::paths;
use crate::pieces;
use crate::resources;
use crate::set_laws;
use crate::target_laws;
use crate::text;
use crate::version_laws;
use crate::versions;

verus! {

/// A text ends with what was put behind it, and with nothing else of the same length.
proof fn lemma_ending(stem: Seq<char>, ending: Seq<char>, other: Seq<char>)
    ensures
        text::ends_with(stem + ending, ending),
        (stem + ending).take(stem.len() as int) == stem,
        text::ends_with(stem + ending, other) && other.len() <= ending.len() ==> other
            == ending.skip(ending.len() - other.len()),
        text::ends_with(stem + ending, other) && other.len() > ending.len() ==> ending
            == other.skip(other.len() - ending.len()),
{
    let s = stem + ending;
    let n = s.len() as int;
    assert(s.subrange(n - ending.len(), n) =~= ending);
    assert(s.take(stem.len() as int) =~= stem);
    if text::ends_with(s, other) {
        let tail = s.subrange(n - other.len(), n);
        assert(tail == other);
        if other.len() <= ending.len() {
            assert(other =~= ending.skip(ending.len() - other.len())) by {
                assert forall|k: int| 0 <= k < other.len() implies other[k] == ending[ending.len()
                    - other.len() + k] by {
                    assert(tail[k] == s[n - other.len() + k]);
                }
            }
        } else {
            assert(ending =~= other.skip(other.len() - ending.len())) by {
                assert forall|k: int| 0 <= k < ending.len() implies ending[k] == other[other.len()
                    - ending.len() + k] by {
                    assert(tail[other.len() - ending.len() + k] == s[n - ending.len() + k]);
                }
            }
        }
    }
}

proof fn lemma_last_of_ending(s: Seq<char>, ending: Seq<char>)
    requires
        ending.len() >= 2,
        text::ends_with(s, ending),
    ensures
        s.len() >= ending.len(),
        s.last() == ending.last(),
        s[s.len() - 2] == ending[ending.len() - 2],
{
    let n = s.len() as int;
    let tail = s.subrange(n - ending.len(), n);
    assert(tail[ending.len() - 1] == s[n - 1]);
    assert(tail[ending.len() - 2] == s[n - 2]);
}

/// The ending of a source archive, and how it is packed.
pub open spec fn packed_as(ending: Seq<char>) -> Option<ArchiveFormat> {
    if ending == ".tar.gz"@ || ending == ".tgz"@ {
        Some(ArchiveFormat::TarGz)
    } else if ending == ".tar.xz"@ {
        Some(ArchiveFormat::TarXz)
    } else if ending == ".tar.bz2"@ {
        Some(ArchiveFormat::TarBz2)
    } else if ending == ".zip"@ {
        Some(ArchiveFormat::Zip)
    } else {
        None
    }
}

/// A file with the ending of an archive is a source archive, is unpacked by its ending, and into a
/// directory with its name without that ending. All but those of one sort are tar archives.
pub proof fn law_archive_goes_by_its_ending(stem: Seq<char>, ending: Seq<char>)
    requires
        packed_as(ending) is Some,
    ensures
        extract::is_archive(stem + ending),
        extract::format_of(stem + ending) == packed_as(ending),
        extract::stem_of(stem + ending) == stem,
        extract::is_tar(stem + ending) <==> ending != ".zip"@,
{
    reveal_strlit(".tar.gz");
    reveal_strlit(".tar.xz");
    reveal_strlit(".tar.bz2");
    reveal_strlit(".tgz");
    reveal_strlit(".zip");
    reveal_strlit(".src.rpm");
    reveal_strlit(".patch");
    reveal_strlit(".diff");
    reveal_strlit(".asc");
    reveal_strlit(".sig");
    reveal_strlit(".spec");
    reveal_strlit(".service");
    let s = stem + ending;
    lemma_ending(stem, ending, ending);
    lemma_last_of_ending(s, ending);
    lemma_not_ignored(s);
    if text::ends_with(s, ".tar.gz"@) {
        lemma_last_of_ending(s, ".tar.gz"@);
        lemma_ending(stem, ending, ".tar.gz"@);
        assert(ending == ".tgz"@ ==> ending[0] == ".tar.gz"@.skip(3)[0]);
        assert(ending == ".tgz"@ ==> ending[1] == ".tar.gz"@.skip(3)[1]);
    }
    if text::ends_with(s, ".tgz"@) {
        lemma_last_of_ending(s, ".tgz"@);
        lemma_ending(stem, ending, ".tgz"@);
        assert(ending == ".tar.gz"@ ==> ".tgz"@[0] == ending.skip(3)[0]);
        assert(ending == ".tar.gz"@ ==> ".tgz"@[1] == ending.skip(3)[1]);
    }
    if text::ends_with(s, ".tar.xz"@) {
        lemma_last_of_ending(s, ".tar.xz"@);
    }
    if text::ends_with(s, ".tar.bz2"@) {
        lemma_last_of_ending(s, ".tar.bz2"@);
    }
    if text::ends_with(s, ".zip"@) {
        lemma_last_of_ending(s, ".zip"@);
    }
}

/// What ends like an archive does not end like something else.
proof fn lemma_not_ignored(s: Seq<char>)
    requires
        s.len() >= 2,
        s.last() == 'z' || s.last() == '2' || (s.last() == 'p' && s[s.len() - 2] == 'i'),
    ensures
        !extract::is_ignored(s),
{
    reveal_strlit(".src.rpm");
    reveal_strlit(".patch");
    reveal_strlit(".diff");
    reveal_strlit(".asc");
    reveal_strlit(".sig");
    reveal_strlit(".spec");
    reveal_strlit(".service");
    if text::ends_with(s, ".src.rpm"@) {
        lemma_last_of_ending(s, ".src.rpm"@);
    }
    if text::ends_with(s, ".patch"@) {
        lemma_last_of_ending(s, ".patch"@);
    }
    if text::ends_with(s, ".diff"@) {
        lemma_last_of_ending(s, ".diff"@);
    }
    if text::ends_with(s, ".asc"@) {
        lemma_last_of_ending(s, ".asc"@);
    }
    if text::ends_with(s, ".sig"@) {
        lemma_last_of_ending(s, ".sig"@);
    }
    if text::ends_with(s, ".spec"@) {
        lemma_last_of_ending(s, ".spec"@);
    }
    if text::ends_with(s, ".service"@) {
        lemma_last_of_ending(s, ".service"@);
    }
}

/// A file with none of these endings is no source archive.
pub proof fn law_other_files_are_no_archives(name: Seq<char>)
    requires
        forall|ending: Seq<char>|
            packed_as(ending) is Some ==> !#[trigger] text::ends_with(name, ending),
    ensures
        !extract::is_archive(name),
        extract::format_of(name) is None,
        extract::stem_of(name) == name,
{
    assert(packed_as(".tar.gz"@) is Some && packed_as(".tgz"@) is Some);
    assert(packed_as(".tar.xz"@) is Some && packed_as(".tar.bz2"@) is Some);
    assert(packed_as(".zip"@) is Some);
    assert(!text::ends_with(name, ".tar.gz"@) && !text::ends_with(name, ".tgz"@));
    assert(!text::ends_with(name, ".tar.xz"@) && !text::ends_with(name, ".tar.bz2"@));
    assert(!text::ends_with(name, ".zip"@));
}

/// The archives of a directory are those of its files that are source archives, in order and each
/// once.
pub proof fn law_archives_are_found(names: Seq<Seq<char>>, x: Seq<char>)
    ensures
        pieces::ascending(extract::archives_of(names)),
        extract::archives_of(names).contains(x) <==> names.contains(x) && extract::is_archive(x),
    decreases names.len(),
{
    if names.len() > 0 {
        let rest = names.drop_last();
        law_archives_are_found(rest, x);
        set_laws::law_sorted_insert(extract::archives_of(rest), names.last());
        set_laws::lemma_push_texts(rest, names.last());
        assert(rest.push(names.last()) =~= names);
    }
}

/// An entry with an absolute path is not unpacked, nor is one that leads up on its way, whichever
/// way its system writes paths.
pub proof fn law_entries_that_lead_out_are_not_unpacked(
    before: Seq<Seq<char>>,
    after: Seq<Seq<char>>,
    path: Seq<char>,
    drive: char,
)
    requires
        forall|k: int| 0 <= k < before.len() ==> !(#[trigger] before[k]).contains('/'),
        forall|k: int| 0 <= k < after.len() ==> !(#[trigger] after[k]).contains('/'),
    ensures
        !extract::is_safe_entry("/"@ + path),
        ('a' <= drive && drive <= 'z') || ('A' <= drive && drive <= 'Z') ==> !extract::is_safe_entry(
            seq![drive] + ":\\"@ + path,
        ),
        !path.contains('/') ==> !extract::is_safe_entry("..\\"@ + path),
        !extract::is_safe_entry(pieces::join(before + seq![".."@] + after, "/"@)),
{
    reveal_strlit("/");
    reveal_strlit("..");
    reveal_strlit(":\\");
    reveal_strlit("..\\");
    let p = "/"@ + path;
    assert(p.subrange(0, 1) =~= "/"@);
    let q = seq![drive] + ":\\"@ + path;
    assert(q[0] == drive && q[1] == ':' && q[2] == '\\');
    let up = "..\\"@ + path;
    if !path.contains('/') {
        if up.contains('/') {
            let k = up.index_of('/');
            if k >= 3 {
                assert(path[k - 3] == '/');
            }
        }
        assert(seq![up].len() == 1);
        target_laws::lemma_split_join(seq![up], '/');
        assert(pieces::split(up, '/')[0] == up);
        assert(up.subrange(0, 3) =~= "..\\"@);
    }
    let parts = before + seq![".."@] + after;
    assert("/"@ =~= seq!['/']);
    assert forall|k: int| 0 <= k < parts.len() implies !(#[trigger] parts[k]).contains('/') by {
        if k < before.len() {
            assert(parts[k] == before[k]);
        } else if k > before.len() {
            assert(parts[k] == after[k - before.len() - 1]);
        }
    }
    target_laws::lemma_split_join(parts, '/');
    let n = before.len() as int;
    assert(pieces::split(pieces::join(parts, "/"@), '/')[n] == ".."@);
}

/// A name in a path that leads down.
pub open spec fn is_step_down(name: Seq<char>) -> bool {
    &&& name.len() > 0
    &&& !name.contains('/')
    &&& !text::starts_with(name, ".."@)
    &&& !name.contains('\\')
}

/// An entry whose path only leads down is unpacked.
pub proof fn law_entries_that_lead_down_are_unpacked(parts: Seq<Seq<char>>)
    requires
        parts.len() > 0,
        forall|k: int| 0 <= k < parts.len() ==> is_step_down(#[trigger] parts[k]),
    ensures
        extract::is_safe_entry(pieces::join(parts, "/"@)),
{
    reveal_strlit("/");
    reveal_strlit("..");
    reveal_strlit("..\\");
    let path = pieces::join(parts, "/"@);
    assert("/"@ =~= seq!['/']);
    assert forall|k: int| 0 <= k < parts.len() implies !(#[trigger] parts[k]).contains('/') by {
        assert(is_step_down(parts[k]));
    }
    target_laws::lemma_split_join(parts, '/');
    assert forall|k: int| 0 <= k < parts.len() implies !extract::is_step_up(#[trigger] parts[k]) by {
        assert(is_step_down(parts[k]));
        let x = parts[k];
        if x == ".."@ {
            assert(x.subrange(0, 2) =~= ".."@);
        }
        if text::starts_with(x, "..\\"@) {
            assert(x.subrange(0, 3)[2] == x[2]);
            assert(x.contains(x[2]));
        }
    }
    assert(is_step_down(parts[0]));
    lemma_no_char(parts, '\\');
    if path.len() > 2 && path[2] == '\\' {
        assert(path.contains(path[2]));
    }
    lemma_join_head(parts);
    assert(path[0] == parts[0][0]);
    assert(parts[0].contains(parts[0][0]));
    if text::starts_with(path, "/"@) {
        assert(path.subrange(0, 1)[0] == path[0]);
    }
}

proof fn lemma_join_head(v: Seq<Seq<char>>)
    requires
        v.len() > 0,
        v[0].len() > 0,
    ensures
        pieces::join(v, "/"@).len() > 0,
        pieces::join(v, "/"@)[0] == v[0][0],
    decreases v.len(),
{
    if v.len() > 1 {
        lemma_join_head(v.drop_last());
        assert(pieces::join(v, "/"@)[0] == pieces::join(v.drop_last(), "/"@)[0]);
    }
}

proof fn lemma_no_char(parts: Seq<Seq<char>>, c: char)
    requires
        c != '/',
        forall|k: int| 0 <= k < parts.len() ==> is_step_down(#[trigger] parts[k]),
        c == '\\',
    ensures
        !pieces::join(parts, "/"@).contains(c),
    decreases parts.len(),
{
    reveal_strlit("/");
    let s = pieces::join(parts, "/"@);
    if parts.len() == 1 {
        assert(is_step_down(parts[0]));
    } else if parts.len() > 1 {
        let rest = parts.drop_last();
        assert forall|k: int| 0 <= k < rest.len() implies is_step_down(#[trigger] rest[k]) by {
            assert(rest[k] == parts[k]);
        }
        lemma_no_char(rest, c);
        let head = pieces::join(rest, "/"@);
        let last = parts[parts.len() - 1];
        assert(is_step_down(last));
        if s.contains(c) {
            let k = s.index_of(c);
            if k < head.len() {
                assert(head[k] == c);
            } else if k > head.len() {
                assert(last[k - head.len() - 1] == c);
            }
        }
    }
}

/// A name that leads somewhere, at the end of a path.
pub open spec fn is_plain_name(name: Seq<char>) -> bool {
    name.len() > 0 && !name.contains('/') && name != "."@ && name != ".."@
}

/// The name of a file is what stands behind the last slash of its path, and a slash or a dot behind
/// it does not count.
pub proof fn law_file_has_its_name(parents: Seq<Seq<char>>, name: Seq<char>)
    requires
        is_plain_name(name),
        forall|k: int| 0 <= k < parents.len() ==> !(#[trigger] parents[k]).contains('/'),
    ensures
        paths::name_of(pieces::join(parents + seq![name], "/"@)) == Some(name),
        paths::name_of(pieces::join(parents + seq![name, seq![]], "/"@)) == Some(name),
        paths::name_of(pieces::join(parents + seq![name, "."@], "/"@)) == Some(name),
        paths::name_of(pieces::join(parents + seq![".."@], "/"@)) is None,
{
    reveal_strlit("/");
    reveal_strlit(".");
    reveal_strlit("..");
    assert("/"@ =~= seq!['/']);
    let empty = Seq::<char>::empty();
    let a = parents + seq![name];
    let b = parents + seq![name, empty];
    let c = parents + seq![name, "."@];
    let d = parents + seq![".."@];
    let n = parents.len() as int;
    assert forall|k: int| 0 <= k < a.len() implies !(#[trigger] a[k]).contains('/') by {
        if k < n {
            assert(a[k] == parents[k]);
        }
    }
    assert forall|k: int| 0 <= k < b.len() implies !(#[trigger] b[k]).contains('/') by {
        if k < n {
            assert(b[k] == parents[k]);
        }
    }
    assert forall|k: int| 0 <= k < c.len() implies !(#[trigger] c[k]).contains('/') by {
        if k < n {
            assert(c[k] == parents[k]);
        }
    }
    assert forall|k: int| 0 <= k < d.len() implies !(#[trigger] d[k]).contains('/') by {
        if k < n {
            assert(d[k] == parents[k]);
        }
    }
    target_laws::lemma_split_join(a, '/');
    target_laws::lemma_split_join(b, '/');
    target_laws::lemma_split_join(c, '/');
    target_laws::lemma_split_join(d, '/');
    assert(a[n] == name);
    assert(b[n] == name && b[n + 1] == empty);
    assert(c[n] == name && c[n + 1] == "."@);
    assert(d[n] == ".."@);
    assert(paths::last_name(b, n + 2) == paths::last_name(b, n + 1));
    assert(paths::last_name(c, n + 2) == paths::last_name(c, n + 1));
}

proof fn lemma_parts_lt(dir: Seq<Seq<char>>, x: Seq<Seq<char>>, y: Seq<Seq<char>>)
    ensures
        paths::parts_lt(dir + x, dir + y) == paths::parts_lt(x, y),
    decreases dir.len(),
{
    if dir.len() == 0 {
        assert(dir + x =~= x);
        assert(dir + y =~= y);
    } else {
        let rest = dir.drop_first();
        assert((dir + x).drop_first() =~= rest + x);
        assert((dir + y).drop_first() =~= rest + y);
        lemma_parts_lt(rest, x, y);
    }
}

/// Files in one directory are ordered by their names, and a directory comes before what is in it.
pub proof fn law_paths_are_ordered_by_their_parts(
    dir: Seq<Seq<char>>,
    x: Seq<char>,
    y: Seq<char>,
)
    requires
        dir.len() > 0,
        forall|k: int| 0 <= k < dir.len() ==> !(#[trigger] dir[k]).contains('/'),
        !x.contains('/'),
        !y.contains('/'),
    ensures
        paths::path_lt(
            pieces::join(dir + seq![x], "/"@),
            pieces::join(dir + seq![y], "/"@),
        ) == pieces::text_lt(x, y),
        paths::path_lt(pieces::join(dir, "/"@), pieces::join(dir + seq![x], "/"@)),
        !paths::path_lt(pieces::join(dir + seq![x], "/"@), pieces::join(dir, "/"@)),
{
    reveal_strlit("/");
    assert("/"@ =~= seq!['/']);
    let a = dir + seq![x];
    let b = dir + seq![y];
    assert forall|k: int| 0 <= k < a.len() implies !(#[trigger] a[k]).contains('/') by {
        if k < dir.len() {
            assert(a[k] == dir[k]);
        }
    }
    assert forall|k: int| 0 <= k < b.len() implies !(#[trigger] b[k]).contains('/') by {
        if k < dir.len() {
            assert(b[k] == dir[k]);
        }
    }
    target_laws::lemma_split_join(a, '/');
    target_laws::lemma_split_join(b, '/');
    target_laws::lemma_split_join(dir, '/');
    let none = Seq::<Seq<char>>::empty();
    lemma_parts_lt(dir, seq![x], seq![y]);
    lemma_parts_lt(dir, none, seq![x]);
    lemma_parts_lt(dir, seq![x], none);
    assert(dir + none =~= dir);
    assert(seq![x].drop_first() =~= none);
    assert(seq![y].drop_first() =~= none);
    assert(!paths::parts_lt(none, none));
    if x == y {
        set_laws::lemma_text_order_total(x, y);
        assert(paths::parts_lt(seq![x], seq![y]) == paths::parts_lt(none, none));
    }
}

/// A spec file has a name before its ending.
pub proof fn law_spec_file_has_a_name(stem: Seq<char>)
    ensures
        paths::spec_file(stem + ".spec"@) <==> stem.len() > 0,
{
    reveal_strlit(".spec");
    lemma_ending(stem, ".spec"@, ".spec"@);
}

/// The name of a directory for a text has an underscore for each character that may not stand in
/// it, and the others as they are.
pub proof fn law_segment_keeps_what_it_can(s: Seq<char>, i: int)
    requires
        0 <= i < s.len(),
    ensures
        resources::path_segment(s).len() == s.len(),
        resources::path_segment(s)[i] == s[i] || resources::path_segment(s)[i] == '_',
        text::is_ascii_letter(s[i]) || text::is_ascii_digit(s[i]) || s[i] == '.' || s[i] == '_'
            || s[i] == '-' ==> resources::path_segment(s)[i] == s[i],
{
}

/// The slot that is taken is the first that is free.
pub proof fn law_first_free_slot_is_taken(used: Seq<bool>, i: int)
    requires
        0 <= i <= used.len(),
    ensures
        i <= resources::free_slot(used, i) <= used.len(),
        forall|k: int| i <= k < resources::free_slot(used, i) ==> #[trigger] used[k],
        resources::free_slot(used, i) < used.len() ==> !used[resources::free_slot(used, i)],
    decreases used.len() - i,
{
    if i < used.len() && used[i] {
        law_first_free_slot_is_taken(used, i + 1);
    }
}

/// What follows a flag among arguments.
pub open spec fn has_option(args: Seq<Seq<char>>, flag: Seq<char>, value: Seq<char>) -> bool {
    exists|i: int|
        0 <= i && i + 1 < args.len() && #[trigger] args[i] == flag && args[i + 1] == value
}

/// A build is for the repository, the architecture and the spec that are given, in this order, in
/// the build root and with the project that are given, and with no other options of these.
pub proof fn law_build_is_for_what_is_given(
    repository: Seq<char>,
    arch: Seq<char>,
    spec_path: Seq<char>,
    project: Option<Seq<char>>,
    root: Option<Seq<char>>,
) -> (i: int)
    ensures
        ({
            let args = obs_local::build_arguments(repository, arch, spec_path, project, root);
            &&& args[0] == "build"@
            &&& 0 <= i
            &&& i + 2 < args.len()
            &&& args[i] == repository
            &&& args[i + 1] == arch
            &&& args[i + 2] == spec_path
            &&& root matches Some(r) ==> has_option(args, "--root"@, r)
            &&& project matches Some(p) ==> has_option(args, "--alternative-project"@, p)
            &&& args.len() == 8 + (if root is Some {
                2int
            } else {
                0
            }) + if project is Some {
                2int
            } else {
                0
            }
        }),
{
    let args = obs_local::build_arguments(repository, arch, spec_path, project, root);
    let i = if root is Some {
        7int
    } else {
        5int
    };
    if let Some(r) = root {
        assert(args[3] == "--root"@ && args[4] == r);
    }
    if let Some(p) = project {
        assert(args[i + 3] == "--alternative-project"@ && args[i + 4] == p);
    }
    i
}

/// A checkout is of the package in the project, or of the whole project.
pub proof fn law_checkout_is_of_the_package(project: Seq<char>, package: Seq<char>)
    ensures
        obs_local::checkout_arguments(project, Some(package))[1] == project + "/"@ + package,
        obs_local::checkout_arguments(project, None)[1] == project,
        obs_local::checkout_arguments(project, Some(package))[0] == "checkout"@,
        obs_local::checkout_arguments(project, None)[0] == "checkout"@,
{
}

/// What a service has made is renamed to what stands behind the last colon of its name; other files
/// keep their names, and the description of the services goes.
pub proof fn law_service_files_lose_their_mark(mark: Seq<char>, name: Seq<char>)
    requires
        !name.contains(':'),
    ensures
        obs_local::entry_fix(mark + ":"@ + name) == FixModel::Rename(name),
        obs_local::entry_fix("_service"@) == FixModel::Remove,
        name != "_service"@ ==> obs_local::entry_fix(name) == FixModel::Keep,
{
    reveal_strlit(":");
    reveal_strlit("_service");
    let s = mark + ":"@ + name;
    let n = mark.len() as int;
    text::lemma_last_index_of(s, ':', s.len() as int);
    let k = text::last_index_of(s, ':', s.len() as int);
    assert(s[n] == ':');
    if k > n {
        assert(s[k] == name[k - n - 1]);
        assert(name.contains(name[k - n - 1]));
    }
    assert(s.skip(n + 1) =~= name);
    if s == "_service"@ {
        assert("_service"@[n] == ':');
    }
    text::lemma_last_index_of(name, ':', name.len() as int);
    let j = text::last_index_of(name, ':', name.len() as int);
    if j >= 0 {
        assert(name.contains(name[j]));
    }
}

/// A path below a directory is that of the directory, a slash and the name; an absolute one stands
/// for itself.
pub proof fn law_paths_are_joined(base: Seq<char>, name: Seq<char>)
    requires
        name.len() > 0,
    ensures
        name[0] == '/' ==> pieces::path_join(base, name) == name,
        name[0] != '/' && base.len() > 0 && base.last() != '/' ==> pieces::path_join(base, name)
            == base + "/"@ + name,
        name[0] != '/' && base.len() > 0 && base.last() == '/' ==> pieces::path_join(base, name)
            == base + name,
        name[0] != '/' && base.len() == 0 ==> pieces::path_join(base, name) == name,
{
    if base.len() == 0 {
        assert(base + name =~= name);
    }
}

/// A number is written in digits that stand for it, without a zero in front.
pub proof fn law_numbers_are_written_in_digits(n: nat)
    ensures
        versions::digits_value(pieces::decimal(n)) == n,
        pieces::decimal(n).len() > 0,
        forall|i: int|
            0 <= i < pieces::decimal(n).len() ==> text::is_ascii_digit(
                #[trigger] pieces::decimal(n)[i],
            ),
        n > 0 ==> pieces::decimal(n)[0] != '0',
    decreases n,
{
    version_laws::lemma_decimal(n);
    if n >= 10 {
        law_numbers_are_written_in_digits(n / 10);
        assert(pieces::decimal(n)[0] == pieces::decimal(n / 10)[0]);
    }
}

/// The number of an attempt is written with three digits at least.
pub proof fn law_attempts_have_three_digits(n: nat)
    ensures
        pieces::decimal3(n).len() >= 3,
        text::ends_with(pieces::decimal3(n), pieces::decimal(n)),
        n >= 100 ==> pieces::decimal3(n) == pieces::decimal(n),
        n < 1000 ==> pieces::decimal3(n).len() == 3,
        n < 100 ==> pieces::decimal3(n)[0] == '0',
{
    reveal_strlit("00");
    reveal_strlit("0");
    reveal_with_fuel(pieces::decimal, 4);
    let d = pieces::decimal(n);
    let s = pieces::decimal3(n);
    if n < 10 {
        lemma_ending("00"@, d, d);
    } else if n < 100 {
        lemma_ending("0"@, d, d);
    } else {
        assert(s.subrange(0, s.len() as int) =~= d);
    }
}

} // verus!
