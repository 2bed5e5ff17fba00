//! Laws of fixes: what a fix for an issue does to a spec is what the issue asks for.
use vstd::prelude::*;

use crate::file_laws;
use crate::fixer;
use crate::install_laws;
use crate::issue::{ActionModel, IssueModel};
use crate::line_laws;
use crate::patterns;
use crate::pieces;
use crate::requirement_laws;
use crate::section_laws;
use crate::spec_laws;
use crate::specfile;
use crate::text;

verus! {

/// What is done about an issue, applied to a spec.
pub open spec fn cured(s: Seq<char>, issue: IssueModel) -> Seq<char> {
    fixer::applied(s, fixer::action_for(issue))
}

/// A line that requires what `dep` requires, in whatever version.
pub open spec fn requires_same(line: Seq<char>, dep: Seq<char>) -> bool {
    &&& text::starts_with(line, "BuildRequires:"@)
    &&& patterns::before_operator(text::trim(line.skip(14))) == patterns::before_operator(
        text::trim(dep),
    )
}

/// A requirement that was missing is required by a line of the spec afterwards.
pub proof fn law_missing_requirement_is_required(
    s: Seq<char>,
    deps: Seq<Seq<char>>,
    i: int,
) -> (k: int)
    requires
        forall|j: int| 0 <= j < deps.len() ==> !text::trim(#[trigger] deps[j]).contains('\n'),
        0 <= i < deps.len(),
        text::trim(deps[i]).len() > 0,
    ensures
        ({
            let t = pieces::lines(cured(s, IssueModel::MissingBuildDependencies { deps }));
            0 <= k < t.len() && requires_same(t[k], deps[i])
        }),
{
    requirement_laws::law_requirements_are_added_once(s, deps);
    let t = pieces::lines(specfile::with_buildrequires(s, deps));
    let k = choose|k: int|
        0 <= k < t.len() && requirement_laws::same_requirement(#[trigger] t[k], deps[i]);
    reveal_strlit("BuildRequires:");
    let rest = t[k].skip(14);
    line_laws::lemma_trim(rest);
    k
}

/// Every line of the fixed spec was there, or requires what was missing and no line required.
pub proof fn law_only_missing_requirements_are_added(s: Seq<char>, deps: Seq<Seq<char>>, k: int)
    requires
        forall|j: int| 0 <= j < deps.len() ==> !text::trim(#[trigger] deps[j]).contains('\n'),
        0 <= k < pieces::lines(cured(s, IssueModel::MissingBuildDependencies { deps })).len(),
    ensures
        ({
            let v = pieces::lines(s);
            let line = pieces::lines(cured(s, IssueModel::MissingBuildDependencies { deps }))[k];
            ||| exists|j: int|
                0 <= j < v.len() && text::trim_end(#[trigger] v[j]) == text::trim_end(line)
            ||| exists|i: int|
                0 <= i < deps.len() && requires_same(line, #[trigger] deps[i]) && line
                    == "BuildRequires:  "@ + text::trim(deps[i]) && forall|j: int|
                    0 <= j < v.len() ==> !requires_same(#[trigger] v[j], deps[i])
        }),
{
    let v = pieces::lines(s);
    let out = specfile::with_buildrequires(s, deps);
    let t = pieces::lines(out);
    let line = t[k];
    requirement_laws::law_requirements_are_added_once(s, deps);
    let added = specfile::new_requirements(specfile::known_requirements(v), deps);
    reveal_strlit("BuildRequires:");
    reveal_strlit("BuildRequires:  ");
    if added.len() == 0 {
        assert(v[k] == line);
    } else {
        let at = specfile::requirement_place(v);
        let more = pieces::prefix_each("BuildRequires:  "@, added);
        let all = specfile::with_lines(v, at, more);
        lemma_requirement_place(v);
        line_laws::lemma_tidy(all);
        assert(t == specfile::tidy(all));
        assert(line == text::trim_end(all[k]));
        if k < at {
            assert(all[k] == v[k]);
            line_laws::lemma_trim_end_twice(v[k]);
        } else if k >= at + more.len() {
            assert(all[k] == v[k - more.len()]);
            line_laws::lemma_trim_end_twice(v[k - more.len()]);
        } else {
            let a = added[k - at];
            assert(all[k] == more[k - at]);
            let i = choose|i: int|
                0 <= i < deps.len() && a == text::trim(#[trigger] deps[i]);
            line_laws::lemma_trim(deps[i]);
            spec_laws::lemma_new_from(specfile::known_requirements(v), deps, k - at);
            assert(a.len() > 0);
            assert(all[k].last() == a.last());
            line_laws::lemma_trim_end_is(all[k], all[k].len() as int);
            assert(all[k].take(all[k].len() as int) =~= all[k]);
            assert(line == "BuildRequires:  "@ + a);
            assert(line.subrange(0, 14) =~= "BuildRequires:"@);
            let two = line.skip(14);
            assert(two =~= two.take(2) + a + Seq::<char>::empty());
            line_laws::lemma_trim_around(two.take(2), a, Seq::empty());
            assert(requires_same(line, deps[i]));
            assert forall|j: int| 0 <= j < v.len() implies !requires_same(
                #[trigger] v[j],
                deps[i],
            ) by {
                assert(!requirement_laws::same_requirement(v[j], added[k - at]));
                line_laws::lemma_trim(v[j].skip(14));
            }
        }
    }
}

proof fn lemma_line_before(v: Seq<Seq<char>>, prefix: Seq<char>, j: int)
    requires
        0 <= j <= v.len(),
    ensures
        -1 <= specfile::line_before(v, prefix, j) < j || (j == 0 && specfile::line_before(
            v,
            prefix,
            j,
        ) == -1),
        forall|k: int|
            specfile::line_before(v, prefix, j) < k < j ==> !text::starts_with(
                #[trigger] v[k],
                prefix,
            ),
        specfile::line_before(v, prefix, j) >= 0 ==> text::starts_with(
            v[specfile::line_before(v, prefix, j)],
            prefix,
        ),
    decreases j,
{
    if j > 0 && !text::starts_with(v[j - 1], prefix) {
        lemma_line_before(v, prefix, j - 1);
    }
}

/// `at` is right behind the last line that starts with `prefix`.
pub open spec fn behind_last(v: Seq<Seq<char>>, prefix: Seq<char>, at: int) -> bool {
    &&& 0 < at <= v.len()
    &&& text::starts_with(v[at - 1], prefix)
    &&& forall|k: int| at <= k < v.len() ==> !text::starts_with(#[trigger] v[k], prefix)
}

/// `at` is right behind the first line that starts with `prefix`.
pub open spec fn behind_first(v: Seq<Seq<char>>, prefix: Seq<char>, at: int) -> bool {
    &&& 0 < at <= v.len()
    &&& text::starts_with(v[at - 1], prefix)
    &&& forall|k: int| 0 <= k < at - 1 ==> !text::starts_with(#[trigger] v[k], prefix)
}

/// `at` is the first line that starts with `prefix`, the end where there is none.
pub open spec fn before_first(v: Seq<Seq<char>>, prefix: Seq<char>, at: int) -> bool {
    &&& 0 <= at <= v.len()
    &&& at < v.len() ==> text::starts_with(v[at], prefix)
    &&& forall|k: int| 0 <= k < at ==> !text::starts_with(#[trigger] v[k], prefix)
}

pub open spec fn none_starts_with(v: Seq<Seq<char>>, prefix: Seq<char>) -> bool {
    forall|k: int| 0 <= k < v.len() ==> !text::starts_with(#[trigger] v[k], prefix)
}

proof fn lemma_requirement_place(v: Seq<Seq<char>>)
    ensures
        0 <= specfile::requirement_place(v) <= v.len(),
        behind_last(v, "BuildRequires:"@, specfile::requirement_place(v)) || (none_starts_with(
            v,
            "BuildRequires:"@,
        ) && before_first(v, "%"@, specfile::requirement_place(v))),
{
    lemma_line_before(v, "BuildRequires:"@, v.len() as int);
    spec_laws::lemma_line_from(v, "%"@, 0);
}

/// New requirements join those that are there: they follow the last one, and where there is none
/// they stand before the first macro.
pub proof fn law_requirements_stand_together(s: Seq<char>, deps: Seq<Seq<char>>) -> (r: (
    int,
    Seq<Seq<char>>,
))
    ensures
        ({
            let v = pieces::lines(s);
            let (at, more) = r;
            &&& 0 <= at <= v.len()
            &&& behind_last(v, "BuildRequires:"@, at) || (none_starts_with(v, "BuildRequires:"@)
                && before_first(v, "%"@, at))
            &&& forall|k: int|
                0 <= k < more.len() ==> text::starts_with(#[trigger] more[k], "BuildRequires:  "@)
            &&& cured(s, IssueModel::MissingBuildDependencies { deps }) == if more.len() == 0 {
                s
            } else {
                specfile::text_of(v.take(at) + more + v.skip(at))
            }
        }),
{
    let v = pieces::lines(s);
    lemma_requirement_place(v);
    let added = specfile::new_requirements(specfile::known_requirements(v), deps);
    let more = pieces::prefix_each("BuildRequires:  "@, added);
    assert forall|k: int| 0 <= k < more.len() implies text::starts_with(
        #[trigger] more[k],
        "BuildRequires:  "@,
    ) by {
        file_laws::lemma_prefix("BuildRequires:  "@, added[k]);
    }
    (specfile::requirement_place(v), more)
}

/// New check options join those that are there, else they follow the first install option, else
/// the build system, and else they stand before the first macro.
pub proof fn law_check_options_stand_together(s: Seq<char>, exclusions: Seq<Seq<char>>) -> (r: (
    int,
    Seq<Seq<char>>,
))
    ensures
        ({
            let v = pieces::lines(s);
            let (at, more) = r;
            let after = fixer::applied(
                s,
                ActionModel::AddBuildOptionCheckExcludes { patterns: exclusions, reason: seq![] },
            );
            &&& 0 <= at <= v.len()
            &&& behind_last(v, "BuildOption(check):"@, at) || none_starts_with(
                v,
                "BuildOption(check):"@,
            )
            &&& behind_last(v, "BuildOption(check):"@, at) || behind_first(
                v,
                "BuildOption(install):"@,
                at,
            ) || none_starts_with(v, "BuildOption(install):"@)
            &&& behind_last(v, "BuildOption(check):"@, at) || behind_first(
                v,
                "BuildOption(install):"@,
                at,
            ) || behind_first(v, "BuildSystem:"@, at) || (none_starts_with(v, "BuildSystem:"@)
                && before_first(v, "%"@, at))
            &&& forall|k: int|
                0 <= k < more.len() ==> exists|e: Seq<char>|
                    #[trigger] more[k] == #[trigger] ("BuildOption(check):  -e \""@ + e + "\""@)
            &&& after == if more.len() == 0 {
                s
            } else {
                specfile::text_of(v.take(at) + more + v.skip(at))
            }
        }),
{
    let v = pieces::lines(s);
    lemma_line_before(v, "BuildOption(check):"@, v.len() as int);
    spec_laws::lemma_line_from(v, "BuildOption(install):"@, 0);
    spec_laws::lemma_line_from(v, "BuildSystem:"@, 0);
    spec_laws::lemma_line_from(v, "%"@, 0);
    let existing = specfile::exclusions_of(v);
    let more = specfile::check_options(existing, exclusions);
    assert forall|k: int| 0 <= k < more.len() implies exists|e: Seq<char>|
        #[trigger] more[k] == #[trigger] ("BuildOption(check):  -e \""@ + e + "\""@) by {
        let i = spec_laws::lemma_check_options_from(existing, exclusions, k);
        let e = text::trim(exclusions[i]);
        assert(more[k] == "BuildOption(check):  -e \""@ + e + "\""@);
    }
    (specfile::check_place(v), more)
}

/// A line tells the import check to leave out what covers `e`: it names `e`, or a start of `e`
/// with `.*` behind.
pub open spec fn tells_to_leave_out(line: Seq<char>, e: Seq<char>) -> bool {
    exists|k: int, x: Seq<char>| #[trigger]
        spec_laws::excludes(line, k, x) && (x == e || exists|p: Seq<char>|
            x == #[trigger] (p + ".*"@) && text::starts_with(e, p))
}

/// Modules that an import check cannot import are left out of it afterwards.
pub proof fn law_failed_import_is_left_out(
    s: Seq<char>,
    modules: Seq<Seq<char>>,
    missing_modules: Seq<Seq<char>>,
    exclusions: Seq<Seq<char>>,
    i: int,
) -> (k: int)
    requires
        forall|j: int|
            0 <= j < exclusions.len() ==> !text::trim(#[trigger] exclusions[j]).contains('\n')
                && !text::trim(exclusions[j]).contains('"'),
        0 <= i < exclusions.len(),
        text::trim(exclusions[i]).len() > 0,
    ensures
        ({
            let t = pieces::lines(
                cured(
                    s,
                    IssueModel::ImportCheckExclusions { modules, missing_modules, exclusions },
                ),
            );
            0 <= k < t.len() && tells_to_leave_out(t[k], text::trim(exclusions[i]))
        }),
{
    let out = specfile::with_checks(s, exclusions);
    let t = pieces::lines(out);
    let e = text::trim(exclusions[i]);
    spec_laws::law_exclusions_are_met(s, exclusions);
    let all = specfile::exclusions_of(t);
    assert(spec_laws::is_excluded(all, exclusions[i]));
    let j = choose|j: int| 0 <= j < all.len() && specfile::covers(#[trigger] all[j], e);
    let x = all[j];
    assert(all.contains(x));
    line_laws::lemma_lines_hold_no_line_feed(out, 0);
    let (k, n) = spec_laws::lemma_exclusions_from(t, x);
    if x != e {
        let p = text::strip_suffix(x, ".*"@)->0;
        assert(x =~= p + ".*"@);
        assert(text::starts_with(e, p));
    }
    assert(spec_laws::excludes(t[k], n, x));
    k
}

/// Files that no package held are listed afterwards, under entries that stand for them.
pub proof fn law_unpackaged_file_is_packaged(s: Seq<char>, files: Seq<Seq<char>>, i: int)
    requires
        forall|k: int| 0 <= k < files.len() ==> !text::trim(#[trigger] files[k]).contains('\n'),
        0 <= i < files.len(),
        text::starts_with(text::trim(files[i]), "/"@),
    ensures
        exists|e: Seq<char>| #[trigger]
            section_laws::lists(
                cured(s, IssueModel::InstalledButUnpackagedFiles { files }),
                e,
            ) && file_laws::expanded(e) == text::trim(files[i]),
{
    file_laws::law_files_are_packaged(s, files, i);
    let e = choose|e: Seq<char>| #[trigger]
        section_laws::lists(specfile::with_files(s, files), e) && file_laws::expanded(e)
            == text::trim(files[i]);
    assert(section_laws::lists(cured(s, IssueModel::InstalledButUnpackagedFiles { files }), e));
}

/// A spec whose package holds binaries is no longer for every architecture.
pub proof fn law_arch_dependent_spec_is_not_noarch(s: Seq<char>, k: int)
    requires
        0 <= k < pieces::lines(cured(s, IssueModel::ArchDependentInNoarch)).len(),
    ensures
        !patterns::is_noarch(pieces::lines(cured(s, IssueModel::ArchDependentInNoarch))[k]),
{
    section_laws::law_noarch_is_gone(s);
}

/// A spec whose package holds binaries names what it provides, with the architecture, and keeps
/// its other lines.
pub proof fn law_arch_dependent_spec_provides(s: Seq<char>)
    ensures
        ({
            let v = pieces::lines(s);
            let t = pieces::lines(cured(s, IssueModel::ArchDependentInNoarch));
            &&& t.contains("Provides:       python3-%{srcname} = %{version}-%{release}"@)
            &&& t.contains("Provides:       python3-%{srcname}%{?_isa} = %{version}-%{release}"@)
            &&& t.contains("%python_provide python3-%{srcname}"@)
            &&& forall|j: int|
                0 <= j < v.len() && text::trim_end(#[trigger] v[j]).len() > 0
                    && !patterns::is_noarch(v[j]) && !text::starts_with(
                    v[j],
                    "Provides:       python3-%{srcname}"@,
                ) && !text::starts_with(v[j], "%python_provide python3-%{srcname}"@)
                    ==> t.contains(text::trim_end(v[j]))
        }),
{
    let v = pieces::lines(s);
    let w = specfile::arch_lines(v);
    let p = specfile::arch_provides();
    let at = specfile::provides_place(w);
    line_laws::lemma_lines_hold_no_line_feed(s, 0);
    section_laws::lemma_provides_place(w);
    let all = specfile::with_lines(w, at, p);
    spec_laws::lemma_with_lines(w, at, p);
    assert forall|j: int| 0 <= j < w.len() implies !(#[trigger] w[j]).contains('\n') by {
        let i = lemma_arch_line_from(v, j);
        assert(!v[i].contains('\n'));
    }
    section_laws::lemma_arch_provides();
    line_laws::lemma_lines_of_text(all);
    line_laws::lemma_tidy(all);
    let t = specfile::tidy(all);
    lemma_provides_are_tidy();
    assert forall|k: int| 0 <= k < all.len() && text::trim_end(
        #[trigger] all[k],
    ).len() > 0 implies t.contains(text::trim_end(all[k])) by {
        assert(k < t.len());
        assert(t[k] == text::trim_end(all[k]));
    }
    assert(all[at + 0] == p[0] && all[at + 1] == p[1] && all[at + 2] == p[2]);
    assert(t.len() > 0) by {
        assert(t.contains(text::trim_end(all[at + 0])));
    }
    assert(pieces::lines(cured(s, IssueModel::ArchDependentInNoarch)) == t);
    assert forall|j: int|
        0 <= j < v.len() && text::trim_end(#[trigger] v[j]).len() > 0 && !patterns::is_noarch(v[j])
            && !text::starts_with(v[j], "Provides:       python3-%{srcname}"@)
            && !text::starts_with(
            v[j],
            "%python_provide python3-%{srcname}"@,
        ) implies t.contains(text::trim_end(v[j])) by {
        let i = lemma_arch_line_stays(v, j);
        let m = spec_laws::moved(i, at, p.len());
        assert(all[m] == w[i]);
    }
}

proof fn lemma_provides_are_tidy()
    ensures
        forall|i: int|
            0 <= i < specfile::arch_provides().len() ==> text::trim_end(
                #[trigger] specfile::arch_provides()[i],
            ) == specfile::arch_provides()[i] && specfile::arch_provides()[i].len() > 0,
        specfile::arch_provides().len() == 3,
{
    reveal_strlit("Provides:       python3-%{srcname} = %{version}-%{release}");
    reveal_strlit("Provides:       python3-%{srcname}%{?_isa} = %{version}-%{release}");
    reveal_strlit("%python_provide python3-%{srcname}");
    assert forall|i: int| 0 <= i < specfile::arch_provides().len() implies text::trim_end(
        #[trigger] specfile::arch_provides()[i],
    ) == specfile::arch_provides()[i] && specfile::arch_provides()[i].len() > 0 by {
        let x = specfile::arch_provides()[i];
        line_laws::lemma_trim_end_is(x, x.len() as int);
        assert(x.take(x.len() as int) =~= x);
    }
}

proof fn lemma_arch_line_from(v: Seq<Seq<char>>, j: int) -> (i: int)
    requires
        0 <= j < specfile::arch_lines(v).len(),
    ensures
        0 <= i < v.len(),
        specfile::arch_lines(v)[j] == v[i],
    decreases v.len(),
{
    if j < specfile::arch_lines(v.drop_last()).len() {
        lemma_arch_line_from(v.drop_last(), j)
    } else {
        v.len() - 1
    }
}

proof fn lemma_arch_line_stays(v: Seq<Seq<char>>, j: int) -> (i: int)
    requires
        0 <= j < v.len(),
        !patterns::is_noarch(v[j]),
        !specfile::is_python_provide(v[j]),
    ensures
        0 <= i < specfile::arch_lines(v).len(),
        specfile::arch_lines(v)[i] == v[j],
    decreases v.len(),
{
    let rest = v.drop_last();
    if j < rest.len() {
        lemma_arch_line_stays(rest, j)
    } else {
        specfile::arch_lines(rest).len() as int
    }
}

/// The arguments of the install step of a spec.
pub open spec fn install_step(s: Seq<char>) -> Option<Seq<Seq<char>>> {
    match patterns::tagged_option(s, "BuildOption(install):"@) {
        Some((_, args)) => Some(patterns::arguments(args)),
        None => None,
    }
}

/// A spec without license metadata is installed with `-L` afterwards, and with the arguments that
/// it was installed with.
pub proof fn law_license_option_is_set(s: Seq<char>)
    requires
        install_laws::option_stands_first(s),
        install_step(s) is Some,
    ensures
        ({
            let before = install_step(s)->0;
            let after = install_step(cured(s, IssueModel::MissingPep639LicenseMetadata))->0;
            &&& install_step(cured(s, IssueModel::MissingPep639LicenseMetadata)) is Some
            &&& after.contains("-L"@)
            &&& after == before || after == before.push("-L"@)
        }),
{
    reveal_strlit("-L");
    assert(install_laws::is_plain_word("-L"@));
    install_laws::law_install_args_are_read_back(s, "-L"@);
    let before = install_step(s)->0;
    spec_laws::lemma_push_contains(before, "-L"@, "-L"@);
}

/// A spec whose install step looked for the wrong module looks for the suggested one afterwards:
/// it stands behind the first `-l`, and the other arguments stay.
pub proof fn law_module_is_looked_for(
    s: Seq<char>,
    wrong_module: Seq<char>,
    module: Seq<char>,
) -> (i: int)
    requires
        install_laws::option_stands_first(s),
        install_step(s) is Some,
        install_laws::is_plain_word(module),
        module != "-L"@,
    ensures
        ({
            let issue = IssueModel::InstallModuleMismatch {
                wrong_module,
                suggested_module: module,
            };
            let before = install_step(s)->0;
            let after = install_step(cured(s, issue))->0;
            &&& install_step(cured(s, issue)) is Some
            &&& 0 <= i
            &&& i + 1 < after.len()
            &&& after[i] == "-l"@
            &&& after[i + 1] == module
            &&& forall|k: int| 0 <= k < i ==> #[trigger] after[k] == before[k]
            &&& forall|k: int| 0 <= k < i && k + 1 < before.len() ==> #[trigger] before[k] != "-l"@
            &&& forall|k: int| i + 1 < k < after.len() ==> #[trigger] after[k] == before[k]
            &&& after.len() == before.len() || (after.len() == before.len() + 2 && i
                == before.len())
        }),
{
    install_laws::law_install_args_are_read_back(s, module);
    let before = install_step(s)->0;
    lemma_module_flag(before, 0);
    specfile::module_flag(before, 0)
}

proof fn lemma_module_flag(args: Seq<Seq<char>>, i: int)
    requires
        0 <= i <= args.len(),
    ensures
        i <= specfile::module_flag(args, i) <= args.len(),
        forall|k: int|
            i <= k < specfile::module_flag(args, i) && k + 1 < args.len() ==> #[trigger] args[k]
                != "-l"@,
        specfile::module_flag(args, i) < args.len() ==> specfile::module_flag(args, i) + 1
            < args.len() && args[specfile::module_flag(args, i)] == "-l"@,
    decreases args.len() - i,
{
    if i < args.len() && !(args[i] == "-l"@ && i + 1 < args.len()) {
        lemma_module_flag(args, i + 1);
    }
}

/// A spec whose import check had nothing to import has a check section of its own afterwards,
/// before its file list, else before its changelog, else at its end.
pub proof fn law_check_section_is_set(s: Seq<char>) -> (r: (int, Seq<Seq<char>>))
    ensures
        ({
            let v = pieces::lines(s);
            let out = cured(s, IssueModel::EmptyImportCheck);
            let t = pieces::lines(out);
            let (at, block) = r;
            &&& exists|k: int| 0 <= k < t.len() && text::trim(#[trigger] t[k]) == "%check"@
            &&& if exists|k: int| 0 <= k < v.len() && text::trim(#[trigger] v[k]) == "%check"@ {
                out == s
            } else {
                &&& before_first(v, "%files"@, at) || none_starts_with(v, "%files"@)
                &&& (at < v.len() && text::starts_with(v[at], "%files"@)) || before_first(
                    v,
                    "%changelog"@,
                    at,
                )
                &&& block.len() > 0
                &&& block[0] == "%check"@
                &&& forall|k: int|
                    0 < k < block.len() ==> (#[trigger] block[k]).len() == 0 || block[k][0] == '#'
                &&& out == specfile::text_of(v.take(at) + block + v.skip(at))
            }
        }),
{
    let v = pieces::lines(s);
    let comment = "No importable runtime modules for default import check."@;
    section_laws::law_check_section_is_there(s, comment);
    spec_laws::lemma_line_from(v, "%files"@, 0);
    spec_laws::lemma_line_from(v, "%changelog"@, 0);
    let t = pieces::lines(specfile::with_check_section(s, comment));
    let k = pieces::trim_each(t).index_of("%check"@);
    assert(pieces::trim_each(t)[k] == text::trim(t[k]));
    if exists|k: int| 0 <= k < v.len() && text::trim(#[trigger] v[k]) == "%check"@ {
        let j = choose|j: int| 0 <= j < v.len() && text::trim(#[trigger] v[j]) == "%check"@;
        assert(pieces::trim_each(v)[j] == "%check"@);
    } else {
        if specfile::has_check(v) {
            let j = pieces::trim_each(v).index_of("%check"@);
            assert(pieces::trim_each(v)[j] == text::trim(v[j]));
        }
        reveal_strlit("# ");
    }
    (specfile::check_section_place(v), specfile::check_section(comment))
}

/// Whatever else fails is left to a person, with the issue as it was found; so are requirements
/// that no package provides.
pub proof fn law_other_issues_need_a_person(issue: IssueModel)
    requires
        !(issue is MissingBuildDependencies),
        !(issue is ImportCheckExclusions),
        !(issue is EmptyImportCheck),
        !(issue is InstalledButUnpackagedFiles),
        !(issue is ArchDependentInNoarch),
        !(issue is MissingPep639LicenseMetadata),
        !(issue is InstallModuleMismatch),
    ensures
        fixer::action_for(issue) is NeedHuman,
        fixer::action_for(issue)->NeedHuman_issue == issue,
{
}

/// No other issue does.
pub proof fn law_known_issues_are_fixed(issue: IssueModel)
    ensures
        fixer::action_for(issue) is NeedHuman ==> !(issue is MissingBuildDependencies) && !(
        issue is ImportCheckExclusions) && !(issue is EmptyImportCheck) && !(
        issue is InstalledButUnpackagedFiles) && !(issue is ArchDependentInNoarch) && !(
        issue is MissingPep639LicenseMetadata) && !(issue is InstallModuleMismatch),
        !(fixer::action_for(issue) is NoOp),
{
}

} // verus!
