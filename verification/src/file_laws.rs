//! Laws of what the entries of a file list stand for.
use vstd::prelude::*;

use crate::line_laws;
use crate::pieces;
use crate::section_laws;
use crate::set_laws;
use crate::spec_laws;
use crate::specfile;
use crate::text;

verus! {

/// `entry` with `dir` in place of `name` at its start, where it starts with that.
pub open spec fn with_dir(entry: Seq<char>, name: Seq<char>, dir: Seq<char>) -> Seq<char> {
    if text::starts_with(entry, name) {
        dir + entry.skip(name.len() as int)
    } else {
        entry
    }
}

/// The path that an entry stands for: the macros are those of the directories that RPM defines.
pub open spec fn expanded(entry: Seq<char>) -> Seq<char> {
    if text::starts_with(entry, "%{_bindir}"@) {
        with_dir(entry, "%{_bindir}"@, "/usr/bin"@)
    } else if text::starts_with(entry, "%{_sbindir}"@) {
        with_dir(entry, "%{_sbindir}"@, "/usr/sbin"@)
    } else if text::starts_with(entry, "%{_libexecdir}"@) {
        with_dir(entry, "%{_libexecdir}"@, "/usr/libexec"@)
    } else if text::starts_with(entry, "%{_mandir}"@) {
        with_dir(entry, "%{_mandir}"@, "/usr/share/man"@)
    } else if text::starts_with(entry, "%{_datadir}"@) {
        with_dir(entry, "%{_datadir}"@, "/usr/share"@)
    } else if text::starts_with(entry, "%{_sysconfdir}"@) {
        with_dir(entry, "%{_sysconfdir}"@, "/etc"@)
    } else if text::starts_with(entry, "%{_includedir}"@) {
        with_dir(entry, "%{_includedir}"@, "/usr/include"@)
    } else if text::starts_with(entry, "%{_libdir}"@) {
        with_dir(entry, "%{_libdir}"@, "/usr/lib64"@)
    } else if text::starts_with(entry, "%{_prefix}"@) {
        with_dir(entry, "%{_prefix}"@, "/usr"@)
    } else {
        entry
    }
}

pub proof fn lemma_not_prefix(s: Seq<char>, p: Seq<char>, i: int)
    requires
        0 <= i < p.len(),
        i < s.len() ==> s[i] != p[i],
    ensures
        !text::starts_with(s, p),
{
    if text::starts_with(s, p) {
        assert(s.subrange(0, p.len() as int)[i] == s[i]);
    }
}

pub proof fn lemma_prefix(p: Seq<char>, rest: Seq<char>)
    ensures
        text::starts_with(p + rest, p),
        text::strip_prefix(p + rest, p) == Some(rest),
{
    assert((p + rest).subrange(0, p.len() as int) =~= p);
    assert((p + rest).skip(p.len() as int) =~= rest);
}

proof fn lemma_dirs()
    ensures
        "/usr/bin/"@ =~= seq!['/', 'u', 's', 'r', '/', 'b', 'i', 'n', '/'],
        "/usr/sbin/"@ =~= seq!['/', 'u', 's', 'r', '/', 's', 'b', 'i', 'n', '/'],
        "/usr/libexec/"@ =~= seq!['/', 'u', 's', 'r', '/', 'l', 'i', 'b', 'e', 'x', 'e', 'c', '/'],
        "/usr/share/man/"@ =~= "/usr/share/"@ + "man/"@,
        "/usr/share/"@ =~= seq!['/', 'u', 's', 'r', '/', 's', 'h', 'a', 'r', 'e', '/'],
        "/etc/"@ =~= seq!['/', 'e', 't', 'c', '/'],
        "/usr/include/"@ =~= seq!['/', 'u', 's', 'r', '/', 'i', 'n', 'c', 'l', 'u', 'd', 'e', '/'],
        "/usr/lib64/"@ =~= seq!['/', 'u', 's', 'r', '/', 'l', 'i', 'b', '6', '4', '/'],
        "/usr/lib/"@ =~= seq!['/', 'u', 's', 'r', '/', 'l', 'i', 'b', '/'],
        "man/"@.len() == 4,
{
    reveal_strlit("/usr/bin/");
    reveal_strlit("/usr/sbin/");
    reveal_strlit("/usr/libexec/");
    reveal_strlit("/usr/share/man/");
    reveal_strlit("/usr/share/");
    reveal_strlit("/etc/");
    reveal_strlit("/usr/include/");
    reveal_strlit("/usr/lib64/");
    reveal_strlit("/usr/lib/");
    reveal_strlit("man/");
}

/// The path starts with none of the directories that `from` does not start with.
proof fn lemma_other_dirs(path: Seq<char>)
    requires
        path.len() >= 6,
        path[0] == '/',
    ensures
        path[1] != 'u' || path[5] != 'b' ==> !text::starts_with(path, "/usr/bin/"@),
        path[1] != 'u' || path[5] != 's' ==> !text::starts_with(path, "/usr/sbin/"@)
            && !text::starts_with(path, "/usr/share/man/"@) && !text::starts_with(
            path,
            "/usr/share/"@,
        ),
        path[1] != 'u' || path[5] != 'l' ==> !text::starts_with(path, "/usr/libexec/"@)
            && !text::starts_with(path, "/usr/lib64/"@) && !text::starts_with(path, "/usr/lib/"@),
        path[1] != 'e' ==> !text::starts_with(path, "/etc/"@),
        path[1] != 'u' || path[5] != 'i' ==> !text::starts_with(path, "/usr/include/"@),
{
    lemma_dirs();
    let a = if path[1] != 'u' {
        1int
    } else {
        5int
    };
    let man = "/usr/share/man/"@;
    assert(man[1] == 'u' && man[5] == 's' && man.len() == 15) by {
        reveal_strlit("/usr/share/man/");
    }
    if path[a] != "/usr/bin/"@[a] {
        lemma_not_prefix(path, "/usr/bin/"@, a);
    }
    if path[a] != "/usr/sbin/"@[a] {
        lemma_not_prefix(path, "/usr/sbin/"@, a);
        lemma_not_prefix(path, "/usr/share/"@, a);
        lemma_not_prefix(path, man, a);
    }
    if path[a] != "/usr/libexec/"@[a] {
        lemma_not_prefix(path, "/usr/libexec/"@, a);
        lemma_not_prefix(path, "/usr/lib64/"@, a);
        lemma_not_prefix(path, "/usr/lib/"@, a);
    }
    if path[1] != 'e' {
        lemma_not_prefix(path, "/etc/"@, 1);
    }
    if path[a] != "/usr/include/"@[a] {
        lemma_not_prefix(path, "/usr/include/"@, a);
    }
}

/// A file below a directory that has a macro is listed under that macro, the longest that fits.
pub proof fn law_entries_have_macros(rest: Seq<char>)
    ensures
        specfile::path_macro("/usr/bin/"@ + rest) == "%{_bindir}/"@ + rest,
        specfile::path_macro("/usr/sbin/"@ + rest) == "%{_sbindir}/"@ + rest,
        specfile::path_macro("/usr/libexec/"@ + rest) == "%{_libexecdir}/"@ + rest,
        specfile::path_macro("/usr/share/man/"@ + rest) == "%{_mandir}/"@ + rest,
        !text::starts_with(rest, "man/"@) ==> specfile::path_macro("/usr/share/"@ + rest)
            == "%{_datadir}/"@ + rest,
        specfile::path_macro("/etc/"@ + rest) == "%{_sysconfdir}/"@ + rest,
        specfile::path_macro("/usr/include/"@ + rest) == "%{_includedir}/"@ + rest,
        specfile::path_macro("/usr/lib64/"@ + rest) == "%{_libdir}/"@ + rest,
        specfile::path_macro("/usr/lib/"@ + rest) == "%{_prefix}/lib/"@ + rest,
{
    lemma_bin_entries(rest);
    lemma_share_entries(rest);
    lemma_lib_entries(rest);
    lemma_etc_entries(rest);
}

proof fn lemma_bin_entries(rest: Seq<char>)
    ensures
        specfile::path_macro("/usr/bin/"@ + rest) == "%{_bindir}/"@ + rest,
        specfile::path_macro("/usr/sbin/"@ + rest) == "%{_sbindir}/"@ + rest,
        specfile::path_macro("/usr/include/"@ + rest) == "%{_includedir}/"@ + rest,
{
    lemma_dirs();
    lemma_prefix("/usr/bin/"@, rest);
    lemma_prefix("/usr/sbin/"@, rest);
    lemma_prefix("/usr/include/"@, rest);
    lemma_other_dirs("/usr/sbin/"@ + rest);
    lemma_other_dirs("/usr/include/"@ + rest);
}

proof fn lemma_share_entries(rest: Seq<char>)
    ensures
        specfile::path_macro("/usr/share/man/"@ + rest) == "%{_mandir}/"@ + rest,
        !text::starts_with(rest, "man/"@) ==> specfile::path_macro("/usr/share/"@ + rest)
            == "%{_datadir}/"@ + rest,
{
    lemma_dirs();
    let man = "/usr/share/man/"@ + rest;
    assert(man[5] == 's' && man[6] == 'h' && man[0] == '/' && man[1] == 'u') by {
        reveal_strlit("/usr/share/man/");
    }
    lemma_prefix("/usr/share/man/"@, rest);
    lemma_other_dirs(man);
    lemma_not_prefix(man, "/usr/sbin/"@, 6);
    let share = "/usr/share/"@ + rest;
    lemma_prefix("/usr/share/"@, rest);
    lemma_other_dirs(share);
    lemma_not_prefix(share, "/usr/sbin/"@, 6);
    if !text::starts_with(rest, "man/"@) && text::starts_with(share, "/usr/share/man/"@) {
        assert(share.subrange(0, 15) == "/usr/share/"@ + "man/"@);
        assert(rest.subrange(0, 4) =~= share.subrange(0, 15).subrange(11, 15));
        assert(share.subrange(0, 15).subrange(11, 15) =~= "man/"@);
    }
}

proof fn lemma_lib_entries(rest: Seq<char>)
    ensures
        specfile::path_macro("/usr/libexec/"@ + rest) == "%{_libexecdir}/"@ + rest,
        specfile::path_macro("/usr/lib64/"@ + rest) == "%{_libdir}/"@ + rest,
        specfile::path_macro("/usr/lib/"@ + rest) == "%{_prefix}/lib/"@ + rest,
{
    lemma_dirs();
    lemma_prefix("/usr/libexec/"@, rest);
    lemma_prefix("/usr/lib64/"@, rest);
    lemma_prefix("/usr/lib/"@, rest);
    let x = "/usr/libexec/"@ + rest;
    let y = "/usr/lib64/"@ + rest;
    let z = "/usr/lib/"@ + rest;
    lemma_other_dirs(x);
    lemma_other_dirs(y);
    lemma_other_dirs(z);
    lemma_not_prefix(y, "/usr/libexec/"@, 8);
    lemma_not_prefix(z, "/usr/libexec/"@, 8);
    lemma_not_prefix(z, "/usr/lib64/"@, 8);
}

proof fn lemma_etc_entries(rest: Seq<char>)
    ensures
        specfile::path_macro("/etc/"@ + rest) == "%{_sysconfdir}/"@ + rest,
{
    lemma_dirs();
    lemma_prefix("/etc/"@, rest);
    let path = "/etc/"@ + rest;
    lemma_not_prefix(path, "/usr/bin/"@, 1);
    lemma_not_prefix(path, "/usr/sbin/"@, 1);
    lemma_not_prefix(path, "/usr/libexec/"@, 1);
    assert("/usr/share/man/"@[1] == 'u' && "/usr/share/man/"@.len() == 15) by {
        reveal_strlit("/usr/share/man/");
    }
    lemma_not_prefix(path, "/usr/share/man/"@, 1);
    lemma_not_prefix(path, "/usr/share/"@, 1);
}

/// A file elsewhere is listed by its path.
pub proof fn law_other_paths_stay(path: Seq<char>)
    requires
        !text::starts_with(path, "/usr/"@),
        !text::starts_with(path, "/etc/"@),
    ensures
        specfile::path_macro(path) == path,
{
    reveal_strlit("/usr/");
    lemma_usr(path, "/usr/bin/"@);
    lemma_usr(path, "/usr/sbin/"@);
    lemma_usr(path, "/usr/libexec/"@);
    lemma_usr(path, "/usr/share/man/"@);
    lemma_usr(path, "/usr/share/"@);
    lemma_usr(path, "/usr/include/"@);
    lemma_usr(path, "/usr/lib64/"@);
    lemma_usr(path, "/usr/lib/"@);
    reveal_strlit("/usr/bin/");
    reveal_strlit("/usr/sbin/");
    reveal_strlit("/usr/libexec/");
    reveal_strlit("/usr/share/man/");
    reveal_strlit("/usr/share/");
    reveal_strlit("/usr/include/");
    reveal_strlit("/usr/lib64/");
    reveal_strlit("/usr/lib/");
    assert("/usr/bin/"@.subrange(0, 5) =~= "/usr/"@);
    assert("/usr/sbin/"@.subrange(0, 5) =~= "/usr/"@);
    assert("/usr/libexec/"@.subrange(0, 5) =~= "/usr/"@);
    assert("/usr/share/man/"@.subrange(0, 5) =~= "/usr/"@);
    assert("/usr/share/"@.subrange(0, 5) =~= "/usr/"@);
    assert("/usr/include/"@.subrange(0, 5) =~= "/usr/"@);
    assert("/usr/lib64/"@.subrange(0, 5) =~= "/usr/"@);
    assert("/usr/lib/"@.subrange(0, 5) =~= "/usr/"@);
}

proof fn lemma_usr(path: Seq<char>, dir: Seq<char>)
    requires
        !text::starts_with(path, "/usr/"@),
    ensures
        dir.len() >= "/usr/"@.len() && dir.subrange(0, "/usr/"@.len() as int) == "/usr/"@
            ==> !text::starts_with(path, dir),
{
    let n = "/usr/"@.len() as int;
    if dir.len() >= n && dir.subrange(0, n) == "/usr/"@ && text::starts_with(path, dir) {
        assert(path.subrange(0, n) =~= path.subrange(0, dir.len() as int).subrange(0, n));
    }
}

proof fn lemma_expands(rest: Seq<char>)
    ensures
        expanded("%{_bindir}/"@ + rest) == "/usr/bin/"@ + rest,
        expanded("%{_sbindir}/"@ + rest) == "/usr/sbin/"@ + rest,
        expanded("%{_libexecdir}/"@ + rest) == "/usr/libexec/"@ + rest,
        expanded("%{_mandir}/"@ + rest) == "/usr/share/man/"@ + rest,
        expanded("%{_datadir}/"@ + rest) == "/usr/share/"@ + rest,
{
    lemma_macro_names();
    lemma_expanded_name("%{_bindir}"@, "/usr/bin"@, "%{_bindir}/"@, "/usr/bin/"@, rest);
    lemma_expanded_name("%{_sbindir}"@, "/usr/sbin"@, "%{_sbindir}/"@, "/usr/sbin/"@, rest);
    lemma_expanded_name("%{_libexecdir}"@, "/usr/libexec"@, "%{_libexecdir}/"@, "/usr/libexec/"@, rest);
    lemma_expanded_name("%{_mandir}"@, "/usr/share/man"@, "%{_mandir}/"@, "/usr/share/man/"@, rest);
    lemma_expanded_name("%{_datadir}"@, "/usr/share"@, "%{_datadir}/"@, "/usr/share/"@, rest);
    lemma_not_prefix("%{_sbindir}/"@ + rest, "%{_bindir}"@, 3);
    lemma_not_prefix("%{_libexecdir}/"@ + rest, "%{_bindir}"@, 3);
    lemma_not_prefix("%{_libexecdir}/"@ + rest, "%{_sbindir}"@, 3);
    lemma_not_prefix("%{_mandir}/"@ + rest, "%{_bindir}"@, 3);
    lemma_not_prefix("%{_mandir}/"@ + rest, "%{_sbindir}"@, 3);
    lemma_not_prefix("%{_mandir}/"@ + rest, "%{_libexecdir}"@, 3);
    lemma_not_prefix("%{_datadir}/"@ + rest, "%{_bindir}"@, 3);
    lemma_not_prefix("%{_datadir}/"@ + rest, "%{_sbindir}"@, 3);
    lemma_not_prefix("%{_datadir}/"@ + rest, "%{_libexecdir}"@, 3);
    lemma_not_prefix("%{_datadir}/"@ + rest, "%{_mandir}"@, 3);
}

proof fn lemma_expands_more(rest: Seq<char>)
    ensures
        expanded("%{_sysconfdir}/"@ + rest) == "/etc/"@ + rest,
        expanded("%{_includedir}/"@ + rest) == "/usr/include/"@ + rest,
        expanded("%{_libdir}/"@ + rest) == "/usr/lib64/"@ + rest,
        expanded("%{_prefix}/lib/"@ + rest) == "/usr/lib/"@ + rest,
{
    lemma_macro_names();
    lemma_expanded_name("%{_sysconfdir}"@, "/etc"@, "%{_sysconfdir}/"@, "/etc/"@, rest);
    lemma_expanded_name("%{_includedir}"@, "/usr/include"@, "%{_includedir}/"@, "/usr/include/"@, rest);
    lemma_expanded_name("%{_libdir}"@, "/usr/lib64"@, "%{_libdir}/"@, "/usr/lib64/"@, rest);
    lemma_expanded_name("%{_prefix}"@, "/usr"@, "%{_prefix}/lib/"@, "/usr/lib/"@, rest);
    let a = "%{_sysconfdir}/"@ + rest;
    lemma_not_prefix(a, "%{_bindir}"@, 3);
    lemma_not_prefix(a, "%{_sbindir}"@, 4);
    lemma_not_prefix(a, "%{_libexecdir}"@, 3);
    lemma_not_prefix(a, "%{_mandir}"@, 3);
    lemma_not_prefix(a, "%{_datadir}"@, 3);
    let b = "%{_includedir}/"@ + rest;
    lemma_not_prefix(b, "%{_bindir}"@, 3);
    lemma_not_prefix(b, "%{_sbindir}"@, 3);
    lemma_not_prefix(b, "%{_libexecdir}"@, 3);
    lemma_not_prefix(b, "%{_mandir}"@, 3);
    lemma_not_prefix(b, "%{_datadir}"@, 3);
    lemma_not_prefix(b, "%{_sysconfdir}"@, 3);
    let c = "%{_libdir}/"@ + rest;
    lemma_not_prefix(c, "%{_bindir}"@, 3);
    lemma_not_prefix(c, "%{_sbindir}"@, 3);
    lemma_not_prefix(c, "%{_libexecdir}"@, 6);
    lemma_not_prefix(c, "%{_mandir}"@, 3);
    lemma_not_prefix(c, "%{_datadir}"@, 3);
    lemma_not_prefix(c, "%{_sysconfdir}"@, 3);
    lemma_not_prefix(c, "%{_includedir}"@, 3);
    let d = "%{_prefix}/lib/"@ + rest;
    lemma_not_prefix(d, "%{_bindir}"@, 3);
    lemma_not_prefix(d, "%{_sbindir}"@, 3);
    lemma_not_prefix(d, "%{_libexecdir}"@, 3);
    lemma_not_prefix(d, "%{_mandir}"@, 3);
    lemma_not_prefix(d, "%{_datadir}"@, 3);
    lemma_not_prefix(d, "%{_sysconfdir}"@, 3);
    lemma_not_prefix(d, "%{_includedir}"@, 3);
    lemma_not_prefix(d, "%{_libdir}"@, 3);
}

proof fn lemma_expanded_name(
    name: Seq<char>,
    dir: Seq<char>,
    start: Seq<char>,
    place: Seq<char>,
    rest: Seq<char>,
)
    requires
        start.len() >= name.len(),
        start.take(name.len() as int) == name,
        place == dir + start.skip(name.len() as int),
    ensures
        text::starts_with(start + rest, name),
        with_dir(start + rest, name, dir) == place + rest,
{
    let e = start + rest;
    assert(e.subrange(0, name.len() as int) =~= start.take(name.len() as int));
    assert(dir + e.skip(name.len() as int) =~= place + rest);
}

proof fn lemma_macro_names()
    ensures
        "%{_bindir}/"@.take("%{_bindir}"@.len() as int) == "%{_bindir}"@,
        "%{_sbindir}/"@.take("%{_sbindir}"@.len() as int) == "%{_sbindir}"@,
        "%{_libexecdir}/"@.take("%{_libexecdir}"@.len() as int) == "%{_libexecdir}"@,
        "%{_mandir}/"@.take("%{_mandir}"@.len() as int) == "%{_mandir}"@,
        "%{_datadir}/"@.take("%{_datadir}"@.len() as int) == "%{_datadir}"@,
        "%{_sysconfdir}/"@.take("%{_sysconfdir}"@.len() as int) == "%{_sysconfdir}"@,
        "%{_includedir}/"@.take("%{_includedir}"@.len() as int) == "%{_includedir}"@,
        "%{_libdir}/"@.take("%{_libdir}"@.len() as int) == "%{_libdir}"@,
        "%{_prefix}/lib/"@.take("%{_prefix}"@.len() as int) == "%{_prefix}"@,
        "/usr/bin/"@ == "/usr/bin"@ + "%{_bindir}/"@.skip("%{_bindir}"@.len() as int),
        "/usr/sbin/"@ == "/usr/sbin"@ + "%{_sbindir}/"@.skip("%{_sbindir}"@.len() as int),
        "/usr/libexec/"@ == "/usr/libexec"@ + "%{_libexecdir}/"@.skip(
            "%{_libexecdir}"@.len() as int,
        ),
        "/usr/share/man/"@ == "/usr/share/man"@ + "%{_mandir}/"@.skip("%{_mandir}"@.len() as int),
        "/usr/share/"@ == "/usr/share"@ + "%{_datadir}/"@.skip("%{_datadir}"@.len() as int),
        "/etc/"@ == "/etc"@ + "%{_sysconfdir}/"@.skip("%{_sysconfdir}"@.len() as int),
        "/usr/include/"@ == "/usr/include"@ + "%{_includedir}/"@.skip(
            "%{_includedir}"@.len() as int,
        ),
        "/usr/lib64/"@ == "/usr/lib64"@ + "%{_libdir}/"@.skip("%{_libdir}"@.len() as int),
        "/usr/lib/"@ == "/usr"@ + "%{_prefix}/lib/"@.skip("%{_prefix}"@.len() as int),
        "%{_bindir}"@[3] == 'b',
        "%{_sbindir}"@[3] == 's' && "%{_sbindir}"@[4] == 'b',
        "%{_libexecdir}"@[3] == 'l' && "%{_libexecdir}"@[6] == 'e',
        "%{_mandir}"@[3] == 'm',
        "%{_datadir}"@[3] == 'd',
        "%{_sysconfdir}"@[3] == 's' && "%{_sysconfdir}"@[4] == 'y',
        "%{_includedir}"@[3] == 'i',
        "%{_libdir}"@[3] == 'l' && "%{_libdir}"@[6] == 'd',
        "%{_prefix}"@[3] == 'p',
        "%{_bindir}"@.len() == 10,
        "%{_sbindir}"@.len() == 11,
        "%{_libexecdir}"@.len() == 14,
        "%{_mandir}"@.len() == 10,
        "%{_datadir}"@.len() == 11,
        "%{_sysconfdir}"@.len() == 14,
        "%{_includedir}"@.len() == 14,
        "%{_libdir}"@.len() == 10,
        "%{_prefix}"@.len() == 10,
        "%{_sbindir}/"@[3] == 's' && "%{_sbindir}/"@.len() == 12,
        "%{_libexecdir}/"@[3] == 'l' && "%{_libexecdir}/"@.len() == 15,
        "%{_mandir}/"@[3] == 'm' && "%{_mandir}/"@.len() == 11,
        "%{_datadir}/"@[3] == 'd' && "%{_datadir}/"@.len() == 12,
        "%{_sysconfdir}/"@[3] == 's' && "%{_sysconfdir}/"@[4] == 'y' && "%{_sysconfdir}/"@.len()
            == 15,
        "%{_includedir}/"@[3] == 'i' && "%{_includedir}/"@.len() == 15,
        "%{_libdir}/"@[3] == 'l' && "%{_libdir}/"@[6] == 'd' && "%{_libdir}/"@.len() == 11,
        "%{_prefix}/lib/"@[3] == 'p' && "%{_prefix}/lib/"@.len() == 15,
        "%{_bindir}/"@.len() == 11,
{
    reveal_strlit("%{_bindir}");
    reveal_strlit("%{_sbindir}");
    reveal_strlit("%{_libexecdir}");
    reveal_strlit("%{_mandir}");
    reveal_strlit("%{_datadir}");
    reveal_strlit("%{_sysconfdir}");
    reveal_strlit("%{_includedir}");
    reveal_strlit("%{_libdir}");
    reveal_strlit("%{_prefix}");
    reveal_strlit("%{_bindir}/");
    reveal_strlit("%{_sbindir}/");
    reveal_strlit("%{_libexecdir}/");
    reveal_strlit("%{_mandir}/");
    reveal_strlit("%{_datadir}/");
    reveal_strlit("%{_sysconfdir}/");
    reveal_strlit("%{_includedir}/");
    reveal_strlit("%{_libdir}/");
    reveal_strlit("%{_prefix}/lib/");
    reveal_strlit("/usr/bin");
    reveal_strlit("/usr/sbin");
    reveal_strlit("/usr/libexec");
    reveal_strlit("/usr/share/man");
    reveal_strlit("/usr/share");
    reveal_strlit("/etc");
    reveal_strlit("/usr/include");
    reveal_strlit("/usr/lib64");
    reveal_strlit("/usr");
    reveal_strlit("/usr/bin/");
    reveal_strlit("/usr/sbin/");
    reveal_strlit("/usr/libexec/");
    reveal_strlit("/usr/share/man/");
    reveal_strlit("/usr/share/");
    reveal_strlit("/etc/");
    reveal_strlit("/usr/include/");
    reveal_strlit("/usr/lib64/");
    reveal_strlit("/usr/lib/");
}

proof fn lemma_plain_expands(path: Seq<char>)
    requires
        path.len() > 0,
        path[0] == '/',
    ensures
        expanded(path) == path,
{
    reveal_strlit("%{_bindir}");
    reveal_strlit("%{_sbindir}");
    reveal_strlit("%{_libexecdir}");
    reveal_strlit("%{_mandir}");
    reveal_strlit("%{_datadir}");
    reveal_strlit("%{_sysconfdir}");
    reveal_strlit("%{_includedir}");
    reveal_strlit("%{_libdir}");
    reveal_strlit("%{_prefix}");
    lemma_not_prefix(path, "%{_bindir}"@, 0);
    lemma_not_prefix(path, "%{_sbindir}"@, 0);
    lemma_not_prefix(path, "%{_libexecdir}"@, 0);
    lemma_not_prefix(path, "%{_mandir}"@, 0);
    lemma_not_prefix(path, "%{_datadir}"@, 0);
    lemma_not_prefix(path, "%{_sysconfdir}"@, 0);
    lemma_not_prefix(path, "%{_includedir}"@, 0);
    lemma_not_prefix(path, "%{_libdir}"@, 0);
    lemma_not_prefix(path, "%{_prefix}"@, 0);
}

proof fn lemma_behind(path: Seq<char>, dir: Seq<char>)
    requires
        text::starts_with(path, dir),
    ensures
        path == dir + path.skip(dir.len() as int),
{
    assert(path =~= path.subrange(0, dir.len() as int) + path.skip(dir.len() as int));
}

/// The entry for an absolute path stands for that very path.
pub proof fn law_entry_stands_for_its_path(path: Seq<char>)
    requires
        text::starts_with(path, "/"@),
    ensures
        expanded(specfile::path_macro(path)) == path,
{
    reveal_strlit("/");
    assert(path[0] == path.subrange(0, 1)[0]);
    if text::starts_with(path, "/usr/bin/"@) {
        lemma_behind(path, "/usr/bin/"@);
        lemma_bin_entries(path.skip("/usr/bin/"@.len() as int));
        lemma_expands(path.skip("/usr/bin/"@.len() as int));
    } else if text::starts_with(path, "/usr/sbin/"@) {
        lemma_behind(path, "/usr/sbin/"@);
        lemma_bin_entries(path.skip("/usr/sbin/"@.len() as int));
        lemma_expands(path.skip("/usr/sbin/"@.len() as int));
    } else if text::starts_with(path, "/usr/libexec/"@) {
        lemma_behind(path, "/usr/libexec/"@);
        lemma_lib_entries(path.skip("/usr/libexec/"@.len() as int));
        lemma_expands(path.skip("/usr/libexec/"@.len() as int));
    } else if text::starts_with(path, "/usr/share/man/"@) {
        lemma_behind(path, "/usr/share/man/"@);
        lemma_share_entries(path.skip("/usr/share/man/"@.len() as int));
        lemma_expands(path.skip("/usr/share/man/"@.len() as int));
    } else if text::starts_with(path, "/usr/share/"@) {
        let rest = path.skip("/usr/share/"@.len() as int);
        lemma_behind(path, "/usr/share/"@);
        if text::starts_with(rest, "man/"@) {
            lemma_dirs();
            assert(path.subrange(0, 15) =~= "/usr/share/"@ + rest.subrange(0, 4));
        }
        lemma_share_entries(rest);
        lemma_expands(rest);
    } else if text::starts_with(path, "/etc/"@) {
        lemma_behind(path, "/etc/"@);
        lemma_etc_entries(path.skip("/etc/"@.len() as int));
        lemma_expands_more(path.skip("/etc/"@.len() as int));
    } else if text::starts_with(path, "/usr/include/"@) {
        lemma_behind(path, "/usr/include/"@);
        lemma_bin_entries(path.skip("/usr/include/"@.len() as int));
        lemma_expands_more(path.skip("/usr/include/"@.len() as int));
    } else if text::starts_with(path, "/usr/lib64/"@) {
        lemma_behind(path, "/usr/lib64/"@);
        lemma_lib_entries(path.skip("/usr/lib64/"@.len() as int));
        lemma_expands_more(path.skip("/usr/lib64/"@.len() as int));
    } else if text::starts_with(path, "/usr/lib/"@) {
        lemma_behind(path, "/usr/lib/"@);
        lemma_lib_entries(path.skip("/usr/lib/"@.len() as int));
        lemma_expands_more(path.skip("/usr/lib/"@.len() as int));
    } else {
        lemma_plain_expands(path);
    }
}

/// A spec to whose file list files have been added lists for each absolute path an entry that
/// stands for it.
pub proof fn law_files_are_packaged(s: Seq<char>, files: Seq<Seq<char>>, i: int)
    requires
        forall|k: int| 0 <= k < files.len() ==> !text::trim(#[trigger] files[k]).contains('\n'),
        0 <= i < files.len(),
        text::starts_with(text::trim(files[i]), "/"@),
    ensures
        exists|e: Seq<char>| #[trigger]
            section_laws::lists(specfile::with_files(s, files), e) && expanded(e) == text::trim(
                files[i],
            ),
{
    section_laws::law_files_are_listed(s, files);
    law_entry_stands_for_its_path(text::trim(files[i]));
    let e = specfile::path_macro(text::trim(files[i]));
    assert(section_laws::lists(specfile::with_files(s, files), e));
}

/// Every entry that is put into a file list stands for a file that was asked for.
pub proof fn law_nothing_else_is_packaged(s: Seq<char>, files: Seq<Seq<char>>, k: int)
    requires
        forall|i: int| 0 <= i < files.len() ==> !text::trim(#[trigger] files[i]).contains('\n'),
        0 <= k < pieces::lines(specfile::with_files(s, files)).len(),
    ensures
        ({
            let line = pieces::lines(specfile::with_files(s, files))[k];
            ||| exists|j: int|
                0 <= j < pieces::lines(s).len() && text::trim_end(#[trigger] pieces::lines(s)[j])
                    == text::trim_end(line)
            ||| line.len() == 0
            ||| line == "%files"@
            ||| exists|i: int|
                0 <= i < files.len() && expanded(line) == text::trim(#[trigger] files[i])
        }),
{
    let v = pieces::lines(s);
    let entries = specfile::file_entries(files);
    let at = specfile::line_from(v, "%files"@, 0);
    let out = specfile::with_files(s, files);
    let t = pieces::lines(out);
    spec_laws::lemma_line_from(v, "%files"@, 0);
    if out != s {
        let all = if at >= v.len() {
            v.push("%files"@) + entries
        } else {
            specfile::with_entries(
                v,
                at,
                specfile::unlisted(v.subrange(at + 1, specfile::section_end(v, at + 1)), entries),
            )
        };
        assert(out == specfile::text_of(all));
        lemma_files_lines(s, files, all, at);
        line_laws::lemma_lines_of_text(all);
        line_laws::lemma_tidy(all);
        if specfile::tidy(all).len() > 0 {
            assert(t[k] == text::trim_end(all[k]));
            line_laws::lemma_trim_end_twice(all[k]);
            if entries.contains(all[k]) {
                set_laws::law_file_entries(files);
                let i = choose|i: int|
                    0 <= i < files.len() && text::starts_with(
                        text::trim(#[trigger] files[i]),
                        "/"@,
                    ) && specfile::path_macro(text::trim(files[i])) == all[k];
                let e = entries.index_of(all[k]);
                section_laws::lemma_file_entries_plain(files, e);
                line_laws::lemma_trim_end_is(all[k], all[k].len() as int);
                assert(all[k].take(all[k].len() as int) =~= all[k]);
                law_entry_stands_for_its_path(text::trim(files[i]));
                assert(expanded(t[k]) == text::trim(files[i]));
            } else if v.contains(all[k]) {
                let j = v.index_of(all[k]);
                assert(text::trim_end(v[j]) == text::trim_end(t[k]));
            } else if all[k] == "%files"@ {
                reveal_strlit("%files");
                line_laws::lemma_trim_end_is("%files"@, 6);
                assert("%files"@.take(6) =~= "%files"@);
            } else {
                line_laws::lemma_trim_end(all[k]);
            }
        }
    } else {
        assert(text::trim_end(v[k]) == text::trim_end(t[k]));
    }
}

/// Where the lines of a file list that has got entries come from.
proof fn lemma_files_lines(s: Seq<char>, files: Seq<Seq<char>>, all: Seq<Seq<char>>, at: int)
    requires
        forall|i: int| 0 <= i < files.len() ==> !text::trim(#[trigger] files[i]).contains('\n'),
        0 <= at <= pieces::lines(s).len(),
        ({
            let v = pieces::lines(s);
            let entries = specfile::file_entries(files);
            all == if at >= v.len() {
                v.push("%files"@) + entries
            } else {
                specfile::with_entries(
                    v,
                    at,
                    specfile::unlisted(
                        v.subrange(at + 1, specfile::section_end(v, at + 1)),
                        entries,
                    ),
                )
            }
        }),
    ensures
        line_laws::one_line_each(all),
        forall|k: int|
            0 <= k < all.len() ==> specfile::file_entries(files).contains(#[trigger] all[k])
                || pieces::lines(s).contains(all[k]) || all[k] == "%files"@ || all[k].len() == 0,
{
    let v = pieces::lines(s);
    let entries = specfile::file_entries(files);
    line_laws::lemma_lines_hold_no_line_feed(s, 0);
    reveal_strlit("%files");
    if at >= v.len() {
        assert forall|k: int| 0 <= k < all.len() implies (entries.contains(#[trigger] all[k])
            || v.contains(all[k]) || all[k] == "%files"@) && !all[k].contains('\n') by {
            if k < v.len() {
                assert(all[k] == v[k]);
            } else if k > v.len() {
                let j = k - v.len() - 1;
                assert(all[k] == entries[j]);
                section_laws::lemma_file_entries(files, j);
            }
        }
    } else {
        let end = specfile::section_end(v, at + 1);
        let gap = specfile::blank_end(v, at + 1);
        let section = v.subrange(at + 1, end);
        let added = specfile::unlisted(section, entries);
        section_laws::lemma_section_end(v, at + 1);
        section_laws::lemma_blank_end(v, at + 1);
        let filled = if gap >= end {
            v.take(at + 1) + added + v.skip(gap)
        } else {
            specfile::with_lines(v, end, added)
        };
        assert forall|k: int| 0 <= k < filled.len() implies (entries.contains(#[trigger] filled[k])
            || v.contains(filled[k])) && !filled[k].contains('\n') by {
            let m = if gap >= end {
                at + 1
            } else {
                end
            };
            let n = if gap >= end {
                gap
            } else {
                end
            };
            if k < m {
                assert(filled[k] == v[k]);
            } else if k < m + added.len() {
                let j = section_laws::lemma_unlisted_from(section, entries, k - m);
                assert(filled[k] == added[k - m]);
                section_laws::lemma_file_entries(files, j);
            } else {
                assert(filled[k] == v[k - m - added.len() + n]);
            }
        }
        let next = specfile::section_end(filled, at + 1);
        assert(all == specfile::with_gap(filled, next));
        assert forall|k: int| 0 <= k < all.len() implies (entries.contains(#[trigger] all[k])
            || v.contains(all[k]) || all[k].len() == 0) && !all[k].contains('\n') by {
            if all.len() == filled.len() {
                assert(all[k] == filled[k]);
            } else if k < next {
                assert(all[k] == filled[k]);
            } else if k > next {
                assert(all[k] == filled[k - 1]);
            }
        }
    }
}

} // verus!
