//! Laws of what a language model is told about a package, and of what is taken from its answer.
use vstd::prelude::*;

use crate::describe;
use crate::describe::MetaModel;
use crate::line_laws;
use crate::llm;
use crate::log_laws;
use crate::outside;
use crate::pieces;
use crate::target_laws;
use crate::text;

verus! {

proof fn lemma_split_at(key: Seq<char>, c: Seq<char>, value: Seq<char>)
    requires
        c.len() == 1,
        !key.contains(c[0]),
    ensures
        pieces::split_once(key + c + value, c) == Some((key, value)),
{
    let line = key + c + value;
    let n = key.len() as int;
    assert(line.subrange(n, n + 1) =~= c);
    assert forall|j: int| 0 <= j < n implies !#[trigger] text::occurs_at(line, c, j) by {
        if text::occurs_at(line, c, j) {
            assert(line.subrange(j, j + 1)[0] == line[j]);
            assert(line[j] == key[j]);
            assert(key.contains(key[j]));
        }
    }
    target_laws::lemma_find_is(line, c, n);
    assert(line.take(n) =~= key);
    assert(line.skip(n + 1) =~= value);
}

/// A header of the metadata says what its name says, whatever was said before; only of the author
/// the first header counts, and requirements are all kept.
pub proof fn law_header_is_read(
    m: MetaModel,
    lines: Seq<Seq<char>>,
    key: Seq<char>,
    value: Seq<char>,
)
    requires
        !key.contains(':'),
        text::trim(value).len() > 0,
    ensures
        ({
            let before = describe::with_headers(m, lines);
            let after = describe::with_headers(m, lines.push(key + ":"@ + value));
            let k = outside::lowercase(text::trim(key));
            let v = Some(text::trim(value));
            &&& after.name == if k == "name"@ {
                v
            } else {
                before.name
            }
            &&& after.version == if k == "version"@ {
                v
            } else {
                before.version
            }
            &&& after.summary == if k == "summary"@ {
                v
            } else {
                before.summary
            }
            &&& after.description == if k == "description"@ {
                v
            } else {
                before.description
            }
            &&& after.home_page == if k == "home-page"@ || k == "url"@ {
                v
            } else {
                before.home_page
            }
            &&& after.author == if (k == "author"@ || k == "author-email"@)
                && before.author is None {
                v
            } else {
                before.author
            }
            &&& after.requires_dist == if k == "requires-dist"@ {
                before.requires_dist.push(text::trim(value))
            } else {
                before.requires_dist
            }
        }),
{
    reveal_strlit(":");
    reveal_strlit("name");
    reveal_strlit("version");
    reveal_strlit("summary");
    reveal_strlit("description");
    reveal_strlit("home-page");
    reveal_strlit("url");
    reveal_strlit("author");
    reveal_strlit("author-email");
    reveal_strlit("requires-dist");
    let all = lines.push(key + ":"@ + value);
    assert(all.drop_last() =~= lines);
    lemma_split_at(key, ":"@, value);
    let k = outside::lowercase(text::trim(key));
    assert("name"@.len() == 4 && "version"@.len() == 7 && "summary"@.len() == 7);
    assert("description"@.len() == 11 && "home-page"@.len() == 9 && "url"@.len() == 3);
    assert("author"@.len() == 6 && "author-email"@.len() == 12 && "requires-dist"@.len() == 13);
    assert("version"@[0] == 'v' && "summary"@[0] == 's');
    let before = describe::with_headers(m, lines);
    assert(describe::with_headers(m, all) == describe::with_header(before, key, value));
}

/// A line without a colon says nothing.
pub proof fn law_lines_without_a_colon_say_nothing(
    m: MetaModel,
    lines: Seq<Seq<char>>,
    line: Seq<char>,
)
    requires
        !line.contains(':'),
    ensures
        describe::with_headers(m, lines.push(line)) == describe::with_headers(m, lines),
{
    reveal_strlit(":");
    let all = lines.push(line);
    assert(all.drop_last() =~= lines);
    text::lemma_find(line, ":"@, 0);
    if let Some(k) = text::find(line, ":"@) {
        assert(line.subrange(k, k + 1)[0] == line[k]);
        assert(line.contains(line[k]));
    }
}

/// What is known of a package is not changed by its project files.
pub proof fn law_project_files_change_nothing_known(
    m: MetaModel,
    lines: Seq<Seq<char>>,
    header: Seq<char>,
    toml: bool,
)
    ensures
        ({
            let after = describe::with_section(m, lines, header, toml);
            &&& m.name is Some ==> after.name == m.name
            &&& m.version is Some ==> after.version == m.version
            &&& m.summary is Some ==> after.summary == m.summary
            &&& m.description is Some ==> after.description == m.description
            &&& after.home_page == m.home_page
            &&& after.author == m.author
            &&& after.requires_dist == m.requires_dist
        }),
    decreases lines.len(),
{
    if lines.len() > 0 {
        law_project_files_change_nothing_known(m, lines.drop_last(), header, toml);
    }
}

proof fn lemma_in_section(a: Seq<Seq<char>>, head: Seq<char>, b: Seq<Seq<char>>, header: Seq<char>)
    requires
        text::trim(head) == header,
        forall|k: int| 0 <= k < b.len() ==> !text::starts_with(text::trim(#[trigger] b[k]), "["@),
    ensures
        describe::in_section(a + seq![head] + b, header),
    decreases b.len(),
{
    let all = a + seq![head] + b;
    if b.len() == 0 {
        assert(all.last() == head);
    } else {
        let rest = b.drop_last();
        assert forall|k: int| 0 <= k < rest.len() implies !text::starts_with(
            text::trim(#[trigger] rest[k]),
            "["@,
        ) by {
            assert(rest[k] == b[k]);
        }
        lemma_in_section(a, head, rest, header);
        assert(all.drop_last() =~= a + seq![head] + rest);
        assert(all.last() == b[b.len() - 1]);
    }
}

/// An entry of the section that is read says what its key says, where that was not known; the
/// quotes around its value do not count.
pub proof fn law_entry_is_read(
    m: MetaModel,
    a: Seq<Seq<char>>,
    head: Seq<char>,
    b: Seq<Seq<char>>,
    key: Seq<char>,
    value: Seq<char>,
    header: Seq<char>,
    toml: bool,
)
    requires
        text::trim(head) == header,
        text::starts_with(header, "["@),
        forall|k: int| 0 <= k < b.len() ==> !text::starts_with(text::trim(#[trigger] b[k]), "["@),
        key == "name"@ || key == "version"@ || key == "description"@,
        value.len() > 0,
        line_laws::is_trimmed(value),
        value[0] != '"',
        value[0] != '\'',
        value.last() != '"',
        value.last() != '\'',
    ensures
        ({
            let lines = a + seq![head] + b;
            let before = describe::with_section(m, lines, header, toml);
            let after = describe::with_section(
                m,
                lines.push(key + " = \""@ + value + "\""@),
                header,
                toml,
            );
            &&& key == "name"@ && before.name is None ==> after.name == Some(value)
            &&& key == "version"@ && before.version is None ==> after.version == Some(value)
            &&& key == "description"@ && before.summary is None ==> after.summary == Some(value)
        }),
{
    reveal_strlit("[");
    reveal_strlit("=");
    reveal_strlit(" = \"");
    reveal_strlit("\"");
    reveal_strlit("name");
    reveal_strlit("version");
    reveal_strlit("description");
    let lines = a + seq![head] + b;
    let line = key + " = \""@ + value + "\""@;
    let all = lines.push(line);
    assert(all.drop_last() =~= lines);
    lemma_in_section(a, head, b, header);
    assert(line[0] == key[0]);
    assert(line.last() == '"');
    line_laws::lemma_trim(line);
    if text::starts_with(line, "["@) {
        assert(line.subrange(0, 1)[0] == line[0]);
    }
    if line == header {
        assert(text::starts_with(line, "["@));
    }
    let k = key + seq![' '];
    let v = seq![' '] + seq!['"'] + value + seq!['"'];
    assert(line =~= k + "="@ + v);
    assert(!k.contains('='));
    lemma_split_at(k, "="@, v);
    let empty = Seq::<char>::empty();
    assert(k =~= empty + key + seq![' ']);
    line_laws::lemma_trim_around(empty, key, seq![' ']);
    let quoted = seq!['"'] + value + seq!['"'];
    assert(v =~= seq![' '] + quoted + empty);
    line_laws::lemma_trim_around(seq![' '], quoted, empty);
    lemma_unquoted(value);
    line_laws::lemma_trim(value);
}

proof fn lemma_unquoted(value: Seq<char>)
    requires
        value.len() > 0,
        value[0] != '"',
        value[0] != '\'',
        value.last() != '"',
        value.last() != '\'',
    ensures
        text::trim_char(text::trim_char(seq!['"'] + value + seq!['"'], '"'), '\'') == value,
{
    let q = seq!['"'] + value + seq!['"'];
    assert(q[0] == '"' && q[1] == value[0]);
    assert(text::same_end(q, '"', 1) == 1);
    assert(text::same_end(q, '"', 0) == 1);
    let a = q.skip(1);
    let n = value.len() as int;
    assert(a =~= value + seq!['"']);
    assert(a[n] == '"' && a[n - 1] == value.last());
    assert(text::same_start(a, '"', n) == n);
    assert(text::same_start(a, '"', n + 1) == n);
    assert(a.take(n) =~= value);
    assert(text::same_end(value, '\'', 0) == 0);
    assert(value.skip(0) =~= value);
    assert(text::same_start(value, '\'', n) == n);
    assert(value.take(n) =~= value);
}

/// A line of a README that shows a badge is left out of the excerpt, whatever its address is.
pub proof fn law_badges_are_left_out(lines: Seq<Seq<char>>, rest: Seq<char>)
    ensures
        describe::without_badges(lines.push("[!["@ + rest)) == describe::without_badges(lines),
        describe::without_badges(lines.push("!["@ + rest + ")"@)) == describe::without_badges(
            lines,
        ),
{
    reveal_strlit("[![");
    reveal_strlit("![");
    reveal_strlit(")");
    let x = "[!["@ + rest;
    let y = "!["@ + rest + ")"@;
    assert(lines.push(x).drop_last() =~= lines);
    assert(lines.push(y).drop_last() =~= lines);
    assert(x.subrange(0, 3) =~= "[!["@);
    lemma_start_stays(x, "[!["@);
    line_laws::lemma_trim(x);
    line_laws::lemma_trim(text::trim(x));
    assert(y[0] == '!' && y.last() == ')');
    line_laws::lemma_trim(y);
    assert(y.subrange(0, 2) =~= "!["@);
    assert(y.subrange(y.len() - 1, y.len() as int) =~= ")"@);
}

/// Badges of the services that build and measure projects are left out too.
pub proof fn law_service_badges_are_left_out(
    lines: Seq<Seq<char>>,
    a: Seq<char>,
    b: Seq<char>,
    c: Seq<char>,
    d: Seq<char>,
    service: Seq<char>,
)
    requires
        service == "travis-ci."@ || service == "circleci."@ || service == "codecov."@ || service
            == "coveralls."@,
    ensures
        ({
            let x = a + "github.com/"@ + b + "/actions/workflows/"@ + c + "/badge."@ + d;
            line_laws::is_trimmed(x) ==> describe::without_badges(lines.push(x))
                == describe::without_badges(lines)
        }),
        ({
            let y = a + service + b + ".svg"@ + c;
            line_laws::is_trimmed(y) ==> describe::without_badges(lines.push(y))
                == describe::without_badges(lines)
        }),
{
    reveal_strlit("github.com/");
    reveal_strlit(".svg");
    let x = a + "github.com/"@ + b + "/actions/workflows/"@ + c + "/badge."@ + d;
    lemma_holds(a, "github.com/"@, b + "/actions/workflows/"@ + c + "/badge."@ + d, x);
    lemma_holds(
        a + "github.com/"@ + b,
        "/actions/workflows/"@,
        c + "/badge."@ + d,
        x,
    );
    lemma_holds(
        a + "github.com/"@ + b + "/actions/workflows/"@ + c,
        "/badge."@,
        d,
        x,
    );
    assert(lines.push(x).drop_last() =~= lines);
    let y = a + service + b + ".svg"@ + c;
    lemma_holds(a, service, b + ".svg"@ + c, y);
    lemma_holds(a + service + b, ".svg"@, c, y);
    assert(lines.push(y).drop_last() =~= lines);
    if line_laws::is_trimmed(x) {
        line_laws::lemma_trim(x);
    }
    if line_laws::is_trimmed(y) {
        line_laws::lemma_trim(y);
    }
}

proof fn lemma_holds(a: Seq<char>, p: Seq<char>, b: Seq<char>, s: Seq<char>)
    requires
        s =~= a + p + b,
    ensures
        text::contains(s, p),
{
    text::lemma_find(s, p, 0);
    let n = a.len() as int;
    assert(s.subrange(n, n + p.len()) =~= p);
    assert(text::occurs_at(s, p, n));
}

/// Entries before the section, and those of another section, say nothing.
pub proof fn law_other_sections_say_nothing(
    m: MetaModel,
    a: Seq<Seq<char>>,
    head: Seq<char>,
    b: Seq<Seq<char>>,
    header: Seq<char>,
    toml: bool,
)
    requires
        text::starts_with(text::trim(head), "["@),
        text::trim(head) != header,
        forall|k: int| 0 <= k < b.len() ==> text::trim(#[trigger] b[k]) != header,
    ensures
        describe::with_section(m, b, header, toml) == m,
        describe::with_section(m, a + seq![head] + b, header, toml) == describe::with_section(
            m,
            a,
            header,
            toml,
        ),
        !describe::in_section(b, header),
        !describe::in_section(a + seq![head] + b, header),
    decreases b.len(),
{
    let all = a + seq![head] + b;
    if b.len() == 0 {
        assert(all.drop_last() =~= a);
        assert(all.last() == head);
    } else {
        let rest = b.drop_last();
        assert forall|k: int| 0 <= k < rest.len() implies text::trim(#[trigger] rest[k]) != header by {
            assert(rest[k] == b[k]);
        }
        law_other_sections_say_nothing(m, a, head, rest, header, toml);
        assert(all.drop_last() =~= a + seq![head] + rest);
        assert(all.last() == b.last());
        assert(text::trim(b[b.len() - 1]) != header);
    }
}

/// Trimming keeps the start of a line that does not start with white space.
proof fn lemma_start_stays(x: Seq<char>, p: Seq<char>)
    requires
        p.len() > 0,
        x.len() >= p.len(),
        x.subrange(0, p.len() as int) == p,
        !text::is_white(p[0]),
        !text::is_white(p.last()),
    ensures
        text::starts_with(text::trim(x), p),
        text::trim(x).len() > 0,
{
    let n = p.len() as int;
    assert(x[0] == x.subrange(0, n)[0]);
    line_laws::lemma_trim_start_is(x, 0);
    assert(x.skip(0) =~= x);
    let t = text::trim(x);
    line_laws::lemma_trim_end(x);
    if t.len() < n {
        assert(text::is_white(x[n - 1]));
        assert(x[n - 1] == x.subrange(0, n)[n - 1]);
    }
    assert(t.subrange(0, n) =~= x.subrange(0, n));
}

/// A line that starts like no badge, and names no place that badges come from, stays.
pub proof fn law_other_lines_stay(lines: Seq<Seq<char>>, line: Seq<char>)
    requires
        !text::starts_with(text::trim(line), "[!["@),
        !text::starts_with(text::trim(line), "!["@),
        !text::contains(text::trim(line), "github.com/"@),
        !text::contains(text::trim(line), ".svg"@),
    ensures
        describe::without_badges(lines.push(line)) == describe::without_badges(lines) + line
            + "\n"@,
{
    assert(lines.push(line).drop_last() =~= lines);
    line_laws::lemma_trim(line);
}

/// The address of the model is what stands before the paths of its interface, and else the whole.
pub proof fn law_model_is_addressed(host: Seq<char>)
    requires
        host.len() > 0,
        host.last() != '/',
    ensures
        describe::base_host(host + "/api/chat"@) == host,
        describe::base_host(host + "/api/chat/"@) == host,
        describe::base_host(host + "/api/generate"@) == host,
        !text::ends_with(host, "/api/chat"@) && !text::ends_with(host, "/api/generate"@)
            ==> describe::base_host(host) == host,
        describe::without_scheme("http://"@ + host) == host,
        describe::without_scheme("https://"@ + host) == host,
{
    reveal_strlit("/api/chat");
    reveal_strlit("/api/chat/");
    reveal_strlit("/api/generate");
    reveal_strlit("http://");
    reveal_strlit("https://");
    let n = host.len() as int;
    let a = host + "/api/chat"@;
    let b = host + "/api/chat/"@;
    let c = host + "/api/generate"@;
    assert(a.last() == 't' && c.last() == 'e');
    assert(b.last() == '/' && b[b.len() - 2] == 't');
    assert(text::same_start(a, '/', a.len() as int) == a.len());
    assert(text::same_start(c, '/', c.len() as int) == c.len());
    assert(text::same_start(b, '/', b.len() - 1) == b.len() - 1);
    assert(text::same_start(b, '/', b.len() as int) == b.len() - 1);
    assert(text::same_start(host, '/', n) == n);
    assert(a.take(a.len() as int) =~= a);
    assert(c.take(c.len() as int) =~= c);
    assert(host.take(n) =~= host);
    assert(b.take(b.len() - 1) =~= a);
    assert(a.subrange(n, a.len() as int) =~= "/api/chat"@);
    assert(c.subrange(n, c.len() as int) =~= "/api/generate"@);
    assert(a.take(n) =~= host);
    assert(c.take(n) =~= host);
    if text::ends_with(c, "/api/chat"@) {
        assert(c.subrange(c.len() - 9, c.len() as int)[8] == c.last());
    }
    let x = "http://"@ + host;
    let y = "https://"@ + host;
    assert(x.subrange(0, 7) =~= "http://"@);
    assert(x.skip(7) =~= host);
    assert(y.subrange(0, 8) =~= "https://"@);
    assert(y.skip(8) =~= host);
    if text::starts_with(y, "http://"@) {
        assert(y.subrange(0, 7)[4] == y[4]);
    }
}

/// The characters of a text other than white space.
pub open spec fn dark(s: Seq<char>) -> Seq<char>
    decreases s.len(),
{
    if s.len() == 0 {
        seq![]
    } else if text::is_white(s.last()) {
        dark(s.drop_last())
    } else {
        dark(s.drop_last()).push(s.last())
    }
}

/// The same of a list of texts.
pub open spec fn dark_of(v: Seq<Seq<char>>) -> Seq<char>
    decreases v.len(),
{
    if v.len() == 0 {
        seq![]
    } else {
        dark_of(v.drop_last()) + dark(v.last())
    }
}

proof fn lemma_dark_add(a: Seq<char>, b: Seq<char>)
    ensures
        dark(a + b) == dark(a) + dark(b),
    decreases b.len(),
{
    if b.len() == 0 {
        assert(a + b =~= a);
        assert(dark(a) + dark(b) =~= dark(a));
    } else {
        assert((a + b).drop_last() =~= a + b.drop_last());
        assert((a + b).last() == b.last());
        lemma_dark_add(a, b.drop_last());
        assert(dark(a + b) =~= dark(a) + dark(b));
    }
}

proof fn lemma_dark_of_white(s: Seq<char>)
    requires
        forall|k: int| 0 <= k < s.len() ==> text::is_white(#[trigger] s[k]),
    ensures
        dark(s) == Seq::<char>::empty(),
    decreases s.len(),
{
    if s.len() > 0 {
        let rest = s.drop_last();
        assert(text::is_white(s[s.len() - 1]));
        assert forall|k: int| 0 <= k < rest.len() implies text::is_white(#[trigger] rest[k]) by {
            assert(rest[k] == s[k]);
        }
        lemma_dark_of_white(rest);
    }
}

proof fn lemma_dark_trimmed(s: Seq<char>)
    ensures
        dark(text::trim_start(s)) == dark(s),
        dark(text::trim_end(s)) == dark(s),
        dark(text::trim(s)) == dark(s),
    decreases s.len(),
{
    lemma_dark_trim_start(s);
    lemma_dark_trim_end(s);
    lemma_dark_trim_end(text::trim_start(s));
}

proof fn lemma_dark_trim_start(s: Seq<char>)
    ensures
        dark(text::trim_start(s)) == dark(s),
{
    let a = text::trim_start(s);
    line_laws::lemma_trim_start(s);
    let head = s.take(s.len() - a.len());
    assert(s =~= head + a);
    assert forall|k: int| 0 <= k < head.len() implies text::is_white(#[trigger] head[k]) by {
        assert(head[k] == s[k]);
    }
    lemma_dark_of_white(head);
    lemma_dark_add(head, a);
    assert(dark(head) + dark(a) =~= dark(a));
}

proof fn lemma_dark_trim_end(s: Seq<char>)
    ensures
        dark(text::trim_end(s)) == dark(s),
{
    let e = text::trim_end(s);
    line_laws::lemma_trim_end(s);
    let tail = s.skip(e.len() as int);
    assert(s =~= e + tail);
    assert forall|k: int| 0 <= k < tail.len() implies text::is_white(#[trigger] tail[k]) by {
        assert(tail[k] == s[e.len() + k]);
    }
    lemma_dark_of_white(tail);
    lemma_dark_add(e, tail);
    assert(dark(e) + dark(tail) =~= dark(e));
}

proof fn lemma_dark_of_add(a: Seq<Seq<char>>, b: Seq<Seq<char>>)
    ensures
        dark_of(a + b) == dark_of(a) + dark_of(b),
    decreases b.len(),
{
    if b.len() == 0 {
        assert(a + b =~= a);
        assert(dark_of(a) + dark_of(b) =~= dark_of(a));
    } else {
        assert((a + b).drop_last() =~= a + b.drop_last());
        assert((a + b).last() == b.last());
        lemma_dark_of_add(a, b.drop_last());
        assert(dark_of(a + b) =~= dark_of(a) + dark_of(b));
    }
}

proof fn lemma_dark_of_one(s: Seq<char>)
    ensures
        dark_of(seq![s]) == dark(s),
{
    let one = seq![s];
    assert(one.drop_last() =~= seq![]);
    assert(one.last() == s);
    assert(dark_of(one.drop_last()) =~= seq![]);
    assert(dark_of(one) =~= dark(s));
}

/// Breaking a line that is too long loses nothing but white space.
pub proof fn law_wrapping_keeps_the_text(s: Seq<char>)
    ensures
        dark_of(describe::wrapped(s)) == dark(s),
    decreases s.len(),
{
    if s.len() == 0 {
    } else if s.len() <= 100 {
        lemma_dark_of_one(s);
    } else {
        let at = describe::break_at(s);
        let first = s.take(100);
        text::lemma_last_index_of(first, ' ', 100);
        let rest = text::trim_start(s.skip(at));
        line_laws::lemma_trim_start(s.skip(at));
        let head = text::trim_end(s.take(at));
        law_wrapping_keeps_the_text(rest);
        lemma_dark_trim_start(s.skip(at));
        lemma_dark_trim_end(s.take(at));
        lemma_dark_of_one(head);
        lemma_dark_of_add(seq![head], describe::wrapped(rest));
        lemma_dark_add(s.take(at), s.skip(at));
        assert(s.take(at) + s.skip(at) =~= s);
    }
}

/// A line of an answer that is no part of a description.
pub open spec fn is_markup(line: Seq<char>) -> bool {
    let t = text::trim(line);
    ||| t.len() == 0
    ||| text::starts_with(t, "#"@)
    ||| text::starts_with(t, ">"@)
    ||| text::starts_with(t, "```"@)
    ||| text::contains(t, "%description"@)
}

/// The text of the lines that are part of a description.
pub open spec fn told(v: Seq<Seq<char>>) -> Seq<char>
    decreases v.len(),
{
    if v.len() == 0 {
        seq![]
    } else if is_markup(v.last()) {
        told(v.drop_last())
    } else {
        told(v.drop_last()) + dark(v.last())
    }
}

proof fn lemma_description_lines(v: Seq<Seq<char>>)
    ensures
        dark_of(describe::description_lines(v)) == told(v),
    decreases v.len(),
{
    if v.len() > 0 {
        let rest = v.drop_last();
        lemma_description_lines(rest);
        let line = text::trim(v.last());
        if !is_markup(v.last()) {
            law_wrapping_keeps_the_text(line);
            lemma_dark_trimmed(v.last());
            lemma_dark_of_add(describe::description_lines(rest), describe::wrapped(line));
        }
    }
}

/// A description that is short enough tells all that the answer tells, in order, without the lines
/// that are markup.
pub proof fn law_description_tells_the_answer(v: Seq<Seq<char>>)
    requires
        log_laws::are_lines(v),
        describe::kept_lines(log_laws::log_of(v)).len() < 5,
    ensures
        dark_of(describe::kept_lines(log_laws::log_of(v))) == told(v),
{
    log_laws::lemma_lines_of_log(v);
    lemma_description_lines(v);
}

/// An answer in a code block is what stands in the block, and any other is the answer itself,
/// without the white space around it.
pub proof fn law_answer_is_taken_out_of_its_block(body: Seq<char>)
    ensures
        llm::unfenced("```json"@ + body + "```"@) == text::trim(body),
        !text::starts_with(body + "```"@, "json"@) ==> llm::unfenced("```"@ + body + "```"@)
            == text::trim(body),
        !text::starts_with(text::trim(body), "```"@) ==> llm::unfenced(body) == text::trim(body),
{
    lemma_named_block(body);
    if !text::starts_with(body + "```"@, "json"@) {
        lemma_plain_block(body);
    }
    if !text::starts_with(text::trim(body), "```"@) {
        lemma_no_block(body);
    }
}

proof fn lemma_block_end(body: Seq<char>)
    ensures
        text::strip_suffix(body + "```"@, "```"@) == Some(body),
        (body + "```"@).len() > 0,
        (body + "```"@).last() == '`',
{
    reveal_strlit("```");
    let rest = body + "```"@;
    assert(rest.subrange(body.len() as int, rest.len() as int) =~= "```"@);
    assert(rest.take(body.len() as int) =~= body);
}

proof fn lemma_named_block(body: Seq<char>)
    ensures
        llm::unfenced("```json"@ + body + "```"@) == text::trim(body),
{
    let rest = body + "```"@;
    lemma_block_end(body);
    let a = "```json"@ + body + "```"@;
    assert(a =~= "```json"@ + rest) by {
        reveal_strlit("```json");
    }
    assert(a.len() > 7 && a[0] == '`' && "```json"@.len() == 7) by {
        reveal_strlit("```json");
    }
    assert(a.last() == rest.last());
    line_laws::lemma_trim(a);
    assert(a.subrange(0, 7) =~= "```json"@);
    assert(a.skip(7) =~= rest);
}

proof fn lemma_plain_block(body: Seq<char>)
    requires
        !text::starts_with(body + "```"@, "json"@),
    ensures
        llm::unfenced("```"@ + body + "```"@) == text::trim(body),
{
    let rest = body + "```"@;
    lemma_block_end(body);
    let b = "```"@ + body + "```"@;
    assert(b =~= "```"@ + rest);
    assert(b.len() > 3 && b[0] == '`' && "```"@.len() == 3) by {
        reveal_strlit("```");
    }
    assert(b.last() == rest.last());
    line_laws::lemma_trim(b);
    assert(b.subrange(0, 3) =~= "```"@);
    assert(b.skip(3) =~= rest);
    assert(!text::starts_with(b, "```json"@)) by {
        reveal_strlit("```json");
        reveal_strlit("json");
        if text::starts_with(b, "```json"@) {
            assert(rest.subrange(0, 4) =~= b.subrange(0, 7).subrange(3, 7));
            assert("```json"@.subrange(3, 7) =~= "json"@);
        }
    }
}

proof fn lemma_no_block(body: Seq<char>)
    requires
        !text::starts_with(text::trim(body), "```"@),
    ensures
        llm::unfenced(body) == text::trim(body),
{
    line_laws::lemma_trim(body);
    let t = text::trim(body);
    assert(!text::starts_with(t, "```json"@)) by {
        reveal_strlit("```json");
        reveal_strlit("```");
        if text::starts_with(t, "```json"@) {
            assert(t.subrange(0, 3) =~= t.subrange(0, 7).subrange(0, 3));
            assert("```json"@.subrange(0, 3) =~= "```"@);
        }
    }
}

} // verus!
