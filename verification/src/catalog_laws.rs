//! What an app is, by what its directory holds, and what it brings.
use vstd::prelude::*;

use crate::bundles::app_bundle;
use crate::bundles::bundle;
use crate::bundles::contents;
use crate::bundles::dependencies;
use crate::bundles::dir_at;
use crate::bundles::entry_named;
use crate::bundles::guide_of;
use crate::bundles::model;
use crate::bundles::module_before;
use crate::bundles::modules;
use crate::bundles::policies;
use crate::bundles::readable_modules;
use crate::bundles::specs_in;
use crate::catalog::app_entry;
use crate::catalog::app_name;
use crate::catalog::automata;
use crate::catalog::by_name;
use crate::catalog::catalog_of;
use crate::catalog::described;
use crate::catalog::described_in;
use crate::catalog::dir_before;
use crate::catalog::discovered;
use crate::catalog::ending;
use crate::catalog::file_named;
use crate::catalog::file_names;
use crate::catalog::files_with;
use crate::catalog::first_named;
use crate::catalog::first_paragraph;
use crate::catalog::guide;
use crate::catalog::guide_description;
use crate::catalog::has_entry;
use crate::catalog::merged_entries;
use crate::catalog::paths_of;
use crate::catalog::spec_files;
use crate::catalog::CatalogView;
use crate::catalog::DirView;
use crate::catalog::EntryView;
use crate::catalog::FileView;
use crate::catalog::WasmView;
use crate::evidence_laws::lemma_text_weak;
use crate::order::arranged;
use crate::order::in_order;
use crate::order::keep;
use crate::order::lemma_arranged;
use crate::order::lemma_arranged_keeps;
use crate::order::lemma_keep;
use crate::order::text_lt;
use crate::text::ends;
use crate::text::find_at;
use crate::text::lemma_find_at;
use crate::text::occurs_at;
use crate::text::only;
use crate::text::pieces;
use crate::text::starts;
use crate::text::trim_end;
use crate::text::trim_start;
use crate::text::trimmed;

verus! {

proof fn lemma_files_with(s: Seq<FileView>, suffix: Seq<char>)
    ensures
        in_order(files_with(s, suffix), by_name()),
        forall|f: FileView| #[trigger]
            files_with(s, suffix).contains(f) <==> s.contains(f) && ends(f.name, suffix),
{
    let k = keep(s, ending(suffix));
    assert forall|a: FileView, b: FileView, c: FileView|
        !(#[trigger] by_name()(a, b)) && !(#[trigger] by_name()(b, c)) implies !by_name()(a, c) by {
        lemma_text_weak(a.name, b.name, c.name);
    }
    assert forall|a: FileView, b: FileView| #[trigger] by_name()(a, b) implies !by_name()(b, a) by {
        lemma_text_weak(a.name, b.name, b.name);
    }
    lemma_arranged(k, by_name());
    lemma_arranged_keeps(k, by_name(), |f: FileView| true);
    lemma_keep(s, ending(suffix));
    assert forall|f: FileView| #[trigger] files_with(s, suffix).contains(f) <==> s.contains(f)
        && ends(f.name, suffix) by {
        if files_with(s, suffix).contains(f) {
            assert(k.contains(f));
            let i = choose|i: int| 0 <= i < k.len() && k[i] == f;
            assert(ending(suffix)(k[i]) && s.contains(k[i]));
        }
        if s.contains(f) && ends(f.name, suffix) {
            let i = choose|i: int| 0 <= i < s.len() && s[i] == f;
            assert(ending(suffix)(s[i]));
            assert(k.contains(s[i]));
        }
    }
}

/// The sequence has a file with the name.
pub open spec fn has_file(s: Seq<FileView>, name: Seq<char>) -> bool {
    exists|i: int| 0 <= i < s.len() && (#[trigger] s[i]).name == name
}

/// No two files have one name.
pub open spec fn names_differ(s: Seq<FileView>) -> bool {
    forall|i: int, j: int|
        0 <= i < j < s.len() ==> (#[trigger] s[i]).name != (#[trigger] s[j]).name
}

proof fn lemma_file_names(s: Seq<FileView>, name: Seq<char>)
    ensures
        file_names(s).contains(name) <==> has_file(s, name),
{
    let n = file_names(s);
    if n.contains(name) {
        let i = choose|i: int| 0 <= i < n.len() && n[i] == name;
        assert(s[i].name == name);
    }
    if has_file(s, name) {
        let i = choose|i: int| 0 <= i < s.len() && (#[trigger] s[i]).name == name;
        assert(n[i] == name);
    }
}

proof fn lemma_first_named(s: Seq<FileView>)
    ensures
        names_differ(first_named(s)),
        forall|i: int| 0 <= i < first_named(s).len() ==> s.contains(#[trigger] first_named(s)[i]),
        forall|j: int| 0 <= j < s.len() ==> has_file(first_named(s), (#[trigger] s[j]).name),
    decreases s.len(),
{
    if s.len() > 0 {
        let front = s.drop_last();
        let rest = first_named(front);
        let r = first_named(s);
        lemma_first_named(front);
        lemma_file_names(rest, s.last().name);
        assert forall|i: int| 0 <= i < r.len() implies s.contains(#[trigger] r[i]) by {
            if i < rest.len() {
                assert(r[i] == rest[i]);
                assert(front.contains(rest[i]));
                let j = choose|j: int| 0 <= j < front.len() && front[j] == rest[i];
                assert(s[j] == r[i]);
            } else {
                assert(s[s.len() - 1] == r[i]);
            }
        }
        assert forall|j: int| 0 <= j < s.len() implies has_file(r, (#[trigger] s[j]).name) by {
            if j < front.len() {
                assert(front[j] == s[j]);
                assert(has_file(rest, front[j].name));
                let i = choose|i: int| 0 <= i < rest.len() && (#[trigger] rest[i]).name == s[j].name;
                assert(r[i] == rest[i]);
            } else if has_file(rest, s.last().name) {
                let i = choose|i: int|
                    0 <= i < rest.len() && (#[trigger] rest[i]).name == s.last().name;
                assert(r[i] == rest[i]);
            } else {
                assert(r[rest.len() as int] == s.last());
            }
        }
        assert forall|i: int, j: int| 0 <= i < j < r.len() implies (#[trigger] r[i]).name != (
        #[trigger] r[j]).name by {
            if j < rest.len() {
                assert(r[i] == rest[i] && r[j] == rest[j]);
            } else {
                assert(r[i] == rest[i]);
            }
        }
    }
}

proof fn lemma_named_parts(a: Seq<FileView>, b: Seq<FileView>)
    requires
        in_order(a, by_name()),
        in_order(b, by_name()),
    ensures
        ({
            let r = first_named(a + b);
            let n = first_named(a).len() as int;
            &&& n <= r.len()
            &&& r.take(n) == first_named(a)
            &&& forall|i: int| n <= i < r.len() ==> b.contains(#[trigger] r[i])
            &&& in_order(r.take(n), by_name())
            &&& in_order(r.skip(n), by_name())
        }),
    decreases b.len(),
{
    let r = first_named(a + b);
    let n = first_named(a).len() as int;
    if b.len() == 0 {
        assert(a + b =~= a);
        assert(r.take(n) =~= r);
        lemma_first_ordered(a);
    } else {
        let bf = b.drop_last();
        assert((a + b).drop_last() =~= a + bf);
        assert(in_order(bf, by_name())) by {
            assert forall|i: int, j: int|
                #![trigger bf[i], bf[j]]
                0 <= i < j < bf.len() implies !by_name()(bf[j], bf[i]) by {
                assert(bf[i] == b[i] && bf[j] == b[j]);
            }
        }
        lemma_named_parts(a, bf);
        let q = first_named(a + bf);
        assert((a + b).last() == b.last());
        assert(r.take(n) =~= q.take(n));
        assert forall|i: int| n <= i < r.len() implies b.contains(#[trigger] r[i]) by {
            if i < q.len() {
                assert(r[i] == q[i]);
                assert(bf.contains(q[i]));
                let j = choose|j: int| 0 <= j < bf.len() && bf[j] == q[i];
                assert(b[j] == r[i]);
            } else {
                assert(b[b.len() - 1] == r[i]);
            }
        }
        let t = r.skip(n);
        let u = q.skip(n);
        assert forall|i: int, j: int|
            #![trigger t[i], t[j]]
            0 <= i < j < t.len() implies !by_name()(t[j], t[i]) by {
            if j < u.len() {
                assert(t[i] == u[i] && t[j] == u[j]);
            } else {
                assert(t[i] == q[n + i]);
                assert(bf.contains(q[n + i]));
                let k = choose|k: int| 0 <= k < bf.len() && bf[k] == q[n + i];
                assert(b[k] == t[i] && b[b.len() - 1] == t[j]);
            }
        }
    }
}

proof fn lemma_first_ordered(a: Seq<FileView>)
    requires
        in_order(a, by_name()),
    ensures
        in_order(first_named(a), by_name()),
    decreases a.len(),
{
    if a.len() > 0 {
        let front = a.drop_last();
        let q = first_named(front);
        let r = first_named(a);
        assert forall|i: int, j: int|
            #![trigger front[i], front[j]]
            0 <= i < j < front.len() implies !by_name()(front[j], front[i]) by {
            assert(front[i] == a[i] && front[j] == a[j]);
        }
        lemma_first_ordered(front);
        lemma_first_named(front);
        assert forall|i: int, j: int|
            #![trigger r[i], r[j]]
            0 <= i < j < r.len() implies !by_name()(r[j], r[i]) by {
            assert(r[i] == q[i]);
            if j < q.len() {
                assert(r[j] == q[j]);
            } else {
                assert(front.contains(q[i]));
                let k = choose|k: int| 0 <= k < front.len() && front[k] == q[i];
                assert(a[k] == r[i] && a[a.len() - 1] == r[j]);
            }
        }
    }
}

/// The first `n` of the files are those at the root, by name, and the others are
/// under `specs`, by name.
pub open spec fn is_parted(r: Seq<FileView>, d: DirView, n: int) -> bool {
    &&& 0 <= n <= r.len()
    &&& forall|i: int| 0 <= i < n ==> d.files.contains(#[trigger] r[i])
    &&& forall|i: int| n <= i < r.len() ==> d.specs.contains(#[trigger] r[i])
    &&& forall|i: int, j: int|
        0 <= i < j < n ==> !text_lt((#[trigger] r[j]).name, (#[trigger] r[i]).name)
    &&& forall|i: int, j: int|
        n <= i < j < r.len() ==> !text_lt((#[trigger] r[j]).name, (#[trigger] r[i]).name)
}

/// The specs of an app are the files whose names end in `.ioa.toml`, each name once:
/// those at its root, by name, and then those under `specs`, by name, that have no
/// like at the root.
pub proof fn lemma_specs_of_an_app(d: DirView)
    ensures
        ({
            let r = spec_files(d);
            &&& names_differ(r)
            &&& forall|i: int| 0 <= i < r.len() ==> ends((#[trigger] r[i]).name, ".ioa.toml"@)
            &&& exists|n: int| #[trigger] is_parted(r, d, n) && forall|f: FileView|
                #![trigger d.files.contains(f)]
                d.files.contains(f) && ends(f.name, ".ioa.toml"@) ==> has_file(r.take(n), f.name)
            &&& forall|f: FileView|
                #![trigger d.specs.contains(f)]
                d.specs.contains(f) && ends(f.name, ".ioa.toml"@) ==> has_file(r, f.name)
        }),
{
    let a = files_with(d.files, ".ioa.toml"@);
    let b = files_with(d.specs, ".ioa.toml"@);
    let r = spec_files(d);
    let n = first_named(a).len() as int;
    lemma_files_with(d.files, ".ioa.toml"@);
    lemma_files_with(d.specs, ".ioa.toml"@);
    lemma_first_named(a + b);
    lemma_first_named(a);
    lemma_named_parts(a, b);
    assert forall|i: int| 0 <= i < n implies d.files.contains(#[trigger] r[i]) && ends(
        r[i].name,
        ".ioa.toml"@,
    ) by {
        assert(r.take(n)[i] == first_named(a)[i]);
        assert(a.contains(first_named(a)[i]));
    }
    assert forall|i: int| n <= i < r.len() implies d.specs.contains(#[trigger] r[i]) && ends(
        r[i].name,
        ".ioa.toml"@,
    ) by {
        assert(b.contains(r[i]));
    }
    assert forall|i: int, j: int| 0 <= i < j < n implies !text_lt(
        (#[trigger] r[j]).name,
        (#[trigger] r[i]).name,
    ) by {
        assert(r.take(n)[i] == r[i] && r.take(n)[j] == r[j]);
    }
    assert forall|i: int, j: int| n <= i < j < r.len() implies !text_lt(
        (#[trigger] r[j]).name,
        (#[trigger] r[i]).name,
    ) by {
        assert(r.skip(n)[i - n] == r[i] && r.skip(n)[j - n] == r[j]);
    }
    assert(is_parted(r, d, n));
    assert forall|f: FileView|
        #![trigger d.files.contains(f)]
        d.files.contains(f) && ends(f.name, ".ioa.toml"@) implies has_file(r.take(n), f.name) by {
        assert(a.contains(f));
        let j = choose|j: int| 0 <= j < a.len() && a[j] == f;
        assert(has_file(first_named(a), a[j].name));
    }
    assert forall|f: FileView|
        #![trigger d.specs.contains(f)]
        d.specs.contains(f) && ends(f.name, ".ioa.toml"@) implies has_file(r, f.name) by {
        assert(b.contains(f));
        let j = choose|j: int| 0 <= j < b.len() && b[j] == f;
        assert((a + b)[a.len() + j] == f);
        assert(has_file(r, (a + b)[a.len() + j].name));
    }
}

/// The test for files that can be read and hold an automaton.
pub open spec fn holds_automaton() -> spec_fn(FileView) -> bool {
    |f: FileView| f.content is Some && f.automaton is Some
}

proof fn lemma_automata(s: Seq<FileView>)
    ensures
        ({
            let k = keep(s, holds_automaton());
            automata(s) == Seq::new(k.len(), |i: int| k[i].automaton->0)
        }),
    decreases s.len(),
{
    let k = keep(s, holds_automaton());
    if s.len() > 0 {
        lemma_automata(s.drop_last());
        let kf = keep(s.drop_last(), holds_automaton());
        if holds_automaton()(s.last()) {
            assert(k == kf.push(s.last()));
        }
    }
    assert(automata(s) =~= Seq::new(k.len(), |i: int| k[i].automaton->0));
}

/// An app is called as it says, or else as its directory; it has the version and needs
/// the apps that it says; and it brings the types of the automata in its specs that
/// can be read.
pub proof fn lemma_what_an_app_is(d: DirView)
    ensures
        ({
            let e = app_entry(d);
            let k = keep(spec_files(d), holds_automaton());
            &&& e.app_guide == guide(d.files)
            &&& e.entity_types == Seq::new(k.len(), |i: int| k[i].automaton->0)
            &&& d.manifest matches Some(m) ==> e.name == m.name && e.version == m.version
                && e.dependencies == m.dependencies
            &&& d.manifest is None ==> e.name == d.dir_name && e.version == "0.1.0"@
                && e.dependencies.len() == 0
            &&& d.manifest is Some && d.manifest->0.description.len() > 0 ==> e.description
                == d.manifest->0.description
            &&& !(d.manifest is Some && d.manifest->0.description.len() > 0) ==> {
                &&& guide(d.files) is Some && guide_description(guide(d.files)->0) is Some
                    ==> e.description == guide_description(guide(d.files)->0)->0
                &&& guide(d.files) is None || guide_description(guide(d.files)->0) is None
                    ==> e.description == "App: "@ + e.name
            }
        }),
{
    lemma_automata(spec_files(d));
}

/// The file with a name is the first that has it.
pub proof fn lemma_first_file(s: Seq<FileView>, name: Seq<char>, i: int)
    requires
        0 <= i <= s.len(),
        forall|j: int| 0 <= j < i ==> (#[trigger] s[j]).name != name,
    ensures
        i == s.len() ==> file_named(s, name) is None,
        i < s.len() && s[i].name == name ==> file_named(s, name) == Some(s[i]),
    decreases s.len(),
{
    if i > 0 {
        let t = s.drop_first();
        assert(s[0].name != name);
        assert forall|j: int| 0 <= j < i - 1 implies (#[trigger] t[j]).name != name by {
            assert(t[j] == s[j + 1]);
        }
        lemma_first_file(t, name, i - 1);
        if i < s.len() {
            assert(t[i - 1] == s[i]);
        }
    }
}

/// The file with that name cannot be read, or there is none.
pub open spec fn unread(files: Seq<FileView>, name: Seq<char>) -> bool {
    file_named(files, name) is None || file_named(files, name)->0.content is None
}

/// The guide of an app is the first that can be read of `APP.md`, `app.md`,
/// `skill.md` and `SKILL.md`.
pub proof fn lemma_guides(files: Seq<FileView>)
    ensures
        !unread(files, "APP.md"@) ==> guide(files) == file_named(files, "APP.md"@)->0.content,
        unread(files, "APP.md"@) && !unread(files, "app.md"@) ==> guide(files) == file_named(
            files,
            "app.md"@,
        )->0.content,
        unread(files, "APP.md"@) && unread(files, "app.md"@) && !unread(files, "skill.md"@)
            ==> guide(files) == file_named(files, "skill.md"@)->0.content,
        unread(files, "APP.md"@) && unread(files, "app.md"@) && unread(files, "skill.md"@)
            && !unread(files, "SKILL.md"@) ==> guide(files) == file_named(
            files,
            "SKILL.md"@,
        )->0.content,
        unread(files, "APP.md"@) && unread(files, "app.md"@) && unread(files, "skill.md"@)
            && unread(files, "SKILL.md"@) ==> guide(files) is None,
{
}

/// The line describes an app: `description`, an equals sign, and a text that is not
/// empty without its quotes.
pub open spec fn describes(line: Seq<char>, i: int, v: Seq<char>) -> bool {
    let t = trimmed(line);
    &&& occurs_at(t, "="@, i)
    &&& forall|j: int| 0 <= j < i ==> !occurs_at(t, "="@, j)
    &&& trimmed(t.subrange(0, i)) == "description"@
    &&& v == trim_end(
        trim_start(trimmed(t.subrange(i + 1, t.len() as int)), only('"')),
        only('"'),
    )
    &&& v.len() > 0
}

proof fn lemma_described_in(line: Seq<char>)
    ensures
        forall|i: int, v: Seq<char>| #[trigger]
            describes(line, i, v) ==> described_in(line) == Some(v),
        described_in(line) is Some ==> exists|i: int| #[trigger]
            describes(line, i, described_in(line)->0),
{
    let t = trimmed(line);
    lemma_find_at(t, "="@, 0);
    let f = find_at(t, "="@, 0);
    assert forall|i: int, v: Seq<char>| #[trigger] describes(line, i, v) implies described_in(line)
        == Some(v) by {
        if f is Some && f->0 < i {
            assert(!occurs_at(t, "="@, f->0));
        }
        if f is Some && f->0 > i {
            assert(!occurs_at(t, "="@, i));
        }
    }
    if described_in(line) is Some {
        assert(describes(line, f->0, described_in(line)->0));
    }
}

proof fn lemma_described(lines: Seq<Seq<char>>, n: int)
    requires
        0 <= n <= lines.len(),
        forall|k: int| 0 <= k < n ==> described_in(#[trigger] lines[k]) is None,
    ensures
        n == lines.len() ==> described(lines) is None,
        n < lines.len() && described_in(lines[n]) is Some ==> described(lines) == described_in(
            lines[n],
        ),
    decreases lines.len(),
{
    if n > 0 {
        let rest = lines.drop_first();
        assert(described_in(lines[0]) is None);
        assert forall|k: int| 0 <= k < n - 1 implies described_in(#[trigger] rest[k]) is None by {
            assert(rest[k] == lines[k + 1]);
        }
        lemma_described(rest, n - 1);
        if n < lines.len() {
            assert(rest[n - 1] == lines[n]);
        }
    }
}

/// The line describes nothing.
pub open spec fn silent(line: Seq<char>) -> bool {
    forall|i: int, v: Seq<char>| !(#[trigger] describes(line, i, v))
}

/// The guide begins with front matter.
pub open spec fn fronted(guide: Seq<char>, front: Seq<char>) -> bool {
    &&& starts(guide, "+++"@)
    &&& exists|j: int|
        front == guide.subrange(3, j) && 3 <= j && #[trigger] occurs_at(guide, "+++"@, j)
            && forall|k: int| 3 <= k < j ==> !(#[trigger] occurs_at(guide, "+++"@, k))
}

proof fn lemma_shifted(guide: Seq<char>, p: Seq<char>, n: int, k: int)
    requires
        0 <= n <= guide.len(),
        0 <= k,
    ensures
        occurs_at(guide.skip(n), p, k) <==> occurs_at(guide, p, n + k),
{
    if k + p.len() <= guide.skip(n).len() {
        assert(guide.skip(n).subrange(k, k + p.len()) =~= guide.subrange(n + k, n + k + p.len()));
    }
}

proof fn lemma_fronted(guide: Seq<char>, front: Seq<char>)
    requires
        fronted(guide, front),
    ensures
        crate::catalog::front_matter(guide) == Some(front),
{
    reveal_strlit("+++");
    assert("+++"@.len() == 3);
    let rest = guide.skip(3);
    let j = choose|j: int|
        front == guide.subrange(3, j) && 3 <= j && #[trigger] occurs_at(guide, "+++"@, j)
            && forall|k: int| 3 <= k < j ==> !(#[trigger] occurs_at(guide, "+++"@, k));
    lemma_shifted(guide, "+++"@, 3, j - 3);
    lemma_find_at(rest, "+++"@, 0);
    let f = find_at(rest, "+++"@, 0);
    assert(f is Some && f->0 == j - 3) by {
        if f is Some && f->0 > j - 3 {
            assert(!occurs_at(rest, "+++"@, j - 3));
        }
        if f is Some && f->0 < j - 3 {
            lemma_shifted(guide, "+++"@, 3, f->0);
            assert(!occurs_at(guide, "+++"@, 3 + f->0));
        }
    }
    assert(rest.subrange(0, j - 3) =~= front);
}

/// A guide with front matter describes the app in the first line of it that does.
pub proof fn lemma_front_matter_describes(guide: Seq<char>, front: Seq<char>, n: int, v: Seq<char>)
    requires
        fronted(guide, front),
        0 <= n < pieces(front, only('\n')).len(),
        forall|k: int| 0 <= k < n ==> silent(#[trigger] pieces(front, only('\n'))[k]),
        exists|i: int| describes(pieces(front, only('\n'))[n], i, v),
    ensures
        guide_description(guide) == Some(v),
{
    lemma_fronted(guide, front);
    let lines = pieces(front, only('\n'));
    assert forall|k: int| 0 <= k < n implies described_in(#[trigger] lines[k]) is None by {
        lemma_described_in(lines[k]);
        assert(silent(lines[k]));
    }
    lemma_described_in(lines[n]);
    lemma_described(lines, n);
}

/// The line is white, a heading, or a mark of front matter.
pub open spec fn passed_over(line: Seq<char>) -> bool {
    trimmed(line).len() == 0 || starts(trimmed(line), "#"@) || starts(trimmed(line), "+++"@)
}

proof fn lemma_first_paragraph(lines: Seq<Seq<char>>, n: int)
    requires
        0 <= n <= lines.len(),
        forall|k: int| 0 <= k < n ==> passed_over(#[trigger] lines[k]),
    ensures
        n == lines.len() ==> first_paragraph(lines) is None,
        n < lines.len() && !passed_over(lines[n]) ==> first_paragraph(lines) == Some(
            trimmed(lines[n]),
        ),
    decreases lines.len(),
{
    if n > 0 {
        let rest = lines.drop_first();
        assert(passed_over(lines[0]));
        assert forall|k: int| 0 <= k < n - 1 implies passed_over(#[trigger] rest[k]) by {
            assert(rest[k] == lines[k + 1]);
        }
        lemma_first_paragraph(rest, n - 1);
        if n < lines.len() {
            assert(rest[n - 1] == lines[n]);
        }
    }
}

/// A guide without front matter, or in whose front matter no line describes the app,
/// describes it in its first line with text that is no heading.
pub proof fn lemma_first_lines_describe(guide: Seq<char>, front: Seq<char>, n: int)
    requires
        !starts(guide, "+++"@) || (fronted(guide, front) && forall|k: int|
            0 <= k < pieces(front, only('\n')).len() ==> silent(
                #[trigger] pieces(front, only('\n'))[k],
            )),
        0 <= n <= pieces(guide, only('\n')).len(),
        forall|k: int| 0 <= k < n ==> passed_over(#[trigger] pieces(guide, only('\n'))[k]),
    ensures
        n == pieces(guide, only('\n')).len() ==> guide_description(guide) is None,
        n < pieces(guide, only('\n')).len() && !passed_over(pieces(guide, only('\n'))[n])
            ==> guide_description(guide) == Some(trimmed(pieces(guide, only('\n'))[n])),
{
    lemma_first_paragraph(pieces(guide, only('\n')), n);
    if starts(guide, "+++"@) {
        lemma_fronted(guide, front);
        let lines = pieces(front, only('\n'));
        assert forall|k: int| 0 <= k < lines.len() implies described_in(
            #[trigger] lines[k],
        ) is None by {
            lemma_described_in(lines[k]);
            assert(silent(lines[k]));
        }
        lemma_described(lines, lines.len() as int);
    }
}

/// A catalog lists the apps by the names of their directories, each with its entry;
/// what could not be read lists none.
pub proof fn lemma_catalogs(dir: Seq<char>, found: Option<Seq<DirView>>)
    ensures
        catalog_of(dir, found).apps_dir == dir,
        found is None ==> catalog_of(dir, found).entries.len() == 0 && catalog_of(dir, found).paths
            == Map::<Seq<char>, Seq<char>>::empty(),
        found is Some ==> exists|s: Seq<DirView>| #[trigger]
            lists(catalog_of(dir, found), found->0, s),
{
    if found is Some {
        let f = found->0;
        let s = arranged(f, dir_before());
        assert forall|a: DirView, b: DirView, c: DirView|
            !(#[trigger] dir_before()(a, b)) && !(#[trigger] dir_before()(b, c)) implies !dir_before()(
            a,
            c,
        ) by {
            lemma_text_weak(a.dir_name, b.dir_name, c.dir_name);
        }
        assert forall|a: DirView, b: DirView| #[trigger] dir_before()(a, b) implies !dir_before()(
            b,
            a,
        ) by {
            lemma_text_weak(a.dir_name, b.dir_name, b.dir_name);
        }
        lemma_arranged(f, dir_before());
        assert forall|i: int, j: int| 0 <= i < j < s.len() implies !text_lt(
            (#[trigger] s[j]).dir_name,
            (#[trigger] s[i]).dir_name,
        ) by {
            assert(!dir_before()(s[j], s[i]));
        }
        assert forall|i: int|
            0 <= i < s.len() && (forall|j: int|
                0 <= j < i ==> app_name(#[trigger] s[j]) != app_name(s[i])) implies paths_of(
            s,
        ).contains_pair(app_name(#[trigger] s[i]), s[i].path) by {
            lemma_first_place(s, i);
        }
        assert(lists(catalog_of(dir, found), f, s));
    }
}

proof fn lemma_first_place(s: Seq<DirView>, i: int)
    requires
        0 <= i < s.len(),
        forall|j: int| 0 <= j < i ==> app_name(#[trigger] s[j]) != app_name(s[i]),
    ensures
        paths_of(s).contains_pair(app_name(s[i]), s[i].path),
    decreases s.len(),
{
    let front = s.drop_last();
    if i < front.len() {
        assert(front[i] == s[i]);
        assert forall|j: int| 0 <= j < i implies app_name(#[trigger] front[j]) != app_name(
            front[i],
        ) by {
            assert(front[j] == s[j]);
        }
        lemma_first_place(front, i);
    } else {
        lemma_no_place(front, app_name(s[i]));
    }
}

proof fn lemma_no_place(s: Seq<DirView>, name: Seq<char>)
    requires
        forall|j: int| 0 <= j < s.len() ==> app_name(#[trigger] s[j]) != name,
    ensures
        !paths_of(s).contains_key(name),
    decreases s.len(),
{
    if s.len() > 0 {
        let front = s.drop_last();
        assert forall|j: int| 0 <= j < front.len() implies app_name(#[trigger] front[j]) != name by {
            assert(front[j] == s[j]);
        }
        lemma_no_place(front, name);
        assert(app_name(s[s.len() - 1]) != name);
    }
}

/// The catalog lists the directories in the order of their names; of two apps with one
/// name, the place is that of the first.
pub open spec fn lists(c: CatalogView, f: Seq<DirView>, s: Seq<DirView>) -> bool {
    &&& s.to_multiset() == f.to_multiset()
    &&& forall|i: int, j: int|
        0 <= i < j < s.len() ==> !text_lt((#[trigger] s[j]).dir_name, (#[trigger] s[i]).dir_name)
    &&& c.entries == Seq::new(s.len(), |i: int| app_entry(s[i]))
    &&& forall|i: int|
        0 <= i < s.len() && (forall|j: int|
            0 <= j < i ==> app_name(#[trigger] s[j]) != app_name(s[i])) ==> c.paths.contains_pair(
            app_name(#[trigger] s[i]),
            s[i].path,
        )
}

/// The catalog is that of the first place that can be read.
pub proof fn lemma_first_place_counts(
    places: Seq<(Seq<char>, Option<Seq<DirView>>)>,
    i: int,
)
    requires
        0 <= i <= places.len(),
        forall|j: int| 0 <= j < i ==> (#[trigger] places[j]).1 is None,
    ensures
        i < places.len() && places[i].1 is Some ==> discovered(places) == catalog_of(
            places[i].0,
            places[i].1,
        ),
        i == places.len() ==> discovered(places).entries.len() == 0,
    decreases places.len(),
{
    if i > 0 {
        let rest = places.drop_first();
        assert(places[0].1 is None);
        assert forall|j: int| 0 <= j < i - 1 implies (#[trigger] rest[j]).1 is None by {
            assert(rest[j] == places[j + 1]);
        }
        lemma_first_place_counts(rest, i - 1);
        if i < places.len() {
            assert(rest[i - 1] == places[i]);
        }
    }
}

/// Adding apps adds each whose name is new, and nothing else.
pub proof fn lemma_new_apps_are_added(s: Seq<EntryView>, more: Seq<EntryView>, i: int)
    requires
        0 <= i < more.len(),
    ensures
        has_entry(merged_entries(s, more), more[i].name),
        forall|k: int|
            s.len() <= k < merged_entries(s, more).len() ==> more.contains(
                #[trigger] merged_entries(s, more)[k],
            ) && !has_entry(s, merged_entries(s, more)[k].name),
    decreases more.len(),
{
    let m = merged_entries(s, more);
    let front = more.drop_last();
    let rest = merged_entries(s, front);
    lemma_only_new(s, more);
    if i < front.len() {
        lemma_new_apps_are_added(s, front, i);
        assert(front[i] == more[i]);
        let k = choose|k: int| 0 <= k < rest.len() && (#[trigger] rest[k]).name == more[i].name;
        assert(m[k] == rest[k]);
    } else if has_entry(rest, more[i].name) {
        let k = choose|k: int| 0 <= k < rest.len() && (#[trigger] rest[k]).name == more[i].name;
        assert(m[k] == rest[k]);
    } else {
        assert(m[rest.len() as int] == more[i]);
    }
}

proof fn lemma_only_new(s: Seq<EntryView>, more: Seq<EntryView>)
    ensures
        forall|k: int|
            s.len() <= k < merged_entries(s, more).len() ==> more.contains(
                #[trigger] merged_entries(s, more)[k],
            ) && !has_entry(s, merged_entries(s, more)[k].name),
        merged_entries(s, more).len() >= s.len(),
        forall|k: int| 0 <= k < s.len() ==> #[trigger] merged_entries(s, more)[k] == s[k],
    decreases more.len(),
{
    if more.len() > 0 {
        let m = merged_entries(s, more);
        let front = more.drop_last();
        let rest = merged_entries(s, front);
        lemma_only_new(s, front);
        assert forall|k: int| s.len() <= k < m.len() implies more.contains(#[trigger] m[k])
            && !has_entry(s, m[k].name) by {
            if k < rest.len() {
                assert(m[k] == rest[k]);
                assert(front.contains(rest[k]));
                let j = choose|j: int| 0 <= j < front.len() && front[j] == rest[k];
                assert(more[j] == m[k]);
            } else {
                assert(more[more.len() - 1] == m[k]);
                if has_entry(s, m[k].name) {
                    let j = choose|j: int| 0 <= j < s.len() && (#[trigger] s[j]).name == m[k].name;
                    assert(rest[j].name == m[k].name);
                }
            }
        }
    }
}

proof fn lemma_entry(s: Seq<EntryView>, name: Seq<char>, i: int)
    requires
        0 <= i <= s.len(),
        forall|j: int| 0 <= j < i ==> (#[trigger] s[j]).name != name,
    ensures
        i == s.len() ==> entry_named(s, name) is None,
        i < s.len() && s[i].name == name ==> entry_named(s, name) == Some(s[i]),
    decreases s.len(),
{
    if i > 0 {
        let t = s.drop_first();
        assert(s[0].name != name);
        assert forall|j: int| 0 <= j < i - 1 implies (#[trigger] t[j]).name != name by {
            assert(t[j] == s[j + 1]);
        }
        lemma_entry(t, name, i - 1);
        if i < s.len() {
            assert(t[i - 1] == s[i]);
        }
    }
}

/// The first app with a name gives its guide, and the apps that it needs: those that
/// it names; or else, for the agent, the files.
pub proof fn lemma_what_an_app_needs(s: Seq<EntryView>, name: Seq<char>, i: int)
    requires
        0 <= i <= s.len(),
        forall|j: int| 0 <= j < i ==> (#[trigger] s[j]).name != name,
        i < s.len() ==> s[i].name == name,
    ensures
        i < s.len() ==> guide_of(s, name) == s[i].app_guide,
        i == s.len() ==> guide_of(s, name) is None,
        i < s.len() && s[i].dependencies.len() > 0 ==> dependencies(s, name) == s[i].dependencies,
        !(i < s.len() && s[i].dependencies.len() > 0) && name == "temper-agent"@ ==> dependencies(
            s,
            name,
        ) == seq!["temper-fs"@],
        !(i < s.len() && s[i].dependencies.len() > 0) && name != "temper-agent"@ ==> dependencies(
            s,
            name,
        ).len() == 0,
{
    lemma_entry(s, name, i);
}

/// The model of an app is the one at its root, else the one under `specs`, else the
/// first by name under `csdl`.
pub proof fn lemma_models(d: DirView)
    ensures
        file_named(d.files, "model.csdl.xml"@) matches Some(f) ==> model(d) == f.content,
        file_named(d.files, "model.csdl.xml"@) is None ==> (file_named(
            d.specs,
            "model.csdl.xml"@,
        ) matches Some(f) ==> model(d) == f.content),
        file_named(d.files, "model.csdl.xml"@) is None && file_named(
            d.specs,
            "model.csdl.xml"@,
        ) is None ==> {
            &&& (forall|f: FileView| #[trigger]
                d.csdl.contains(f) ==> !ends(f.name, ".csdl.xml"@)) ==> model(d) is None
            &&& forall|f: FileView|
                (#[trigger] d.csdl.contains(f) && ends(f.name, ".csdl.xml"@) && forall|g: FileView|
                    g != f && #[trigger] d.csdl.contains(g) && ends(g.name, ".csdl.xml"@)
                        ==> text_lt(f.name, g.name)) ==> model(d) == f.content
        },
{
    let s = files_with(d.csdl, ".csdl.xml"@);
    lemma_files_with(d.csdl, ".csdl.xml"@);
    if s.len() > 0 {
        assert(s.contains(s[0]));
        assert(d.csdl.contains(s[0]));
        assert forall|f: FileView|
            (#[trigger] d.csdl.contains(f) && ends(f.name, ".csdl.xml"@) && forall|g: FileView|
                g != f && #[trigger] d.csdl.contains(g) && ends(g.name, ".csdl.xml"@) ==> text_lt(
                    f.name,
                    g.name,
                )) implies s[0] == f by {
            assert(s.contains(f));
            let k = choose|k: int| 0 <= k < s.len() && s[k] == f;
            if s[0] != f {
                assert(text_lt(f.name, s[0].name));
                assert(!by_name()(s[k], s[0]));
            }
        }
    } else {
        assert forall|f: FileView| #[trigger] d.csdl.contains(f) implies !ends(
            f.name,
            ".csdl.xml"@,
        ) by {
            if ends(f.name, ".csdl.xml"@) {
                assert(s.contains(f));
            }
        }
    }
}

/// The test for files that can be read.
pub open spec fn is_read() -> spec_fn(FileView) -> bool {
    |f: FileView| f.content is Some
}

proof fn lemma_contents(s: Seq<FileView>)
    ensures
        ({
            let k = keep(s, is_read());
            contents(s) == Seq::new(k.len(), |i: int| k[i].content->0)
        }),
    decreases s.len(),
{
    let k = keep(s, is_read());
    if s.len() > 0 {
        lemma_contents(s.drop_last());
        let kf = keep(s.drop_last(), is_read());
        if is_read()(s.last()) {
            assert(k == kf.push(s.last()));
        }
    }
    assert(contents(s) =~= Seq::new(k.len(), |i: int| k[i].content->0));
}

/// The policies of an app are what the files under `policies` hold whose names end in
/// `.cedar`, by name, where they can be read.
pub proof fn lemma_policies_of_an_app(d: DirView)
    ensures
        exists|s: Seq<FileView>| #[trigger] are_policies(s, d) && {
            let k = keep(s, is_read());
            policies(d) == Seq::new(k.len(), |i: int| k[i].content->0)
        },
{
    let s = files_with(d.policies, ".cedar"@);
    lemma_files_with(d.policies, ".cedar"@);
    lemma_contents(s);
    assert forall|i: int, j: int| 0 <= i < j < s.len() implies !text_lt(
        (#[trigger] s[j]).name,
        (#[trigger] s[i]).name,
    ) by {
        assert(!by_name()(s[j], s[i]));
    }
    assert(are_policies(s, d));
}

/// The files are those under `policies` with policies, by name.
pub open spec fn are_policies(s: Seq<FileView>, d: DirView) -> bool {
    &&& forall|f: FileView| #[trigger]
        s.contains(f) <==> d.policies.contains(f) && ends(f.name, ".cedar"@)
    &&& forall|i: int, j: int|
        0 <= i < j < s.len() ==> !text_lt((#[trigger] s[j]).name, (#[trigger] s[i]).name)
}

/// The modules of an app are those that can be read, by name, but for what a build
/// left under `target`.
pub proof fn lemma_modules_of_an_app(d: DirView)
    ensures
        forall|w: WasmView| #[trigger]
            modules(d).contains(w) <==> d.wasm.contains(w) && w.name != "target"@
                && w.bytes is Some,
        forall|i: int, j: int|
            0 <= i < j < modules(d).len() ==> !text_lt(
                (#[trigger] modules(d)[j]).name,
                (#[trigger] modules(d)[i]).name,
            ),
{
    let k = keep(d.wasm, readable_modules());
    let s = modules(d);
    assert forall|a: WasmView, b: WasmView, c: WasmView|
        !(#[trigger] module_before()(a, b)) && !(#[trigger] module_before()(
            b,
            c,
        )) implies !module_before()(a, c) by {
        lemma_text_weak(a.name, b.name, c.name);
    }
    assert forall|a: WasmView, b: WasmView| #[trigger] module_before()(
        a,
        b,
    ) implies !module_before()(b, a) by {
        lemma_text_weak(a.name, b.name, b.name);
    }
    lemma_arranged(k, module_before());
    lemma_arranged_keeps(k, module_before(), |w: WasmView| true);
    lemma_keep(d.wasm, readable_modules());
    assert forall|w: WasmView| #[trigger] s.contains(w) <==> d.wasm.contains(w) && w.name
        != "target"@ && w.bytes is Some by {
        if s.contains(w) {
            assert(k.contains(w));
            let i = choose|i: int| 0 <= i < k.len() && k[i] == w;
            assert(readable_modules()(k[i]) && d.wasm.contains(k[i]));
        }
        if d.wasm.contains(w) && w.name != "target"@ && w.bytes is Some {
            let i = choose|i: int| 0 <= i < d.wasm.len() && d.wasm[i] == w;
            assert(readable_modules()(d.wasm[i]));
            assert(k.contains(d.wasm[i]));
        }
    }
    assert forall|i: int, j: int| 0 <= i < j < s.len() implies !text_lt(
        (#[trigger] s[j]).name,
        (#[trigger] s[i]).name,
    ) by {
        assert(!module_before()(s[j], s[i]));
    }
}

proof fn lemma_specs_in(s: Seq<FileView>)
    ensures
        specs_in(s) is Some <==> forall|i: int| 0 <= i < s.len() ==> holds_automaton()(#[trigger] s[i]),
        specs_in(s) is Some ==> specs_in(s)->0 == Seq::new(
            s.len(),
            |i: int| (s[i].automaton->0, s[i].content->0),
        ),
    decreases s.len(),
{
    if s.len() > 0 {
        let front = s.drop_last();
        lemma_specs_in(front);
        if forall|i: int| 0 <= i < s.len() ==> holds_automaton()(#[trigger] s[i]) {
            assert forall|i: int| 0 <= i < front.len() implies holds_automaton()(
                #[trigger] front[i],
            ) by {
                assert(front[i] == s[i]);
            }
            assert(holds_automaton()(s[s.len() - 1]));
        }
        if specs_in(s) is Some {
            assert forall|i: int| 0 <= i < s.len() implies holds_automaton()(#[trigger] s[i]) by {
                if i < front.len() {
                    assert(front[i] == s[i]);
                }
            }
        }
    }
    if specs_in(s) is Some {
        assert(specs_in(s)->0 =~= Seq::new(
            s.len(),
            |i: int| (s[i].automaton->0, s[i].content->0),
        ));
    }
}

/// An app brings all its specs, each with its type, or nothing at all where one of
/// them cannot be read; with its model, its policies and its modules. Where it has
/// none of these, and no guide, it brings nothing.
pub proof fn lemma_what_an_app_brings(d: DirView)
    ensures
        ({
            let s = spec_files(d);
            let whole = forall|i: int|
                0 <= i < s.len() ==> (#[trigger] s[i]).content is Some && s[i].automaton is Some;
            let nothing = s.len() == 0 && policies(d).len() == 0 && modules(d).len() == 0 && guide(
                d.files,
            ) is None && model(d) is None;
            &&& bundle(d) is Some <==> whole && !nothing
            &&& bundle(d) matches Some(b) ==> {
                &&& b.specs == Seq::new(s.len(), |i: int| (s[i].automaton->0, s[i].content->0))
                &&& b.csdl == model(d)
                &&& b.cedar_policies == policies(d)
                &&& b.wasm_modules == modules(d)
            }
        }),
{
    let s = spec_files(d);
    lemma_specs_in(s);
    if specs_in(s) is Some {
        assert forall|i: int| 0 <= i < s.len() implies (#[trigger] s[i]).content is Some
            && s[i].automaton is Some by {
            assert(holds_automaton()(s[i]));
        }
    } else if forall|i: int|
        0 <= i < s.len() ==> (#[trigger] s[i]).content is Some && s[i].automaton is Some {
        assert forall|i: int| 0 <= i < s.len() implies holds_automaton()(#[trigger] s[i]) by {}
    }
}

proof fn lemma_dir_at(s: Seq<DirView>, path: Seq<char>, i: int)
    requires
        0 <= i <= s.len(),
        forall|j: int| 0 <= j < i ==> (#[trigger] s[j]).path != path,
    ensures
        i == s.len() ==> dir_at(s, path) is None,
        i < s.len() && s[i].path == path ==> dir_at(s, path) == Some(s[i]),
    decreases s.len(),
{
    if i > 0 {
        let t = s.drop_first();
        assert(s[0].path != path);
        assert forall|j: int| 0 <= j < i - 1 implies (#[trigger] t[j]).path != path by {
            assert(t[j] == s[j + 1]);
        }
        lemma_dir_at(t, path, i - 1);
        if i < s.len() {
            assert(t[i - 1] == s[i]);
        }
    }
}

/// An app brings what the directory at its place holds now; an app that is not known,
/// or whose directory is gone, brings nothing.
pub proof fn lemma_where_an_app_is(c: CatalogView, name: Seq<char>, disk: Seq<DirView>, i: int)
    requires
        0 <= i <= disk.len(),
        c.paths.contains_key(name) ==> forall|j: int|
            0 <= j < i ==> (#[trigger] disk[j]).path != c.paths[name],
        c.paths.contains_key(name) && i < disk.len() ==> disk[i].path == c.paths[name],
    ensures
        !c.paths.contains_key(name) ==> app_bundle(c, name, disk) is None,
        c.paths.contains_key(name) && i == disk.len() ==> app_bundle(c, name, disk) is None,
        c.paths.contains_key(name) && i < disk.len() ==> app_bundle(c, name, disk) == bundle(
            disk[i],
        ),
{
    if c.paths.contains_key(name) {
        lemma_dir_at(disk, c.paths[name], i);
    }
}

} // verus!
