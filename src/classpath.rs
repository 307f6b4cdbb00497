use vstd::prelude::*;
use crate::layout::{join, join_path, jar_path, jar_path_spec, InstanceLayout};
use crate::model::{char_string, FabricJSON, Library, LibraryDownloads, VersionDetails};
use crate::text::views;

verus! {

/// The artifact path of a library with an ordinary download.
pub open spec fn normal_artifact(l: Library) -> Option<Seq<char>> {
    match l.downloads {
        Some(LibraryDownloads::Normal { artifact_path }) => Some(artifact_path@),
        _ => None,
    }
}

/// The paths of the ordinary libraries of `libs`, in order, under `dir`.
pub open spec fn candidates(libs: Seq<Library>, dir: Seq<char>, sep: char) -> Seq<Seq<char>>
    decreases libs.len(),
{
    if libs.len() == 0 {
        Seq::empty()
    } else {
        let c = candidates(libs.drop_last(), dir, sep);
        match normal_artifact(libs.last()) {
            Some(p) => c.push(join(dir, p, sep)),
            None => c,
        }
    }
}

/// The first `n` of `c` whose flag in `present` is set, in order.
pub open spec fn kept(c: Seq<Seq<char>>, present: Seq<bool>, n: int) -> Seq<Seq<char>>
    decreases n,
{
    if n <= 0 {
        Seq::empty()
    } else {
        let k = kept(c, present, n - 1);
        if present[n - 1] {
            k.push(c[n - 1])
        } else {
            k
        }
    }
}

/// Each of `e` followed by `sep`.
pub open spec fn entries_text(e: Seq<Seq<char>>, sep: char) -> Seq<char>
    decreases e.len(),
{
    if e.len() == 0 {
        Seq::empty()
    } else {
        entries_text(e.drop_last(), sep) + e.last() + seq![sep]
    }
}

/// The classpath of the entries `e` and the main jar `jar`.
pub open spec fn class_path_text(e: Seq<Seq<char>>, jar: Seq<char>, sep: char) -> Seq<char> {
    entries_text(e, sep) + jar
}

/// The paths of a mod loader's libraries under `dir`.
pub open spec fn overlay_paths(fabric: Option<FabricJSON>, dir: Seq<char>, sep: char) -> Seq<
    Seq<char>,
> {
    match fabric {
        Some(f) => views(f.libraries@).map_values(|p: Seq<char>| join(dir, p, sep)),
        None => Seq::empty(),
    }
}

/// The full classpath: the ordinary libraries that are present, then the
/// mod loader's libraries, then the version's main jar.
pub open spec fn class_path_spec(
    version: VersionDetails,
    layout: InstanceLayout,
    fabric: Option<FabricJSON>,
    present: Seq<bool>,
    path_sep: char,
    cp_sep: char,
) -> Seq<char> {
    let c = candidates(version.libraries@, layout.libraries_dir@, path_sep);
    class_path_text(
        kept(c, present, c.len() as int) + overlay_paths(fabric, layout.libraries_dir@, path_sep),
        jar_path_spec(layout.minecraft_dir@, version.id@, path_sep),
        cp_sep,
    )
}

/// The paths of the ordinary libraries of `version` under `libraries_dir`:
/// the files whose presence decides the classpath.
pub fn library_candidates(version: &VersionDetails, libraries_dir: &str, sep: char) -> (r: Vec<
    String,
>)
    ensures
        views(r@) == candidates(version.libraries@, libraries_dir@, sep),
{
    let mut r: Vec<String> = Vec::new();
    let mut i: usize = 0;
    while i < version.libraries.len()
        invariant
            i <= version.libraries.len(),
            views(r@) == candidates(version.libraries@.take(i as int), libraries_dir@, sep),
        decreases version.libraries.len() - i,
    {
        let ghost before = views(r@);
        assert(version.libraries@.take(i + 1).drop_last() =~= version.libraries@.take(i as int));
        assert(version.libraries@.take(i + 1).last() == version.libraries@[i as int]);
        match &version.libraries[i].downloads {
            Some(LibraryDownloads::Normal { artifact_path }) => {
                r.push(join_path(libraries_dir, artifact_path.as_str(), sep));
                assert(views(r@) =~= before.push(join(libraries_dir@, artifact_path@, sep)));
            },
            _ => {},
        }
        i = i + 1;
    }
    assert(version.libraries@.take(i as int) =~= version.libraries@);
    r
}

/// Builds the classpath of `version` for the instance laid out as `layout`.
/// `present[i]` says whether the `i`-th of `library_candidates` exists on
/// disk; those that do not are left out. The mod loader's libraries and the
/// main jar are always put in.
pub fn get_class_path(
    version_json: &VersionDetails,
    layout: &InstanceLayout,
    fabric_json: &Option<FabricJSON>,
    present: &Vec<bool>,
    path_sep: char,
    cp_sep: char,
) -> (r: String)
    requires
        present.len() == candidates(version_json.libraries@, layout.libraries_dir@, path_sep).len(),
    ensures
        r@ == class_path_spec(*version_json, *layout, *fabric_json, present@, path_sep, cp_sep),
{
    let cands = library_candidates(version_json, layout.libraries_dir.as_str(), path_sep);
    let ghost c = views(cands@);
    let sep = char_string(cp_sep);
    let mut out = String::new();
    let mut i: usize = 0;
    while i < cands.len()
        invariant
            c == views(cands@),
            present.len() == cands.len(),
            sep@ == seq![cp_sep],
            i <= cands.len(),
            out@ == entries_text(kept(c, present@, i as int), cp_sep),
        decreases cands.len() - i,
    {
        if present[i] {
            let ghost k = kept(c, present@, i as int);
            out.append(cands[i].as_str());
            out.append(sep.as_str());
            assert(k.push(c[i as int]).drop_last() =~= k);
            assert(out@ =~= entries_text(k.push(c[i as int]), cp_sep));
        }
        i = i + 1;
    }
    let ghost base = kept(c, present@, c.len() as int);
    let ghost ov = overlay_paths(*fabric_json, layout.libraries_dir@, path_sep);
    match fabric_json {
        Some(f) => {
            let mut k: usize = 0;
            while k < f.libraries.len()
                invariant
                    sep@ == seq![cp_sep],
                    k <= f.libraries.len(),
                    ov == views(f.libraries@).map_values(
                        |p: Seq<char>| join(layout.libraries_dir@, p, path_sep),
                    ),
                    out@ == entries_text(base + ov.take(k as int), cp_sep),
                decreases f.libraries.len() - k,
            {
                let p = join_path(layout.libraries_dir.as_str(), f.libraries[k].as_str(), path_sep);
                out.append(p.as_str());
                out.append(sep.as_str());
                assert((base + ov.take(k + 1)).drop_last() =~= base + ov.take(k as int));
                assert((base + ov.take(k + 1)).last() == p@);
                k = k + 1;
            }
            assert(ov.take(k as int) =~= ov);
        },
        None => {
            assert(base + ov =~= base);
        },
    }
    let jar = jar_path(layout.minecraft_dir.as_str(), version_json.id.as_str(), path_sep);
    out.append(jar.as_str());
    out
}


/// When every candidate is present, the kept entries are the candidates
/// themselves, in their listed order.
pub proof fn lemma_kept_all_present(c: Seq<Seq<char>>, present: Seq<bool>, n: int)
    requires
        0 <= n <= c.len(),
        n <= present.len(),
        forall|i: int| 0 <= i < n ==> #[trigger] present[i],
    ensures
        kept(c, present, n) == c.take(n),
    decreases n,
{
    if n > 0 {
        lemma_kept_all_present(c, present, n - 1);
        assert(c.take(n - 1).push(c[n - 1]) =~= c.take(n));
    }
}

/// An entry is kept exactly when it is a candidate whose file is present:
/// missing libraries are left out, and nothing else is.
pub proof fn lemma_kept_members(c: Seq<Seq<char>>, present: Seq<bool>, n: int, x: Seq<char>)
    requires
        0 <= n <= c.len(),
        n <= present.len(),
    ensures
        kept(c, present, n).contains(x) <==> exists|i: int|
            0 <= i < n && present[i] && #[trigger] c[i] == x,
    decreases n,
{
    if n > 0 {
        lemma_kept_members(c, present, n - 1, x);
        let k = kept(c, present, n - 1);
        if present[n - 1] {
            if k.push(c[n - 1]).contains(x) {
                let j = choose|j: int| 0 <= j < k.len() + 1 && #[trigger] k.push(c[n - 1])[j] == x;
                if j == k.len() {
                    assert(c[n - 1] == x);
                } else {
                    assert(k[j] == x);
                }
            }
            if exists|i: int| 0 <= i < n && present[i] && #[trigger] c[i] == x {
                let i = choose|i: int| 0 <= i < n && present[i] && #[trigger] c[i] == x;
                if i == n - 1 {
                    assert(k.push(c[n - 1])[k.len() as int] == x);
                } else {
                    let j = choose|j: int| 0 <= j < k.len() && #[trigger] k[j] == x;
                    assert(k.push(c[n - 1])[j] == x);
                }
            }
        } else {
            if exists|i: int| 0 <= i < n && present[i] && #[trigger] c[i] == x {
                let i = choose|i: int| 0 <= i < n && present[i] && #[trigger] c[i] == x;
                assert(i != n - 1);
            }
        }
    }
}

/// The main jar always ends the classpath, whether its file exists or not.
pub proof fn lemma_class_path_ends_with_jar(e: Seq<Seq<char>>, jar: Seq<char>, sep: char)
    ensures
        ({
            let t = class_path_text(e, jar, sep);
            jar.len() <= t.len() && t.subrange(t.len() - jar.len(), t.len() as int) == jar
        }),
{
    let t = class_path_text(e, jar, sep);
    assert(t.subrange(t.len() - jar.len(), t.len() as int) =~= jar);
}

/// With no library present and no mod loader, the classpath is the main jar
/// alone.
pub proof fn lemma_class_path_only_jar(
    version: VersionDetails,
    layout: InstanceLayout,
    present: Seq<bool>,
    path_sep: char,
    cp_sep: char,
)
    requires
        present.len() == candidates(version.libraries@, layout.libraries_dir@, path_sep).len(),
        forall|i: int| 0 <= i < present.len() ==> !#[trigger] present[i],
    ensures
        class_path_spec(version, layout, None, present, path_sep, cp_sep) == jar_path_spec(
            layout.minecraft_dir@,
            version.id@,
            path_sep,
        ),
{
    let c = candidates(version.libraries@, layout.libraries_dir@, path_sep);
    lemma_kept_none_present(c, present, c.len() as int);
    let e = kept(c, present, c.len() as int) + overlay_paths(None, layout.libraries_dir@, path_sep);
    assert(e =~= Seq::<Seq<char>>::empty());
    assert(class_path_text(e, jar_path_spec(layout.minecraft_dir@, version.id@, path_sep), cp_sep)
        =~= jar_path_spec(layout.minecraft_dir@, version.id@, path_sep));
}

proof fn lemma_kept_none_present(c: Seq<Seq<char>>, present: Seq<bool>, n: int)
    requires
        n <= present.len(),
        forall|i: int| 0 <= i < present.len() ==> !#[trigger] present[i],
    ensures
        kept(c, present, n).len() == 0,
    decreases n,
{
    if n > 0 {
        lemma_kept_none_present(c, present, n - 1);
    }
}


/// The classpath depends on nothing but the candidate library paths, their
/// presence, the mod loader's library paths and the main jar: two builds
/// over the same of these give the same text, entry for entry.
pub proof fn lemma_class_path_repeatable(
    v1: VersionDetails,
    v2: VersionDetails,
    l1: InstanceLayout,
    l2: InstanceLayout,
    f1: Option<FabricJSON>,
    f2: Option<FabricJSON>,
    present: Seq<bool>,
    path_sep: char,
    cp_sep: char,
)
    requires
        candidates(v1.libraries@, l1.libraries_dir@, path_sep) == candidates(
            v2.libraries@,
            l2.libraries_dir@,
            path_sep,
        ),
        overlay_paths(f1, l1.libraries_dir@, path_sep) == overlay_paths(
            f2,
            l2.libraries_dir@,
            path_sep,
        ),
        v1.id@ == v2.id@,
        l1.minecraft_dir@ == l2.minecraft_dir@,
    ensures
        class_path_spec(v1, l1, f1, present, path_sep, cp_sep) == class_path_spec(
            v2,
            l2,
            f2,
            present,
            path_sep,
            cp_sep,
        ),
{
}

} // verus!
