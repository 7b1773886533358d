//! Compatibility policy and the index-rewrite algorithm: keep the wheels
//! the target runtime can install, drop the rest, and advertise one
//! synthesized, self-referencing wheel entry per version that only exists
//! as a source tarball.

use vstd::prelude::*;

use crate::pep_691::{
    before_first_dot, canonical_chars, lemma_version_shape, lemma_wheel_filename,
    spec_compatibility_tags, spec_kind, spec_version, tar_gz_suffix, wheel_filename_chars,
    whl_suffix, FileView, IndexFile, IndexFileKind, IndexProject, ProjectView,
};
use crate::text::{lemma_split_on_no_sep, str_eq, str_starts_with};

verus! {

pub open spec fn py_prefix() -> Seq<char> {
    seq!['p', 'y']
}

pub open spec fn musllinux_prefix() -> Seq<char> {
    seq!['m', 'u', 's', 'l', 'l', 'i', 'n', 'u', 'x']
}

pub open spec fn any_platform() -> Seq<char> {
    seq!['a', 'n', 'y']
}

/// Is the entry installable on the target runtime as published?
/// Non-wheel entries are vacuously installable; a wheel is installable
/// when its python tag starts with `py` and its platform tag is `any` or
/// starts with `musllinux`. A wheel whose filename cannot be parsed into
/// tags is judged not installable (and is so never advertised).
pub open spec fn spec_installable(f: FileView) -> bool {
    if spec_kind(f.filename) != IndexFileKind::Wheel {
        true
    } else {
        match spec_compatibility_tags(f.filename) {
            Some(tags) => py_prefix().is_prefix_of(tags.0) && (tags.2 == any_platform()
                || musllinux_prefix().is_prefix_of(tags.2)),
            None => false,
        }
    }
}

/// Can the target runtime install this entry without a rebuild?
pub fn is_compatible_with_scaleway_python_functions(file: &IndexFile) -> (r: bool)
    ensures
        r == spec_installable(file@),
{
    if file.kind() != IndexFileKind::Wheel {
        return true;
    }
    match file.compatibility_tags() {
        None => false,
        Some((py, _abi, platform)) => {
            proof {
                reveal_strlit("py");
                reveal_strlit("any");
                reveal_strlit("musllinux");
                assert("py"@ =~= py_prefix());
                assert("any"@ =~= any_platform());
                assert("musllinux"@ =~= musllinux_prefix());
            }
            str_starts_with(py.as_str(), "py") && (str_eq(platform.as_str(), "any")
                || str_starts_with(platform.as_str(), "musllinux"))
        },
    }
}

/// Does the rewrite keep this entry as it stands? Tarballs are never kept
/// (they are advertised through a synthesized wheel instead), incompatible
/// wheels are discarded, everything else passes through.
pub open spec fn keeps_entry(f: FileView) -> bool {
    spec_kind(f.filename) != IndexFileKind::Tarball && spec_installable(f)
}

/// The entries the rewrite keeps, in their original order.
pub open spec fn kept_files(files: Seq<FileView>) -> Seq<FileView>
    decreases files.len(),
{
    if files.len() == 0 {
        Seq::empty()
    } else {
        let prev = kept_files(files.drop_last());
        if keeps_entry(files.last()) {
            prev.push(files.last())
        } else {
            prev
        }
    }
}

/// Store `(key, value)` in an association list: replace the value in
/// place when the key is present, append the pair when it is not.
pub open spec fn upsert(m: Seq<(Seq<char>, Seq<char>)>, key: Seq<char>, value: Seq<char>) -> Seq<
    (Seq<char>, Seq<char>),
>
    decreases m.len(),
{
    if m.len() == 0 {
        seq![(key, value)]
    } else if m[0].0 == key {
        seq![(key, value)] + m.skip(1)
    } else {
        seq![m[0]] + upsert(m.skip(1), key, value)
    }
}

pub proof fn lemma_upsert_found(
    m: Seq<(Seq<char>, Seq<char>)>,
    key: Seq<char>,
    value: Seq<char>,
    j: int,
)
    requires
        0 <= j < m.len(),
        m[j].0 == key,
        forall|t: int| 0 <= t < j ==> m[t].0 != key,
    ensures
        upsert(m, key, value) == m.update(j, (key, value)),
    decreases j,
{
    if j == 0 {
        assert(seq![(key, value)] + m.skip(1) =~= m.update(0, (key, value)));
    } else {
        let rest = m.skip(1);
        assert(rest[j - 1].0 == key);
        assert(forall|t: int| 0 <= t < j - 1 ==> rest[t] == m[t + 1] && rest[t].0 != key);
        lemma_upsert_found(rest, key, value, j - 1);
        assert(seq![m[0]] + rest.update(j - 1, (key, value)) =~= m.update(j, (key, value)));
    }
}

pub proof fn lemma_upsert_missing(m: Seq<(Seq<char>, Seq<char>)>, key: Seq<char>, value: Seq<char>)
    requires
        forall|t: int| 0 <= t < m.len() ==> m[t].0 != key,
    ensures
        upsert(m, key, value) == m.push((key, value)),
    decreases m.len(),
{
    if m.len() == 0 {
        assert(seq![(key, value)] =~= m.push((key, value)));
    } else {
        let rest = m.skip(1);
        assert(forall|t: int| 0 <= t < rest.len() ==> rest[t] == m[t + 1] && rest[t].0 != key);
        lemma_upsert_missing(rest, key, value);
        assert(seq![m[0]] + rest.push((key, value)) =~= m.push((key, value)));
    }
}

/// Is this entry a source tarball whose filename carries a version?
pub open spec fn is_buildable_tarball(f: FileView) -> bool {
    spec_kind(f.filename) == IndexFileKind::Tarball && spec_version(f.filename) is Some
}

/// The `version -> source archive URL` mapping collected from the
/// tarballs, as an association list in first-seen key order. When several
/// tarballs share a version, the last one seen wins.
pub open spec fn tarball_versions(files: Seq<FileView>) -> Seq<(Seq<char>, Seq<char>)>
    decreases files.len(),
{
    if files.len() == 0 {
        Seq::empty()
    } else {
        let prev = tarball_versions(files.drop_last());
        let f = files.last();
        if is_buildable_tarball(f) {
            upsert(prev, spec_version(f.filename).unwrap(), f.url)
        } else {
            prev
        }
    }
}

/// Does some wheel among `entries` carry exactly this version?
pub open spec fn wheel_covers(entries: Seq<FileView>, version: Seq<char>) -> bool {
    exists|i: int|
        0 <= i < entries.len() && #[trigger] spec_kind(entries[i].filename)
            == IndexFileKind::Wheel && spec_version(entries[i].filename) == Some(version)
}

/// The collected `(version, archive URL)` pairs whose version no kept
/// wheel covers: only those need a synthesized entry, so that every
/// version with a source release is advertised through exactly one
/// artifact, never two.
pub open spec fn uncovered_versions(
    kept: Seq<FileView>,
    vm: Seq<(Seq<char>, Seq<char>)>,
) -> Seq<(Seq<char>, Seq<char>)>
    decreases vm.len(),
{
    if vm.len() == 0 {
        Seq::empty()
    } else {
        let prev = uncovered_versions(kept, vm.drop_last());
        if wheel_covers(kept, vm.last().0) {
            prev
        } else {
            prev.push(vm.last())
        }
    }
}

/// The fixed, maximally generic compatibility tags of synthesized wheels.
pub open spec fn generated_tags_chars() -> Seq<char> {
    seq!['p', 'y', '3', '-', 'n', 'o', 'n', 'e', '-', 'a', 'n', 'y']
}

/// `{canonical_name}-{version}-py3-none-any.whl`
pub open spec fn synth_filename(canon: Seq<char>, version: Seq<char>) -> Seq<char> {
    canon + seq!['-'] + version + seq!['-'] + generated_tags_chars() + whl_suffix()
}

/// `download/{filename}?archive={archive_url}`: a relative link back into
/// this service's download endpoint.
pub open spec fn synth_url(filename: Seq<char>, archive_url: Seq<char>) -> Seq<char> {
    "download/"@ + filename + "?archive="@ + archive_url
}

pub open spec fn synth_entry(canon: Seq<char>, kv: (Seq<char>, Seq<char>)) -> FileView {
    let filename = synth_filename(canon, kv.0);
    FileView { filename, url: synth_url(filename, kv.1) }
}

/// One synthesized virtual-wheel entry per collected version, in order.
pub open spec fn synth_entries(canon: Seq<char>, vm: Seq<(Seq<char>, Seq<char>)>) -> Seq<FileView> {
    vm.map_values(|kv: (Seq<char>, Seq<char>)| synth_entry(canon, kv))
}

/// The whole rewrite: the kept entries, followed by one synthesized
/// entry per tarball version that no kept wheel already covers.
pub open spec fn spec_rewrite(p: ProjectView) -> Seq<FileView> {
    let kept = kept_files(p.files);
    kept + synth_entries(
        canonical_chars(p.name),
        uncovered_versions(kept, tarball_versions(p.files)),
    )
}

proof fn lemma_kept_files_all(files: Seq<FileView>)
    requires
        forall|i: int| 0 <= i < files.len() ==> keeps_entry(#[trigger] files[i]),
    ensures
        kept_files(files) == files,
    decreases files.len(),
{
    if files.len() > 0 {
        assert(forall|i: int| 0 <= i < files.len() - 1 ==> files.drop_last()[i] == files[i]);
        lemma_kept_files_all(files.drop_last());
        assert(kept_files(files) =~= files);
    }
}

proof fn lemma_tarball_versions_empty(files: Seq<FileView>)
    requires
        forall|i: int|
            0 <= i < files.len() ==> spec_kind(#[trigger] files[i].filename)
                != IndexFileKind::Tarball,
    ensures
        tarball_versions(files) == Seq::<(Seq<char>, Seq<char>)>::empty(),
    decreases files.len(),
{
    if files.len() > 0 {
        assert(forall|i: int| 0 <= i < files.len() - 1 ==> files.drop_last()[i] == files[i]);
        lemma_tarball_versions_empty(files.drop_last());
    }
}

/// Law: rewriting a document whose every entry is already directly
/// installable and which has no tarballs leaves the entry set unchanged —
/// no entry is dropped and no entry is synthesized — so a second rewrite
/// of such a document yields the same entry set as the first.
pub proof fn lemma_rewrite_fixed_point(p: ProjectView)
    requires
        forall|i: int|
            0 <= i < p.files.len() ==> spec_kind(#[trigger] p.files[i].filename)
                != IndexFileKind::Tarball,
        forall|i: int| 0 <= i < p.files.len() ==> spec_installable(#[trigger] p.files[i]),
    ensures
        spec_rewrite(p) == p.files,
        spec_rewrite(ProjectView { files: spec_rewrite(p), ..p }) == p.files,
{
    lemma_kept_files_all(p.files);
    lemma_tarball_versions_empty(p.files);
    assert(spec_rewrite(p) =~= p.files);
}

/// A version string as filenames yield them: `-`-free and without a
/// trailing `.tar.gz`.
pub open spec fn version_shaped(v: Seq<char>) -> bool {
    (forall|j: int| 0 <= j < v.len() ==> v[j] != '-') && !tar_gz_suffix().is_suffix_of(v)
}

proof fn lemma_upsert_keys_shaped(m: Seq<(Seq<char>, Seq<char>)>, key: Seq<char>, value: Seq<char>)
    requires
        forall|t: int| 0 <= t < m.len() ==> version_shaped((#[trigger] m[t]).0),
        version_shaped(key),
    ensures
        forall|t: int|
            0 <= t < upsert(m, key, value).len() ==> version_shaped(
                (#[trigger] upsert(m, key, value)[t]).0,
            ),
    decreases m.len(),
{
    let u = upsert(m, key, value);
    if m.len() == 0 {
        assert forall|t: int| 0 <= t < u.len() implies version_shaped((#[trigger] u[t]).0) by {
            assert(u[t] == (key, value));
        }
    } else if m[0].0 == key {
        assert forall|t: int| 0 <= t < u.len() implies version_shaped((#[trigger] u[t]).0) by {
            if t == 0 {
                assert(u[t] == (key, value));
            } else {
                assert(u[t] == m[t]);
            }
        }
    } else {
        let rest = m.skip(1);
        assert(forall|t: int|
            0 <= t < rest.len() ==> rest[t] == m[t + 1] && version_shaped((#[trigger] rest[t]).0));
        lemma_upsert_keys_shaped(rest, key, value);
        assert forall|t: int| 0 <= t < u.len() implies version_shaped((#[trigger] u[t]).0) by {
            if t == 0 {
                assert(u[t] == m[0]);
            } else {
                assert(u[t] == upsert(rest, key, value)[t - 1]);
            }
        }
    }
}

proof fn lemma_tarball_versions_keys_shaped(files: Seq<FileView>)
    ensures
        forall|t: int|
            0 <= t < tarball_versions(files).len() ==> version_shaped(
                (#[trigger] tarball_versions(files)[t]).0,
            ),
    decreases files.len(),
{
    if files.len() > 0 {
        lemma_tarball_versions_keys_shaped(files.drop_last());
        let f = files.last();
        if is_buildable_tarball(f) {
            lemma_version_shape(f.filename, spec_version(f.filename).unwrap());
            lemma_upsert_keys_shaped(
                tarball_versions(files.drop_last()),
                spec_version(f.filename).unwrap(),
                f.url,
            );
        }
    }
}

proof fn lemma_uncovered_keys_shaped(kept: Seq<FileView>, vm: Seq<(Seq<char>, Seq<char>)>)
    requires
        forall|t: int| 0 <= t < vm.len() ==> version_shaped((#[trigger] vm[t]).0),
    ensures
        forall|t: int|
            0 <= t < uncovered_versions(kept, vm).len() ==> version_shaped(
                (#[trigger] uncovered_versions(kept, vm)[t]).0,
            ),
    decreases vm.len(),
{
    if vm.len() > 0 {
        assert(forall|t: int|
            0 <= t < vm.len() - 1 ==> vm.drop_last()[t] == vm[t] && version_shaped(
                (#[trigger] vm.drop_last()[t]).0,
            ));
        lemma_uncovered_keys_shaped(kept, vm.drop_last());
        let prev = uncovered_versions(kept, vm.drop_last());
        let u = uncovered_versions(kept, vm);
        assert(version_shaped(vm[vm.len() - 1].0));
        assert forall|t: int| 0 <= t < u.len() implies version_shaped((#[trigger] u[t]).0) by {
            if !wheel_covers(kept, vm.last().0) && t == prev.len() {
                assert(u[t] == vm.last());
            } else {
                assert(u[t] == prev[t]);
            }
        }
    }
}

proof fn lemma_kept_files_keep(files: Seq<FileView>, i: int)
    requires
        0 <= i < kept_files(files).len(),
    ensures
        keeps_entry(kept_files(files)[i]),
    decreases files.len(),
{
    if files.len() > 0 {
        let prev = kept_files(files.drop_last());
        if i < prev.len() {
            lemma_kept_files_keep(files.drop_last(), i);
        }
    }
}

proof fn lemma_synth_entry_keeps(canon: Seq<char>, kv: (Seq<char>, Seq<char>))
    requires
        forall|j: int| 0 <= j < canon.len() ==> canon[j] != '-',
        version_shaped(kv.0),
    ensures
        keeps_entry(synth_entry(canon, kv)),
{
    let py = seq!['p', 'y', '3'];
    let abi = seq!['n', 'o', 'n', 'e'];
    let platform = seq!['a', 'n', 'y'];
    assert(synth_filename(canon, kv.0) == wheel_filename_chars(canon, kv.0, py, abi, platform))
        by {
        assert(synth_filename(canon, kv.0) =~= wheel_filename_chars(canon, kv.0, py, abi, platform));
    }
    lemma_wheel_filename(canon, kv.0, py, abi, platform);
    assert(forall|j: int| 0 <= j < platform.len() ==> platform[j] != '.');
    lemma_split_on_no_sep(platform, '.');
    assert(before_first_dot(platform) == platform);
    assert(py_prefix().is_prefix_of(py)) by {
        assert(py.subrange(0, 2) =~= py_prefix());
    }
    assert(platform == any_platform());
    assert(spec_installable(synth_entry(canon, kv)));
}

/// Law: the rewrite only advertises what the target runtime can install.
/// Every entry of the rewritten file list satisfies the keep predicate:
/// no source tarball survives, no incompatible wheel survives, and every
/// synthesized virtual wheel is itself a directly installable wheel.
pub proof fn lemma_rewrite_installable_only(p: ProjectView)
    ensures
        forall|i: int|
            0 <= i < spec_rewrite(p).len() ==> keeps_entry(#[trigger] spec_rewrite(p)[i]),
{
    let kept = kept_files(p.files);
    let vm = tarball_versions(p.files);
    let pm = uncovered_versions(kept, vm);
    let canon = canonical_chars(p.name);
    lemma_tarball_versions_keys_shaped(p.files);
    lemma_uncovered_keys_shaped(kept, vm);
    assert(forall|j: int| 0 <= j < canon.len() ==> canon[j] != '-');
    assert forall|i: int| 0 <= i < spec_rewrite(p).len() implies keeps_entry(
        #[trigger] spec_rewrite(p)[i],
    ) by {
        if i < kept.len() {
            lemma_kept_files_keep(p.files, i);
            assert(spec_rewrite(p)[i] == kept[i]);
        } else {
            let t = i - kept.len();
            assert(spec_rewrite(p)[i] == synth_entries(canon, pm)[t]);
            assert(synth_entries(canon, pm)[t] == synth_entry(canon, pm[t]));
            assert(version_shaped(pm[t].0));
            lemma_synth_entry_keeps(canon, pm[t]);
        }
    }
}

proof fn lemma_uncovered_contains(
    kept: Seq<FileView>,
    vm: Seq<(Seq<char>, Seq<char>)>,
    t: int,
)
    requires
        0 <= t < vm.len(),
        !wheel_covers(kept, vm[t].0),
    ensures
        exists|r: int|
            0 <= r < uncovered_versions(kept, vm).len() && uncovered_versions(kept, vm)[r] == vm[t],
    decreases vm.len(),
{
    let u = uncovered_versions(kept, vm);
    let prev = uncovered_versions(kept, vm.drop_last());
    if t == vm.len() - 1 {
        assert(u[prev.len() as int] == vm[t]);
    } else {
        assert(vm.drop_last()[t] == vm[t]);
        lemma_uncovered_contains(kept, vm.drop_last(), t);
        let r = choose|r: int| 0 <= r < prev.len() && prev[r] == vm[t];
        assert(u[r] == vm[t]);
    }
}

proof fn lemma_uncovered_excludes(
    kept: Seq<FileView>,
    vm: Seq<(Seq<char>, Seq<char>)>,
    r: int,
)
    requires
        0 <= r < uncovered_versions(kept, vm).len(),
    ensures
        !wheel_covers(kept, uncovered_versions(kept, vm)[r].0),
    decreases vm.len(),
{
    let prev = uncovered_versions(kept, vm.drop_last());
    if vm.len() > 0 && r < prev.len() {
        lemma_uncovered_excludes(kept, vm.drop_last(), r);
    }
}

/// Law: no source version is lost. Every version collected from the
/// tarballs is still advertised after the rewrite: either some kept wheel
/// already carries it, or the synthesized virtual wheel for it stands in
/// the rewritten file list.
pub proof fn lemma_rewrite_advertises_source_versions(p: ProjectView, t: int)
    requires
        0 <= t < tarball_versions(p.files).len(),
    ensures
        wheel_covers(kept_files(p.files), tarball_versions(p.files)[t].0) || exists|i: int|
            0 <= i < spec_rewrite(p).len() && (#[trigger] spec_rewrite(p)[i]).filename
                == synth_filename(canonical_chars(p.name), tarball_versions(p.files)[t].0),
{
    let kept = kept_files(p.files);
    let vm = tarball_versions(p.files);
    if !wheel_covers(kept, vm[t].0) {
        lemma_uncovered_contains(kept, vm, t);
        let pm = uncovered_versions(kept, vm);
        let r = choose|r: int| 0 <= r < pm.len() && pm[r] == vm[t];
        let canon = canonical_chars(p.name);
        assert(spec_rewrite(p)[kept.len() + r] == synth_entry(canon, pm[r]));
    }
}

/// Law: no version is advertised twice. A virtual wheel is synthesized
/// only for a version that no kept wheel covers.
pub proof fn lemma_rewrite_never_duplicates(p: ProjectView, r: int)
    requires
        0 <= r < uncovered_versions(kept_files(p.files), tarball_versions(p.files)).len(),
    ensures
        !wheel_covers(
            kept_files(p.files),
            uncovered_versions(kept_files(p.files), tarball_versions(p.files))[r].0,
        ),
{
    lemma_uncovered_excludes(kept_files(p.files), tarball_versions(p.files), r);
}

/// Law: the rewrite is idempotent. Whatever the document, rewriting an
/// already-rewritten file list changes nothing: every surviving entry is
/// installable and no tarball survives, so a second pass keeps everything
/// and synthesizes nothing.
pub proof fn lemma_rewrite_idempotent(p: ProjectView)
    ensures
        spec_rewrite(ProjectView { files: spec_rewrite(p), ..p }) == spec_rewrite(p),
{
    lemma_rewrite_installable_only(p);
    lemma_rewrite_fixed_point(ProjectView { files: spec_rewrite(p), ..p });
}

pub open spec fn pairs_view(v: Seq<(String, String)>) -> Seq<(Seq<char>, Seq<char>)> {
    v.map_values(|p: (String, String)| (p.0@, p.1@))
}

/// Record a tarball's version and archive URL, replacing the URL already
/// recorded for that version if there is one.
fn upsert_version(versions: &mut Vec<(String, String)>, key: String, value: String)
    ensures
        pairs_view(final(versions)@) == upsert(pairs_view(old(versions)@), key@, value@),
{
    let n = versions.len();
    let mut j: usize = 0;
    while j < n
        invariant
            j <= n,
            n == versions@.len(),
            *versions == *old(versions),
            forall|t: int| 0 <= t < j ==> pairs_view(versions@)[t].0 != key@,
        decreases n - j,
    {
        if str_eq(versions[j].0.as_str(), key.as_str()) {
            let ghost k = key@;
            let ghost v = value@;
            proof {
                lemma_upsert_found(pairs_view(versions@), k, v, j as int);
            }
            versions[j] = (key, value);
            proof {
                assert(pairs_view(versions@) =~= upsert(pairs_view(old(versions)@), k, v));
            }
            return ;
        }
        j += 1;
    }
    let ghost k = key@;
    let ghost v = value@;
    proof {
        lemma_upsert_missing(pairs_view(versions@), k, v);
    }
    versions.push((key, value));
    proof {
        assert(pairs_view(versions@) =~= upsert(pairs_view(old(versions)@), k, v));
    }
}

/// Does some wheel among `entries` carry exactly this version?
fn version_covered(entries: &Vec<IndexFile>, version: &String) -> (r: bool)
    ensures
        r == wheel_covers(entries.deep_view(), version@),
{
    let n = entries.len();
    let mut i: usize = 0;
    while i < n
        invariant
            i <= n,
            n == entries@.len(),
            forall|t: int|
                0 <= t < i ==> !(#[trigger] spec_kind(entries.deep_view()[t].filename)
                    == IndexFileKind::Wheel && spec_version(entries.deep_view()[t].filename)
                    == Some(version@)),
        decreases n - i,
    {
        let e = &entries[i];
        if e.kind() == IndexFileKind::Wheel {
            if let Some(v) = e.version() {
                if crate::text::str_eq(v.as_str(), version.as_str()) {
                    proof {
                        assert(spec_kind(entries.deep_view()[i as int].filename)
                            == IndexFileKind::Wheel && spec_version(
                            entries.deep_view()[i as int].filename,
                        ) == Some(version@));
                    }
                    return true;
                }
            }
        }
        i += 1;
    }
    false
}

/// Rewrite a project's file list per the redirect algorithm: keep the
/// directly installable wheels and the unsupported pass-through entries,
/// drop every tarball and incompatible wheel, and append one synthesized
/// virtual-wheel entry per version that had a source tarball and is not
/// already covered by a kept wheel. Name and metadata pass through
/// unchanged.
pub fn redirect_to_reserved(project: &mut IndexProject)
    ensures
        final(project).meta.api_version@ == old(project).meta.api_version@,
        final(project).name@ == old(project).name@,
        final(project)@.files == spec_rewrite(old(project)@),
{
    let ghost files0 = project@.files;
    let n = project.files.len();
    let mut kept: Vec<IndexFile> = Vec::new();
    let mut versions: Vec<(String, String)> = Vec::new();
    let mut i: usize = 0;
    proof {
        assert(files0.take(0) =~= Seq::<FileView>::empty());
        assert(kept.deep_view() =~= kept_files(files0.take(0)));
        assert(pairs_view(versions@) =~= tarball_versions(files0.take(0)));
    }
    while i < n
        invariant
            i <= n,
            *project == *old(project),
            n == project.files@.len(),
            files0 == project@.files,
            kept.deep_view() == kept_files(files0.take(i as int)),
            pairs_view(versions@) == tarball_versions(files0.take(i as int)),
        decreases n - i,
    {
        proof {
            assert(files0.take(i + 1).drop_last() =~= files0.take(i as int));
            assert(files0.take(i + 1).last() == files0[i as int]);
        }
        let file = &project.files[i];
        match file.kind() {
            IndexFileKind::Tarball => {
                if let Some(version) = file.version() {
                    let url = file.url.clone();
                    upsert_version(&mut versions, version, url);
                }
            },
            IndexFileKind::Wheel => {
                if is_compatible_with_scaleway_python_functions(file) {
                    let ghost kept0 = kept.deep_view();
                    kept.push(IndexFile { filename: file.filename.clone(), url: file.url.clone() });
                    proof {
                        assert(kept.deep_view() =~= kept0.push(files0[i as int]));
                    }
                }
            },
            IndexFileKind::Unsupported => {
                let ghost kept0 = kept.deep_view();
                kept.push(IndexFile { filename: file.filename.clone(), url: file.url.clone() });
                proof {
                    assert(kept.deep_view() =~= kept0.push(files0[i as int]));
                }
            },
        }
        i += 1;
    }
    proof {
        assert(files0.take(n as int) =~= files0);
    }
    let ghost vm = pairs_view(versions@);
    let ghost keptv = kept.deep_view();
    let m = versions.len();
    let mut pending: Vec<(String, String)> = Vec::new();
    let mut j: usize = 0;
    proof {
        assert(vm.take(0) =~= Seq::<(Seq<char>, Seq<char>)>::empty());
        assert(pairs_view(pending@) =~= uncovered_versions(keptv, vm.take(0)));
    }
    while j < m
        invariant
            j <= m,
            m == versions@.len(),
            vm == pairs_view(versions@),
            keptv == kept.deep_view(),
            pairs_view(pending@) == uncovered_versions(keptv, vm.take(j as int)),
        decreases m - j,
    {
        proof {
            assert(vm.take(j + 1).drop_last() =~= vm.take(j as int));
            assert(vm.take(j + 1).last() == vm[j as int]);
        }
        let covered = version_covered(&kept, &versions[j].0);
        if !covered {
            let ghost p0 = pairs_view(pending@);
            pending.push((versions[j].0.clone(), versions[j].1.clone()));
            proof {
                assert(pairs_view(pending@) =~= p0.push(vm[j as int]));
            }
        }
        j += 1;
    }
    proof {
        assert(vm.take(m as int) =~= vm);
    }
    let canon = project.canonical_name();
    let ghost pm = pairs_view(pending@);
    let ghost canon_view = canonical_chars(old(project).name@);
    let p = pending.len();
    let mut out = kept;
    let mut j: usize = 0;
    proof {
        assert(pm.take(0) =~= Seq::<(Seq<char>, Seq<char>)>::empty());
        assert(synth_entries(canon_view, pm.take(0)) =~= Seq::<FileView>::empty());
        assert(out.deep_view() =~= kept_files(files0) + synth_entries(canon_view, pm.take(0)));
    }
    while j < p
        invariant
            j <= p,
            *project == *old(project),
            p == pending@.len(),
            pm == pairs_view(pending@),
            canon@ == canon_view,
            out.deep_view() == kept_files(files0) + synth_entries(canon_view, pm.take(j as int)),
        decreases p - j,
    {
        let version = pending[j].0.clone();
        let archive_url = pending[j].1.clone();
        let mut filename = canon.clone();
        filename.append("-");
        filename.append(version.as_str());
        filename.append("-py3-none-any.whl");
        proof {
            reveal_strlit("-");
            reveal_strlit("-py3-none-any.whl");
            assert("-py3-none-any.whl"@ =~= seq!['-'] + generated_tags_chars() + whl_suffix());
            assert(filename@ =~= synth_filename(canon_view, pm[j as int].0));
        }
        let mut url = String::from_str("download/");
        url.append(filename.as_str());
        url.append("?archive=");
        url.append(archive_url.as_str());
        proof {
            assert(url@ =~= synth_url(filename@, pm[j as int].1));
        }
        let ghost out0 = out.deep_view();
        out.push(IndexFile { filename, url });
        proof {
            assert(out.deep_view() =~= out0.push(synth_entry(canon_view, pm[j as int])));
            assert(synth_entries(canon_view, pm.take(j + 1)) =~= synth_entries(
                canon_view,
                pm.take(j as int),
            ).push(synth_entry(canon_view, pm[j as int])));
            assert(out.deep_view() =~= kept_files(files0) + synth_entries(
                canon_view,
                pm.take(j + 1),
            ));
        }
        j += 1;
    }
    proof {
        assert(pm.take(p as int) =~= pm);
    }
    project.files = out;
}

} // verus!
