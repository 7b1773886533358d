//! The PEP 691 "simple" index data model, and the classification of
//! distribution filenames: kind, version, and wheel compatibility tags.
//!
//! Distribution filenames follow the convention
//! `{name}-{version}(-{python_tag}-{abi_tag}-{platform_tag})?.{ext}`.

use vstd::prelude::*;

use crate::text::{
    lemma_split_first_field_append, lemma_split_on_no_sep, lemma_split_on_nonempty,
    lemma_split_on_prepend_field, split_on, split_str, str_ends_with,
};

verus! {

/// One project's index page.
pub struct IndexProject {
    pub meta: IndexMeta,
    pub name: String,
    pub files: Vec<IndexFile>,
}

/// Index protocol metadata, passed through unchanged.
pub struct IndexMeta {
    pub api_version: String,
}

/// One file-level record: a filename and its download location.
pub struct IndexFile {
    pub filename: String,
    pub url: String,
}

/// What a filename's final extension says the artifact is.
#[derive(Debug, Clone, Copy, PartialEq, Eq, Structural)]
pub enum IndexFileKind {
    Tarball,
    Wheel,
    Unsupported,
}

/// Mathematical image of an [`IndexFile`].
#[verifier::ext_equal]
pub ghost struct FileView {
    pub filename: Seq<char>,
    pub url: Seq<char>,
}

impl View for IndexFile {
    type V = FileView;

    open spec fn view(&self) -> FileView {
        FileView { filename: self.filename@, url: self.url@ }
    }
}

impl DeepView for IndexFile {
    type V = FileView;

    open spec fn deep_view(&self) -> FileView {
        self.view()
    }
}

/// Mathematical image of an [`IndexProject`].
#[verifier::ext_equal]
pub ghost struct ProjectView {
    pub api_version: Seq<char>,
    pub name: Seq<char>,
    pub files: Seq<FileView>,
}

impl View for IndexProject {
    type V = ProjectView;

    open spec fn view(&self) -> ProjectView {
        ProjectView {
            api_version: self.meta.api_version@,
            name: self.name@,
            files: self.files.deep_view(),
        }
    }
}

pub open spec fn tar_gz_suffix() -> Seq<char> {
    seq!['.', 't', 'a', 'r', '.', 'g', 'z']
}

pub open spec fn whl_suffix() -> Seq<char> {
    seq!['.', 'w', 'h', 'l']
}

/// The kind derived from a filename's final extension.
pub open spec fn spec_kind(filename: Seq<char>) -> IndexFileKind {
    if tar_gz_suffix().is_suffix_of(filename) {
        IndexFileKind::Tarball
    } else if whl_suffix().is_suffix_of(filename) {
        IndexFileKind::Wheel
    } else {
        IndexFileKind::Unsupported
    }
}

/// Every trailing `.tar.gz` removed.
pub open spec fn spec_strip_archive_suffixes(s: Seq<char>) -> Seq<char>
    decreases s.len(),
{
    if s.len() >= 7 && tar_gz_suffix().is_suffix_of(s) {
        spec_strip_archive_suffixes(s.take(s.len() - 7))
    } else {
        s
    }
}

/// The version encoded in a filename: its second `-`-delimited field, with
/// any trailing archive suffix stripped; absent when the filename has fewer
/// than two fields.
pub open spec fn spec_version(filename: Seq<char>) -> Option<Seq<char>> {
    let fields = split_on(filename, '-');
    if fields.len() < 2 {
        None
    } else {
        Some(spec_strip_archive_suffixes(fields[1]))
    }
}

/// The part of `s` before its first `.`, or all of `s` when it has none.
pub open spec fn before_first_dot(s: Seq<char>) -> Seq<char> {
    split_on(s, '.')[0]
}

/// The `(python_tag, abi_tag, platform_tag)` triple of a wheel filename:
/// fields 3, 4 and 5 of the `-`-split name, the platform truncated at its
/// first `.`; absent when fewer than five fields exist.
pub open spec fn spec_compatibility_tags(filename: Seq<char>) -> Option<
    (Seq<char>, Seq<char>, Seq<char>),
> {
    let fields = split_on(filename, '-');
    if fields.len() < 5 {
        None
    } else {
        Some((fields[2], fields[3], before_first_dot(fields[4])))
    }
}

/// `name` with every `-` replaced by `_`.
pub open spec fn canonical_chars(name: Seq<char>) -> Seq<char> {
    name.map_values(|c: char| if c == '-' { '_' } else { c })
}

/// Remove every trailing `.tar.gz` from `s`.
pub fn strip_archive_suffixes(s: String) -> (r: String)
    ensures
        r@ == spec_strip_archive_suffixes(s@),
{
    let ghost orig = s@;
    let mut cur = s;
    proof {
        reveal_strlit(".tar.gz");
        assert(".tar.gz"@ =~= tar_gz_suffix());
    }
    while str_ends_with(cur.as_str(), ".tar.gz")
        invariant
            spec_strip_archive_suffixes(cur@) == spec_strip_archive_suffixes(orig),
        decreases cur@.len(),
    {
        proof {
            reveal_strlit(".tar.gz");
            assert(".tar.gz"@ =~= tar_gz_suffix());
        }
        let n = cur.as_str().unicode_len();
        let t = cur.as_str().substring_char(0, n - 7).to_owned();
        proof {
            assert(t@ =~= cur@.take(cur@.len() - 7));
        }
        cur = t;
    }
    proof {
        reveal_strlit(".tar.gz");
        assert(".tar.gz"@ =~= tar_gz_suffix());
    }
    cur
}

impl IndexProject {
    /// The normalized project name used for synthesized filenames.
    pub fn canonical_name(&self) -> (r: String)
        ensures
            r@ == canonical_chars(self.name@),
    {
        let s = self.name.as_str();
        let n = s.unicode_len();
        let mut out = String::new();
        let mut i: usize = 0;
        proof {
            assert(out@ =~= canonical_chars(self.name@.take(0)));
        }
        while i < n
            invariant
                i <= n,
                n == self.name@.len(),
                s@ == self.name@,
                out@ == canonical_chars(self.name@.take(i as int)),
            decreases n - i,
        {
            let c = s.get_char(i);
            if c == '-' {
                out.push('_');
            } else {
                out.push(c);
            }
            proof {
                assert(out@ =~= canonical_chars(self.name@.take(i + 1)));
            }
            i += 1;
        }
        proof {
            assert(self.name@.take(n as int) =~= self.name@);
        }
        out
    }
}

/// Stripping archive suffixes leaves nothing that still ends in `.tar.gz`.
pub proof fn lemma_strip_leaves_no_suffix(s: Seq<char>)
    ensures
        !tar_gz_suffix().is_suffix_of(spec_strip_archive_suffixes(s)),
    decreases s.len(),
{
    if s.len() >= 7 && tar_gz_suffix().is_suffix_of(s) {
        lemma_strip_leaves_no_suffix(s.take(s.len() - 7));
    }
}

/// Stripping archive suffixes introduces no character: whatever was absent
/// from `s` is absent from the stripped form.
pub proof fn lemma_strip_keeps_absence(s: Seq<char>, c: char)
    requires
        forall|j: int| 0 <= j < s.len() ==> s[j] != c,
    ensures
        forall|j: int|
            0 <= j < spec_strip_archive_suffixes(s).len() ==> spec_strip_archive_suffixes(s)[j]
                != c,
    decreases s.len(),
{
    if s.len() >= 7 && tar_gz_suffix().is_suffix_of(s) {
        let front = s.take(s.len() - 7);
        assert(forall|j: int| 0 <= j < front.len() ==> front[j] == s[j] && front[j] != c);
        lemma_strip_keeps_absence(front, c);
        assert(spec_strip_archive_suffixes(s) == spec_strip_archive_suffixes(front));
    }
}

/// The version a filename yields is `-`-free and does not end in
/// `.tar.gz`.
pub proof fn lemma_version_shape(filename: Seq<char>, v: Seq<char>)
    requires
        spec_version(filename) == Some(v),
    ensures
        forall|j: int| 0 <= j < v.len() ==> v[j] != '-',
        !tar_gz_suffix().is_suffix_of(v),
{
    let fields = split_on(filename, '-');
    assert(forall|j: int| 0 <= j < fields[1].len() ==> fields[1][j] != '-') by {
        assert forall|j: int| 0 <= j < fields[1].len() implies fields[1][j] != '-' by {
            crate::text::lemma_split_fields_no_sep(filename, '-', 1, j);
        }
    }
    lemma_strip_keeps_absence(fields[1], '-');
    lemma_strip_leaves_no_suffix(fields[1]);
}

/// `{name}-{version}.tar.gz`
pub open spec fn tarball_filename_chars(name: Seq<char>, version: Seq<char>) -> Seq<char> {
    name + seq!['-'] + version + tar_gz_suffix()
}

/// `{name}-{version}-{py}-{abi}-{platform}.whl`
pub open spec fn wheel_filename_chars(
    name: Seq<char>,
    version: Seq<char>,
    py: Seq<char>,
    abi: Seq<char>,
    platform: Seq<char>,
) -> Seq<char> {
    name + seq!['-'] + version + seq!['-'] + py + seq!['-'] + abi + seq!['-'] + platform
        + whl_suffix()
}

/// Law: every filename of the form `{name}-{version}.tar.gz` — where the
/// name and the version are `-`-free and the version does not itself end
/// in `.tar.gz` — classifies as a tarball, and its derived version is
/// exactly `{version}`.
#[verifier::rlimit(50)]
pub proof fn lemma_tarball_filename(name: Seq<char>, version: Seq<char>)
    requires
        forall|j: int| 0 <= j < name.len() ==> name[j] != '-',
        forall|j: int| 0 <= j < version.len() ==> version[j] != '-',
        !tar_gz_suffix().is_suffix_of(version),
    ensures
        spec_kind(tarball_filename_chars(name, version)) == IndexFileKind::Tarball,
        spec_version(tarball_filename_chars(name, version)) == Some(version),
{
    let f = tarball_filename_chars(name, version);
    let rest = version + tar_gz_suffix();
    assert(tar_gz_suffix().is_suffix_of(f)) by {
        assert(f.subrange(f.len() - 7, f.len() as int) =~= tar_gz_suffix());
    }
    assert(f == name + seq!['-'] + rest) by {
        assert(f =~= name + seq!['-'] + rest);
    }
    lemma_split_on_prepend_field(name, rest, '-');
    assert(forall|k: int| 0 <= k < 7 ==> tar_gz_suffix()[k] != '-');
    assert(forall|j: int| 0 <= j < rest.len() ==> rest[j] != '-');
    lemma_split_on_no_sep(rest, '-');
    let fields = split_on(f, '-');
    assert(fields == seq![name] + seq![rest]);
    assert(fields.len() == 2);
    assert(fields[1] == rest);
    assert(tar_gz_suffix().is_suffix_of(rest)) by {
        assert(rest.subrange(rest.len() - 7, rest.len() as int) =~= tar_gz_suffix());
    }
    assert(rest.take(rest.len() - 7) =~= version);
    assert(spec_strip_archive_suffixes(rest) == spec_strip_archive_suffixes(version));
    assert(spec_strip_archive_suffixes(version) == version);
}

/// Law: every filename of the form
/// `{name}-{version}-{py}-{abi}-{platform}.whl` — where the five parts
/// are `-`-free and the version does not end in `.tar.gz` — classifies as
/// a wheel, its derived version is exactly `{version}`, and its
/// compatibility tags are `({py}, {abi}, {platform})` with the platform
/// truncated at its first `.`.
#[verifier::rlimit(50)]
pub proof fn lemma_wheel_filename(
    name: Seq<char>,
    version: Seq<char>,
    py: Seq<char>,
    abi: Seq<char>,
    platform: Seq<char>,
)
    requires
        forall|j: int| 0 <= j < name.len() ==> name[j] != '-',
        forall|j: int| 0 <= j < version.len() ==> version[j] != '-',
        forall|j: int| 0 <= j < py.len() ==> py[j] != '-',
        forall|j: int| 0 <= j < abi.len() ==> abi[j] != '-',
        forall|j: int| 0 <= j < platform.len() ==> platform[j] != '-',
        !tar_gz_suffix().is_suffix_of(version),
    ensures
        spec_kind(wheel_filename_chars(name, version, py, abi, platform))
            == IndexFileKind::Wheel,
        spec_version(wheel_filename_chars(name, version, py, abi, platform)) == Some(version),
        spec_compatibility_tags(wheel_filename_chars(name, version, py, abi, platform)) == Some(
            (py, abi, before_first_dot(platform)),
        ),
{
    let f = wheel_filename_chars(name, version, py, abi, platform);
    let tail = platform + whl_suffix();
    assert(whl_suffix().is_suffix_of(f)) by {
        assert(f.subrange(f.len() - 4, f.len() as int) =~= whl_suffix());
    }
    if tar_gz_suffix().is_suffix_of(f) {
        assert(f.subrange(f.len() - 7, f.len() as int)[6] == 'z');
        assert(f[f.len() - 1] == 'z');
        assert(f[f.len() - 1] == 'l');
        assert(false);
    }
    let r1 = version + seq!['-'] + py + seq!['-'] + abi + seq!['-'] + tail;
    let r2 = py + seq!['-'] + abi + seq!['-'] + tail;
    let r3 = abi + seq!['-'] + tail;
    assert(f == name + seq!['-'] + r1) by {
        assert(f =~= name + seq!['-'] + r1);
    }
    assert(r1 == version + seq!['-'] + r2) by {
        assert(r1 =~= version + seq!['-'] + r2);
    }
    assert(r2 == py + seq!['-'] + r3) by {
        assert(r2 =~= py + seq!['-'] + r3);
    }
    lemma_split_on_prepend_field(name, r1, '-');
    lemma_split_on_prepend_field(version, r2, '-');
    lemma_split_on_prepend_field(py, r3, '-');
    lemma_split_on_prepend_field(abi, tail, '-');
    assert(forall|k: int| 0 <= k < 4 ==> whl_suffix()[k] != '-');
    assert(forall|j: int| 0 <= j < tail.len() ==> tail[j] != '-');
    lemma_split_on_no_sep(tail, '-');
    let fields = split_on(f, '-');
    assert(fields == seq![name] + (seq![version] + (seq![py] + (seq![abi] + seq![tail]))));
    assert(fields.len() == 5);
    assert(fields[1] == version);
    assert(fields[2] == py);
    assert(fields[3] == abi);
    assert(fields[4] == tail);
    assert(spec_strip_archive_suffixes(version) == version);
    assert(whl_suffix()[0] == '.');
    lemma_split_first_field_append(platform, whl_suffix(), '.');
    assert(before_first_dot(tail) == before_first_dot(platform));
}

impl IndexFile {
    /// Classify this entry from its filename; never fails.
    pub fn kind(&self) -> (k: IndexFileKind)
        ensures
            k == spec_kind(self.filename@),
    {
        proof {
            reveal_strlit(".tar.gz");
            reveal_strlit(".whl");
            assert(".tar.gz"@ =~= tar_gz_suffix());
            assert(".whl"@ =~= whl_suffix());
        }
        if str_ends_with(self.filename.as_str(), ".tar.gz") {
            IndexFileKind::Tarball
        } else if str_ends_with(self.filename.as_str(), ".whl") {
            IndexFileKind::Wheel
        } else {
            IndexFileKind::Unsupported
        }
    }

    /// The version encoded in this entry's filename, when it has one.
    pub fn version(&self) -> (v: Option<String>)
        ensures
            v.deep_view() == spec_version(self.filename@),
    {
        let fields = split_str(self.filename.as_str(), '-');
        if fields.len() < 2 {
            return None;
        }
        let second = fields[1].clone();
        let stripped = strip_archive_suffixes(second);
        Some(stripped)
    }

    /// The wheel compatibility-tag triple of this entry's filename, or
    /// `None` when the filename is malformed for that purpose (fewer than
    /// five `-`-delimited fields).
    pub fn compatibility_tags(&self) -> (t: Option<(String, String, String)>)
        ensures
            (t is Some) == (spec_compatibility_tags(self.filename@) is Some),
            t matches Some(tags) ==> spec_compatibility_tags(self.filename@) == Some(
                (tags.0@, tags.1@, tags.2@),
            ),
    {
        let fields = split_str(self.filename.as_str(), '-');
        if fields.len() < 5 {
            return None;
        }
        let py = fields[2].clone();
        let abi = fields[3].clone();
        let platform_parts = split_str(fields[4].as_str(), '.');
        proof {
            lemma_split_on_nonempty(fields[4]@, '.');
        }
        let platform = platform_parts[0].clone();
        Some((py, abi, platform))
    }
}

} // verus!
