//! Unpacking a skill archive: which entries of a zip file land where.
//!
//! A skill arrives as a zip archive. Entries under `__MACOSX` are dropped, and
//! where all other entries share one top-level directory, that directory is
//! stripped, so that `my-skill/skill.md` lands as `skill.md`.

use vstd::prelude::*;

use crate::config::opt_string_view;
use crate::error::AppError;
use crate::text::{chars_eq, chars_of, ends_with, has_suffix, views};

verus! {

// ---------------------------------------------------------------------------
// What the archive holds
// ---------------------------------------------------------------------------

/// What the archive says of one entry: its path as components, where the path is
/// safe to use (no absolute path, no escape through `..`), and its raw name.
#[derive(Debug, Clone)]
pub struct ZipEntryMeta {
    pub path: Option<Vec<String>>,
    pub name: String,
}

pub struct MetaView {
    pub path: Option<Seq<Seq<char>>>,
    pub name: Seq<char>,
}

pub open spec fn meta_view(m: ZipEntryMeta) -> MetaView {
    MetaView {
        path: match m.path {
            Some(p) => Some(views(p@)),
            None => None,
        },
        name: m.name@,
    }
}

pub open spec fn meta_views(ms: Seq<ZipEntryMeta>) -> Seq<MetaView> {
    ms.map_values(|m: ZipEntryMeta| meta_view(m))
}

/// A path component that names something inside its directory: not empty, not
/// `.` or `..`, and free of the separators `/` and `\`.
pub open spec fn plain_component(c: Seq<char>) -> bool {
    &&& c.len() > 0
    &&& c != "."@
    &&& c != ".."@
    &&& !c.contains('/')
    &&& !c.contains('\\')
}

/// A path made of plain components only.
pub open spec fn plain_path(p: Seq<Seq<char>>) -> bool {
    forall|i: int| 0 <= i < p.len() ==> plain_component(#[trigger] p[i])
}

/// The entry's safe path, where it has one, is made of plain components.
pub open spec fn plain_meta(m: MetaView) -> bool {
    m.path matches Some(p) ==> plain_path(p)
}

/// A relative path that stays inside the directory it is joined to: at least one
/// component, and none that climbs out or names the directory itself.
pub open spec fn lands_inside(rel: Seq<Seq<char>>) -> bool {
    rel.len() > 0 && plain_path(rel)
}

/// The number of entries that `zip::ZipArchive::new` finds in `data`, or the text
/// of the error it reports.
pub uninterp spec fn zip_entry_count(data: Seq<u8>) -> Result<nat, Seq<char>>;

/// What `ZipArchive::by_index(index)` on `data` gives: the entry's safe path (its
/// `enclosed_name`, as components) and raw name, or the text of the error.
pub uninterp spec fn zip_entry_meta(data: Seq<u8>, index: int) -> Result<MetaView, Seq<char>>;

/// The uncompressed bytes of entry `index` of `data`, or the text of the error
/// met while opening or reading it.
pub uninterp spec fn zip_entry_data(data: Seq<u8>, index: int) -> Result<Seq<u8>, Seq<char>>;

/// `zip::ZipArchive::new` on the bytes `data`, then its `len`: the number of
/// entries, or the error's text. The outcome is the named `zip_entry_count`.
#[verifier::external_body]
fn zip_count(data: &[u8]) -> (r: Result<usize, String>)
    ensures
        match r {
            Ok(n) => zip_entry_count(data@) == Ok::<nat, Seq<char>>(n as nat),
            Err(e) => zip_entry_count(data@) == Err::<nat, Seq<char>>(e@),
        },
{
    match zip::ZipArchive::new(std::io::Cursor::new(data)) {
        Ok(a) => Ok(a.len()),
        Err(e) => Err(e.to_string()),
    }
}

/// `ZipArchive::by_index(index)` on the archive in `data`, then the entry's
/// `enclosed_name` as components and its `name`. The outcome is the named
/// `zip_entry_meta`. Besides, `enclosed_name` builds its path by pushing only
/// normal components that hold no `/` or `\` (an absolute prefix is dropped,
/// `.` is skipped, `..` pops one component and fails where there is none), and
/// std's `Path::components` hands each pushed component back as it was: each
/// component that comes back is plain.
#[verifier::external_body]
fn zip_meta(data: &[u8], index: usize) -> (r: Result<ZipEntryMeta, String>)
    ensures
        match r {
            Ok(m) => zip_entry_meta(data@, index as int) == Ok::<MetaView, Seq<char>>(meta_view(m))
                && plain_meta(meta_view(m)),
            Err(e) => zip_entry_meta(data@, index as int) == Err::<MetaView, Seq<char>>(e@),
        },
{
    let mut archive = zip::ZipArchive::new(std::io::Cursor::new(data)).map_err(|e| e.to_string())?;
    let file = archive.by_index(index).map_err(|e| e.to_string())?;
    let path = file.enclosed_name().map(
        |p| p.components().map(|c| c.as_os_str().to_string_lossy().into_owned()).collect(),
    );
    let name = file.name().map(|n| n.into_owned()).unwrap_or_default();
    Ok(ZipEntryMeta { path, name })
}

/// `ZipArchive::by_index(index)` on the archive in `data`, then `read_to_end` of the
/// entry: its bytes, or the error's text. The outcome is the named `zip_entry_data`.
#[verifier::external_body]
fn zip_data(data: &[u8], index: usize) -> (r: Result<Vec<u8>, String>)
    ensures
        match r {
            Ok(b) => zip_entry_data(data@, index as int) == Ok::<Seq<u8>, Seq<char>>(b@),
            Err(e) => zip_entry_data(data@, index as int) == Err::<Seq<u8>, Seq<char>>(e@),
        },
{
    let mut archive = zip::ZipArchive::new(std::io::Cursor::new(data)).map_err(|e| e.to_string())?;
    let mut file = archive.by_index(index).map_err(|e| e.to_string())?;
    let mut out = Vec::new();
    std::io::Read::read_to_end(&mut file, &mut out).map_err(|e| e.to_string())?;
    Ok(out)
}

// ---------------------------------------------------------------------------
// Where the entries land
// ---------------------------------------------------------------------------

/// The first component of an entry's safe path, if it has one.
pub open spec fn first_component(m: MetaView) -> Option<Seq<char>> {
    match m.path {
        Some(p) => if p.len() > 0 {
            Some(p[0])
        } else {
            None
        },
        None => None,
    }
}

/// The distinct first components of the entries, in order of first appearance.
pub open spec fn top_levels(metas: Seq<MetaView>) -> Seq<Seq<char>>
    decreases metas.len(),
{
    if metas.len() == 0 {
        Seq::empty()
    } else {
        let prev = top_levels(metas.drop_last());
        match first_component(metas.last()) {
            Some(t) => if prev.contains(t) {
                prev
            } else {
                prev.push(t)
            },
            None => prev,
        }
    }
}

/// The names without `__MACOSX`.
pub open spec fn without_macosx(tops: Seq<Seq<char>>) -> Seq<Seq<char>>
    decreases tops.len(),
{
    if tops.len() == 0 {
        Seq::empty()
    } else {
        let prev = without_macosx(tops.drop_last());
        if tops.last() == "__MACOSX"@ {
            prev
        } else {
            prev.push(tops.last())
        }
    }
}

/// Whether the entry shows `t` to be a directory: it lies inside `t`, or it is `t`
/// itself named as a directory (`t/`).
pub open spec fn shows_directory(m: MetaView, t: Seq<char>) -> bool {
    &&& m.path matches Some(p)
    &&& p.len() > 0
    &&& p[0] == t
    &&& (p.len() > 1 || has_suffix(m.name, "/"@))
}

/// Whether some entry shows `t` to be a directory.
pub open spec fn is_top_directory(metas: Seq<MetaView>, t: Seq<char>) -> bool {
    exists|i: int| 0 <= i < metas.len() && shows_directory(#[trigger] metas[i], t)
}

/// The top-level directory to strip: the only top-level name besides `__MACOSX`,
/// where there is exactly one and it is a directory. A lone top-level file is
/// not stripped.
pub open spec fn strip_prefix_view(metas: Seq<MetaView>) -> Option<Seq<char>> {
    let kept = without_macosx(top_levels(metas));
    if kept.len() == 1 && is_top_directory(metas, kept[0]) {
        Some(kept[0])
    } else {
        None
    }
}

/// Where an entry lands, relative to the skill's directory, or `None` where it is
/// skipped: an unsafe path, anything under `__MACOSX`, anything outside the
/// stripped directory, and the stripped directory itself.
pub open spec fn entry_target(m: MetaView, prefix: Option<Seq<char>>) -> Option<Seq<Seq<char>>> {
    match m.path {
        None => None,
        Some(p) => if p.len() > 0 && p[0] == "__MACOSX"@ {
            None
        } else {
            let rel = match prefix {
                Some(x) => if p.len() > 0 && p[0] == x {
                    Some(p.skip(1))
                } else {
                    None
                },
                None => Some(p),
            };
            match rel {
                Some(r) => if r.len() == 0 {
                    None
                } else {
                    Some(r)
                },
                None => None,
            }
        },
    }
}

/// One entry to write: where it lands, whether it is a directory, and its index
/// in the archive (whose bytes `entry_bytes` reads).
#[derive(Debug, Clone)]
pub struct ExtractEntry {
    pub relative: Vec<String>,
    pub is_dir: bool,
    pub index: usize,
}

pub struct ExtractView {
    pub relative: Seq<Seq<char>>,
    pub is_dir: bool,
    pub index: int,
}

pub open spec fn extract_view(e: ExtractEntry) -> ExtractView {
    ExtractView { relative: views(e.relative@), is_dir: e.is_dir, index: e.index as int }
}

pub open spec fn extract_views(es: Seq<ExtractEntry>) -> Seq<ExtractView> {
    es.map_values(|e: ExtractEntry| extract_view(e))
}

/// The entries' metadata up to `k`, or the first error met.
pub open spec fn metas_upto(data: Seq<u8>, k: nat) -> Result<Seq<MetaView>, Seq<char>>
    decreases k,
{
    if k == 0 {
        Ok(Seq::empty())
    } else {
        match metas_upto(data, (k - 1) as nat) {
            Err(e) => Err(e),
            Ok(ms) => match zip_entry_meta(data, k - 1) {
                Err(e) => Err(e),
                Ok(m) => Ok(ms.push(m)),
            },
        }
    }
}

/// The entries to write among the first `k`, in order.
pub open spec fn entries_upto(metas: Seq<MetaView>, prefix: Option<Seq<char>>, k: nat) -> Seq<ExtractView>
    decreases k,
{
    if k == 0 {
        Seq::empty()
    } else {
        let es = entries_upto(metas, prefix, (k - 1) as nat);
        match entry_target(metas[k - 1], prefix) {
            None => es,
            Some(rel) => es.push(
                ExtractView { relative: rel, is_dir: has_suffix(metas[k - 1].name, "/"@), index: k - 1 },
            ),
        }
    }
}

/// How unpacking the archive `data` ends.
pub enum ExtractionView {
    /// The bytes are not a zip archive.
    Invalid(Seq<char>),
    /// An entry cannot be read.
    ReadError(Seq<char>),
    /// These entries are to be written, in order.
    Entries(Seq<ExtractView>),
}

pub open spec fn extraction_view(data: Seq<u8>) -> ExtractionView {
    match zip_entry_count(data) {
        Err(e) => ExtractionView::Invalid(e),
        Ok(n) => match metas_upto(data, n) {
            Err(e) => ExtractionView::ReadError(e),
            Ok(metas) => ExtractionView::Entries(entries_upto(metas, strip_prefix_view(metas), n)),
        },
    }
}

fn error_with(label: &str, e: &str) -> (r: String)
    ensures
        r@ == label@ + e@,
{
    let mut m = String::from_str(label);
    m.append(e);
    m
}

proof fn lemma_metas_len(data: Seq<u8>, k: nat)
    ensures
        metas_upto(data, k) matches Ok(ms) ==> ms.len() == k,
    decreases k,
{
    if k > 0 {
        lemma_metas_len(data, (k - 1) as nat);
    }
}

/// The directory to strip, computed from the entries' metadata.
pub fn strip_prefix(metas: &Vec<ZipEntryMeta>) -> (r: Option<String>)
    ensures
        match r {
            Some(s) => strip_prefix_view(meta_views(metas@)) == Some(s@),
            None => strip_prefix_view(meta_views(metas@)) is None,
        },
{
    let mut tops: Vec<String> = Vec::new();
    let mut i: usize = 0;
    while i < metas.len()
        invariant
            i <= metas@.len(),
            views(tops@) == top_levels(meta_views(metas@).take(i as int)),
        decreases metas@.len() - i,
    {
        let ghost mv = meta_views(metas@);
        assert(mv.take(i + 1).drop_last() =~= mv.take(i as int));
        assert(mv.take(i + 1).last() == meta_view(metas@[i as int]));
        if let Some(p) = &metas[i].path {
            if p.len() > 0 {
                let t = &p[0];
                let tc = chars_of(t.as_str());
                let mut j: usize = 0;
                let mut seen = false;
                while j < tops.len()
                    invariant
                        j <= tops@.len(),
                        tc@ == t@,
                        seen ==> views(tops@).contains(t@),
                        !seen ==> forall|k: int| 0 <= k < j ==> #[trigger] views(tops@)[k] != t@,
                    decreases tops@.len() - j,
                {
                    if chars_eq(&chars_of(tops[j].as_str()), &tc) {
                        assert(views(tops@)[j as int] == t@);
                        seen = true;
                    }
                    j += 1;
                }
                assert(views(p@)[0] == t@);
                if !seen {
                    let ghost before = views(tops@);
                    tops.push(t.clone());
                    assert(views(tops@) =~= before.push(t@));
                }
            }
        }
        i += 1;
    }
    assert(meta_views(metas@).take(metas@.len() as int) =~= meta_views(metas@));
    let mac = chars_of("__MACOSX");
    let mut kept: Vec<String> = Vec::new();
    let mut k: usize = 0;
    while k < tops.len()
        invariant
            k <= tops@.len(),
            mac@ == "__MACOSX"@,
            views(kept@) == without_macosx(views(tops@).take(k as int)),
        decreases tops@.len() - k,
    {
        let ghost tv = views(tops@);
        assert(tv.take(k + 1).drop_last() =~= tv.take(k as int));
        assert(tv.take(k + 1).last() == tops@[k as int]@);
        if !chars_eq(&chars_of(tops[k].as_str()), &mac) {
            let ghost before = views(kept@);
            kept.push(tops[k].clone());
            assert(views(kept@) =~= before.push(tops@[k as int]@));
        }
        k += 1;
    }
    assert(views(tops@).take(tops@.len() as int) =~= views(tops@));
    if kept.len() == 1 && has_top_directory(metas, kept[0].as_str()) {
        Some(kept[0].clone())
    } else {
        None
    }
}

/// Whether some entry shows `t` to be a directory.
fn has_top_directory(metas: &Vec<ZipEntryMeta>, t: &str) -> (r: bool)
    ensures
        r == is_top_directory(meta_views(metas@), t@),
{
    let tc = chars_of(t);
    let slash = chars_of("/");
    let mut i: usize = 0;
    while i < metas.len()
        invariant
            i <= metas@.len(),
            tc@ == t@,
            slash@ == "/"@,
            forall|j: int| 0 <= j < i ==> !shows_directory(#[trigger] meta_views(metas@)[j], t@),
        decreases metas@.len() - i,
    {
        let ghost mv = meta_view(metas@[i as int]);
        assert(meta_views(metas@)[i as int] == mv);
        if let Some(p) = &metas[i].path {
            assert(views(p@).len() == p@.len());
            if p.len() > 0 && chars_eq(&chars_of(p[0].as_str()), &tc) {
                assert(views(p@)[0] == t@);
                if p.len() > 1 || ends_with(&chars_of(metas[i].name.as_str()), &slash) {
                    assert(shows_directory(meta_views(metas@)[i as int], t@));
                    return true;
                }
            }
        }
        i += 1;
    }
    false
}

/// Where the entry `m` lands, given the directory to strip.
pub fn entry_target_of(m: &ZipEntryMeta, prefix: &Option<String>) -> (r: Option<Vec<String>>)
    ensures
        match r {
            Some(rel) => entry_target(meta_view(*m), opt_string_view(*prefix)) == Some(views(rel@)),
            None => entry_target(meta_view(*m), opt_string_view(*prefix)) is None,
        },
{
    let p = match &m.path {
        None => {
            return None;
        },
        Some(p) => p,
    };
    assert(views(p@).len() == p@.len());
    if p.len() > 0 && chars_eq(&chars_of(p[0].as_str()), &chars_of("__MACOSX")) {
        return None;
    }
    let rel: Vec<String> = match prefix {
        Some(x) => {
            if p.len() > 0 && chars_eq(&chars_of(p[0].as_str()), &chars_of(x.as_str())) {
                let mut rest: Vec<String> = Vec::new();
                let mut i: usize = 1;
                while i < p.len()
                    invariant
                        1 <= i <= p@.len(),
                        views(rest@) == views(p@).subrange(1, i as int),
                    decreases p@.len() - i,
                {
                    let ghost before = views(rest@);
                    rest.push(p[i].clone());
                    assert(views(rest@) =~= before.push(p@[i as int]@));
                    assert(views(p@).subrange(1, i + 1) =~= views(p@).subrange(1, i as int).push(p@[i as int]@));
                    i += 1;
                }
                assert(views(p@).subrange(1, p@.len() as int) =~= views(p@).skip(1));
                rest
            } else {
                return None;
            }
        },
        None => p.clone(),
    };
    if rel.len() == 0 {
        None
    } else {
        Some(rel)
    }
}

/// The entries of the skill archive `data` to write, in order. Fails where the
/// bytes are not a zip archive (`Invalid zip`) or where an entry cannot be read
/// (`Zip read error`); nothing is to be written then.
pub fn extract_plan(data: &[u8]) -> (r: Result<Vec<ExtractEntry>, AppError>)
    ensures
        match extraction_view(data@) {
            ExtractionView::Invalid(e) => r matches Err(x) && x is BadRequest && x.detail_view()
                == "Invalid zip: "@ + e,
            ExtractionView::ReadError(e) => r matches Err(x) && x is BadRequest && x.detail_view()
                == "Zip read error: "@ + e,
            ExtractionView::Entries(es) => r matches Ok(v) && extract_views(v@) == es,
        },
        r is Ok ==> forall|i: int|
            0 <= i < r->Ok_0@.len() ==> lands_inside(#[trigger] extract_views(r->Ok_0@)[i].relative),
{
    let n = match zip_count(data) {
        Err(e) => {
            return Err(AppError::BadRequest(error_with("Invalid zip: ", e.as_str())));
        },
        Ok(n) => n,
    };
    let mut metas: Vec<ZipEntryMeta> = Vec::new();
    assert(meta_views(metas@) =~= Seq::<MetaView>::empty());
    let mut i: usize = 0;
    while i < n
        invariant
            i <= n,
            zip_entry_count(data@) == Ok::<nat, Seq<char>>(n as nat),
            metas_upto(data@, i as nat) == Ok::<Seq<MetaView>, Seq<char>>(meta_views(metas@)),
            forall|j: int| 0 <= j < metas@.len() ==> plain_meta(#[trigger] meta_views(metas@)[j]),
        decreases n - i,
    {
        match zip_meta(data, i) {
            Err(e) => {
                assert(metas_upto(data@, (i + 1) as nat) == Err::<Seq<MetaView>, Seq<char>>(e@));
                proof {
                    lemma_metas_upto_err(data@, (i + 1) as nat, n as nat);
                }
                return Err(AppError::BadRequest(error_with("Zip read error: ", e.as_str())));
            },
            Ok(m) => {
                let ghost before = meta_views(metas@);
                metas.push(m);
                assert(meta_views(metas@) =~= before.push(meta_view(m)));
            },
        }
        i += 1;
    }
    let ghost mv = meta_views(metas@);
    proof {
        lemma_metas_len(data@, n as nat);
    }
    let prefix = strip_prefix(&metas);
    let ghost pv = opt_string_view(prefix);
    assert(pv == strip_prefix_view(mv));
    let mut out: Vec<ExtractEntry> = Vec::new();
    assert(extract_views(out@) =~= Seq::<ExtractView>::empty());
    let mut k: usize = 0;
    while k < n
        invariant
            k <= n,
            n == metas@.len(),
            mv == meta_views(metas@),
            pv == opt_string_view(prefix),
            pv == strip_prefix_view(mv),
            zip_entry_count(data@) == Ok::<nat, Seq<char>>(n as nat),
            metas_upto(data@, n as nat) == Ok::<Seq<MetaView>, Seq<char>>(mv),
            entries_upto(mv, pv, k as nat) == extract_views(out@),
            forall|j: int| 0 <= j < n ==> plain_meta(#[trigger] mv[j]),
            forall|j: int| 0 <= j < out@.len() ==> lands_inside(#[trigger] extract_views(out@)[j].relative),
        decreases n - k,
    {
        let ghost before = extract_views(out@);
        assert(mv[k as int] == meta_view(metas@[k as int]));
        proof {
            lemma_target_lands_inside(mv[k as int], pv);
        }
        match entry_target_of(&metas[k], &prefix) {
            None => {},
            Some(rel) => {
                let is_dir = ends_with(&chars_of(metas[k].name.as_str()), &chars_of("/"));
                let e = ExtractEntry { relative: rel, is_dir, index: k };
                out.push(e);
                assert(extract_views(out@) =~= before.push(extract_view(e)));
                assert(extract_views(out@)[before.len() as int].relative == views(rel@));
            },
        }
        k += 1;
    }
    Ok(out)
}

/// The bytes of entry `index` of the archive `data`, or the error met while
/// reading them (`Write file error`, a Docker-side error as when writing fails).
pub fn entry_bytes(data: &[u8], index: usize) -> (r: Result<Vec<u8>, AppError>)
    ensures
        match zip_entry_data(data@, index as int) {
            Ok(b) => r matches Ok(v) && v@ == b,
            Err(e) => r matches Err(x) && x is DockerError && x.detail_view() == "Write file error: "@ + e,
        },
{
    match zip_data(data, index) {
        Ok(b) => Ok(b),
        Err(e) => Err(AppError::DockerError(error_with("Write file error: ", e.as_str()))),
    }
}

/// An error met among the first `k` entries' metadata stays the outcome.
proof fn lemma_metas_upto_err(data: Seq<u8>, k: nat, n: nat)
    requires
        metas_upto(data, k) is Err,
        k <= n,
    ensures
        metas_upto(data, n) == metas_upto(data, k),
    decreases n - k,
{
    if k < n {
        lemma_metas_upto_err(data, k, (n - 1) as nat);
    }
}

/// An entry is written only where its path is safe, does not begin with
/// `__MACOSX`, and leaves a non-empty path once the stripped directory is removed;
/// where a directory is stripped, only entries inside it are written.
pub proof fn lemma_written_entries_safe(m: MetaView, prefix: Option<Seq<char>>)
    ensures
        entry_target(m, prefix) matches Some(rel) ==> {
            &&& m.path is Some
            &&& m.path->0.len() > 0
            &&& m.path->0[0] != "__MACOSX"@
            &&& rel.len() > 0
            &&& match prefix {
                Some(x) => m.path->0[0] == x && rel == m.path->0.skip(1),
                None => rel == m.path->0,
            }
        },
{
}

/// An entry whose safe path is made of plain components lands, if at all, at a
/// non-empty path of plain components: joined to the skill's directory, it names
/// something inside that directory and never climbs out of it.
pub proof fn lemma_target_lands_inside(m: MetaView, prefix: Option<Seq<char>>)
    requires
        plain_meta(m),
    ensures
        entry_target(m, prefix) matches Some(rel) ==> lands_inside(rel),
{
    if let Some(p) = m.path {
        if p.len() > 0 {
            assert forall|i: int| 0 <= i < p.skip(1).len() implies plain_component(#[trigger] p.skip(1)[i]) by {
                assert(p.skip(1)[i] == p[i + 1]);
            }
        }
    }
}

/// A name is among the top-level names exactly where some entry's safe path
/// begins with it.
proof fn lemma_top_levels_contains(metas: Seq<MetaView>, x: Seq<char>)
    ensures
        top_levels(metas).contains(x) <==> exists|i: int|
            0 <= i < metas.len() && first_component(#[trigger] metas[i]) == Some(x),
    decreases metas.len(),
{
    if metas.len() > 0 {
        let init = metas.drop_last();
        lemma_top_levels_contains(init, x);
        let prev = top_levels(init);
        if exists|i: int| 0 <= i < init.len() && first_component(#[trigger] init[i]) == Some(x) {
            let i = choose|i: int| 0 <= i < init.len() && first_component(#[trigger] init[i]) == Some(x);
            assert(init[i] == metas[i]);
        }
        if exists|i: int| 0 <= i < metas.len() && first_component(#[trigger] metas[i]) == Some(x) {
            let i = choose|i: int| 0 <= i < metas.len() && first_component(#[trigger] metas[i]) == Some(x);
            if i < metas.len() - 1 {
                assert(init[i] == metas[i]);
            }
        }
        match first_component(metas.last()) {
            Some(t) => {
                if !prev.contains(t) {
                    if prev.push(t).contains(x) {
                        let j = choose|j: int| 0 <= j < prev.push(t).len() && prev.push(t)[j] == x;
                        if j < prev.len() {
                            assert(prev.contains(x));
                        }
                    }
                    if prev.contains(x) {
                        let j = choose|j: int| 0 <= j < prev.len() && prev[j] == x;
                        assert(prev.push(t)[j] == x);
                    }
                    if t == x {
                        assert(prev.push(t)[prev.len() as int] == x);
                    }
                }
            },
            None => {},
        }
    }
}

/// Where every top-level name is `t` or `__MACOSX`, the names besides `__MACOSX`
/// are `t` alone, or none where no entry begins with `t`.
proof fn lemma_one_top_besides_macosx(metas: Seq<MetaView>, t: Seq<char>)
    requires
        t != "__MACOSX"@,
        forall|i: int|
            0 <= i < metas.len() ==> (#[trigger] first_component(metas[i]) matches Some(x) ==> x == t
                || x == "__MACOSX"@),
    ensures
        without_macosx(top_levels(metas)) == (if top_levels(metas).contains(t) {
            seq![t]
        } else {
            Seq::<Seq<char>>::empty()
        }),
    decreases metas.len(),
{
    if metas.len() > 0 {
        let init = metas.drop_last();
        assert forall|i: int| 0 <= i < init.len() implies (#[trigger] first_component(init[i]) matches Some(
            x,
        ) ==> x == t || x == "__MACOSX"@) by {
            assert(init[i] == metas[i]);
        }
        lemma_one_top_besides_macosx(init, t);
        let prev = top_levels(init);
        assert(first_component(metas[metas.len() - 1]) == first_component(metas.last()));
        match first_component(metas.last()) {
            Some(x) => {
                if !prev.contains(x) {
                    let tops = prev.push(x);
                    assert(tops.drop_last() =~= prev);
                    assert(tops.last() == x);
                    if x == t {
                        assert(without_macosx(prev) =~= Seq::<Seq<char>>::empty());
                        assert(without_macosx(tops) =~= seq![t]);
                        assert(tops[prev.len() as int] == t);
                    } else {
                        assert(x == "__MACOSX"@);
                        assert(without_macosx(tops) == without_macosx(prev));
                        if tops.contains(t) {
                            let j = choose|j: int| 0 <= j < tops.len() && tops[j] == t;
                            assert(j < prev.len());
                            assert(prev[j] == t);
                        }
                        if prev.contains(t) {
                            let j = choose|j: int| 0 <= j < prev.len() && prev[j] == t;
                            assert(tops[j] == t);
                        }
                    }
                }
            },
            None => {},
        }
    }
}

/// An archive whose entries all lie under one top-level directory `t` (besides
/// `__MACOSX`) has `t` stripped, whether or not it holds a separate `t/` entry:
/// where some entry lies inside `t`, `t` is the directory to strip, and each entry
/// inside `t` lands at its path without that first component.
pub proof fn lemma_single_top_directory_stripped(metas: Seq<MetaView>, t: Seq<char>)
    requires
        t != "__MACOSX"@,
        forall|i: int|
            0 <= i < metas.len() && (#[trigger] metas[i]).path is Some && metas[i].path->0.len() > 0
                ==> metas[i].path->0[0] == t || metas[i].path->0[0] == "__MACOSX"@,
        exists|i: int|
            0 <= i < metas.len() && (#[trigger] metas[i]).path is Some && metas[i].path->0.len() > 1
                && metas[i].path->0[0] == t,
    ensures
        strip_prefix_view(metas) == Some(t),
        forall|i: int|
            0 <= i < metas.len() && (#[trigger] metas[i]).path is Some && metas[i].path->0.len() > 1
                && metas[i].path->0[0] == t ==> entry_target(metas[i], strip_prefix_view(metas))
                == Some(metas[i].path->0.skip(1)),
{
    let w = choose|i: int|
        0 <= i < metas.len() && (#[trigger] metas[i]).path is Some && metas[i].path->0.len() > 1
            && metas[i].path->0[0] == t;
    assert forall|i: int| 0 <= i < metas.len() implies (#[trigger] first_component(metas[i]) matches Some(x)
        ==> x == t || x == "__MACOSX"@) by {
        if metas[i].path is Some && metas[i].path->0.len() > 0 {
        }
    }
    assert(first_component(metas[w]) == Some(t));
    lemma_top_levels_contains(metas, t);
    lemma_one_top_besides_macosx(metas, t);
    assert(shows_directory(metas[w], t));
    assert(is_top_directory(metas, t));
    assert(without_macosx(top_levels(metas))[0] == t);
}

/// A top-level name is stripped only where it is the one name besides
/// `__MACOSX` and some entry shows it to be a directory; an archive whose one
/// top-level entry is a file keeps that file where it is.
pub proof fn lemma_only_directories_stripped(metas: Seq<MetaView>)
    ensures
        strip_prefix_view(metas) matches Some(t) ==> is_top_directory(metas, t)
            && without_macosx(top_levels(metas)) == seq![t],
{
    if let Some(t) = strip_prefix_view(metas) {
        assert(without_macosx(top_levels(metas)) =~= seq![t]);
    }
}

} // verus!
