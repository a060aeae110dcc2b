//! Choosing what to download from a DXVK-GPLAsync release, and how to
//! unpack it.

use vstd::prelude::*;

use crate::text::{ends_with, ascii_lowercase, views, has_suffix, to_ascii_lowercase, owned};

verus! {

/// The files that make up an installation, in the game directory.
pub const DXVK_ASYNC_FILES: [&'static str; 2] = ["dxgi.dll", "d3d11.dll"];

/// The name an archive is saved under when its address names no file.
pub const FALLBACK_ARCHIVE_NAME: &'static str = "dxvk-gplasync";

/// One downloadable file of a release.
#[derive(Debug, Clone)]
pub struct ReleaseAssetLink {
    pub url: String,
    pub name: Option<String>,
}

#[derive(Debug, Clone)]
pub struct ReleaseAssets {
    pub links: Option<Vec<ReleaseAssetLink>>,
    pub sources: Option<Vec<ReleaseAssetLink>>,
}

/// A release as the release listing describes it.
#[derive(Debug, Clone)]
pub struct Release {
    pub assets: Option<ReleaseAssets>,
    pub name: Option<String>,
    pub tag_name: Option<String>,
}

#[derive(Debug, Clone, PartialEq, Eq)]
pub enum DxvkError {
    /// The release offers nothing to download.
    NoAsset,
}

/// The lowercase form of a text.
pub uninterp spec fn lower_of(s: Seq<char>) -> Seq<char>;

/// Relies on str::to_lowercase: the text in lowercase, which depends on its
/// characters alone.
#[verifier::external_body]
fn lowercase(s: &str) -> (r: String)
    ensures
        r@ == lower_of(s@),
{
    s.to_lowercase()
}

pub open spec fn link_urls(links: Option<Vec<ReleaseAssetLink>>) -> Seq<Seq<char>> {
    match links {
        Some(v) => v@.map_values(|l: ReleaseAssetLink| l.url@),
        None => Seq::empty(),
    }
}

/// The addresses to choose from: the release's links, or its sources when
/// it has no links.
pub open spec fn candidate_urls(release: Release) -> Seq<Seq<char>> {
    match release.assets {
        Some(a) => if link_urls(a.links).len() > 0 {
            link_urls(a.links)
        } else {
            link_urls(a.sources)
        },
        None => Seq::empty(),
    }
}

/// The archive suffixes, most wanted first.
pub open spec fn suffix_at(k: int) -> Seq<char> {
    if k == 0 {
        ".zip"@
    } else if k == 1 {
        ".tar.xz"@
    } else if k == 2 {
        ".tar.gz"@
    } else if k == 3 {
        ".tar.bz2"@
    } else if k == 4 {
        ".tar.zst"@
    } else {
        ".tzst"@
    }
}

pub const SUFFIX_COUNT: usize = 6;

fn suffix(k: usize) -> (r: &'static str)
    requires
        k < SUFFIX_COUNT,
    ensures
        r@ == suffix_at(k as int),
{
    if k == 0 {
        ".zip"
    } else if k == 1 {
        ".tar.xz"
    } else if k == 2 {
        ".tar.gz"
    } else if k == 3 {
        ".tar.bz2"
    } else if k == 4 {
        ".tar.zst"
    } else {
        ".tzst"
    }
}

/// `i` is the first of `urls` that ends with `suffix`.
pub open spec fn is_first_ending(urls: Seq<Seq<char>>, suffix: Seq<char>, i: int) -> bool {
    &&& 0 <= i < urls.len()
    &&& ends_with(urls[i], suffix)
    &&& forall|j: int| 0 <= j < i ==> !ends_with(#[trigger] urls[j], suffix)
}

pub open spec fn first_ending(urls: Seq<Seq<char>>, suffix: Seq<char>) -> Option<int> {
    if exists|i: int| is_first_ending(urls, suffix, i) {
        Some(choose|i: int| is_first_ending(urls, suffix, i))
    } else {
        None
    }
}

/// The choice among `urls` from the `k`-th suffix on: the first address
/// with the most wanted suffix that any address has, else the first one.
pub open spec fn preferred_from(urls: Seq<Seq<char>>, k: int) -> int
    decreases SUFFIX_COUNT - k,
{
    if k < 0 || k >= SUFFIX_COUNT {
        0
    } else {
        match first_ending(urls, suffix_at(k)) {
            Some(i) => i,
            None => preferred_from(urls, k + 1),
        }
    }
}

pub open spec fn preferred(urls: Seq<Seq<char>>) -> int {
    preferred_from(urls, 0)
}

fn find_ending(urls: &Vec<String>, suffix: &str) -> (r: Option<usize>)
    ensures
        r matches Some(i) ==> first_ending(views(urls@), suffix@) == Some(i as int),
        r is None ==> first_ending(views(urls@), suffix@) is None,
{
    let ghost us = views(urls@);
    let mut i: usize = 0;
    while i < urls.len()
        invariant
            i <= urls.len(),
            us == views(urls@),
            forall|j: int| 0 <= j < i ==> !ends_with(#[trigger] us[j], suffix@),
        decreases urls.len() - i,
    {
        if has_suffix(urls[i].as_str(), suffix) {
            assert(is_first_ending(us, suffix@, i as int));
            assert forall|k: int| #[trigger] is_first_ending(us, suffix@, k) implies k == i by {
                if k < i {
                    assert(!ends_with(us[k], suffix@));
                } else if k > i {
                    assert(!ends_with(us[i as int], suffix@));
                }
            }
            return Some(i);
        }
        i = i + 1;
    }
    None
}

/// The position, among lowercased addresses, of the one to download: the
/// first with the most wanted suffix that any of them has, else the first.
pub fn preferred_index(lowered: &Vec<String>) -> (r: usize)
    ensures
        r == preferred(views(lowered@)),
        lowered.len() > 0 ==> r < lowered.len(),
{
    let ghost us = views(lowered@);
    let mut k: usize = 0;
    while k < SUFFIX_COUNT
        invariant
            k <= SUFFIX_COUNT,
            us == views(lowered@),
            preferred(us) == preferred_from(us, k as int),
        decreases SUFFIX_COUNT - k,
    {
        match find_ending(lowered, suffix(k)) {
            Some(i) => {
                return i;
            },
            None => {},
        }
        k = k + 1;
    }
    0
}

fn push_urls(out: &mut Vec<String>, links: &Vec<ReleaseAssetLink>)
    ensures
        views(final(out)@) == views(old(out)@) + links@.map_values(|l: ReleaseAssetLink| l.url@),
{
    let ghost start = views(out@);
    let mut i: usize = 0;
    while i < links.len()
        invariant
            i <= links.len(),
            views(out@) == start + links@.take(i as int).map_values(|l: ReleaseAssetLink| l.url@),
        decreases links.len() - i,
    {
        let u = links[i].url.clone();
        proof {
            assert(views(out@.push(u)) == views(out@).push(u@));
            assert(links@.take(i + 1).map_values(|l: ReleaseAssetLink| l.url@) =~= links@.take(i as int).map_values(|l: ReleaseAssetLink| l.url@).push(links@[i as int].url@));
        }
        out.push(u);
        i = i + 1;
    }
    assert(links@.take(links.len() as int) == links@);
}

/// The address to download from a release: among its candidates, the first
/// whose lowercased address ends with the most wanted archive suffix, else
/// the first candidate.
pub fn preferred_asset_url(release: &Release) -> (r: Result<String, DxvkError>)
    ensures
        r is Err <==> candidate_urls(*release).len() == 0,
        r matches Ok(u) ==> {
            let urls = candidate_urls(*release);
            u@ == urls[preferred(urls.map_values(|s: Seq<char>| lower_of(s)))]
        },
{
    let mut urls: Vec<String> = Vec::new();
    if let Some(assets) = &release.assets {
        if let Some(links) = &assets.links {
            push_urls(&mut urls, links);
        }
        if urls.len() == 0 {
            if let Some(sources) = &assets.sources {
                push_urls(&mut urls, sources);
            }
        }
    }
    assert(views(urls@) =~= candidate_urls(*release));
    if urls.len() == 0 {
        return Err(DxvkError::NoAsset);
    }
    let mut lowered: Vec<String> = Vec::new();
    let mut i: usize = 0;
    while i < urls.len()
        invariant
            i <= urls.len(),
            views(lowered@) == views(urls@).take(i as int).map_values(|s: Seq<char>| lower_of(s)),
        decreases urls.len() - i,
    {
        let l = lowercase(urls[i].as_str());
        proof {
            assert(views(lowered@.push(l)) == views(lowered@).push(l@));
            assert(views(urls@).take(i + 1).map_values(|s: Seq<char>| lower_of(s)) =~= views(urls@).take(i as int).map_values(|s: Seq<char>| lower_of(s)).push(lower_of(urls@[i as int]@)));
        }
        lowered.push(l);
        i = i + 1;
    }
    assert(views(urls@).take(urls.len() as int) == views(urls@));
    let k = preferred_index(&lowered);
    Ok(urls[k].clone())
}

/// The name to show for a release: its name, else its tag, else "Unknown".
pub fn release_label(release: &Release) -> (r: String)
    ensures
        r@ == match release.name {
            Some(n) => n@,
            None => match release.tag_name {
                Some(t) => t@,
                None => "Unknown"@,
            },
        },
{
    match &release.name {
        Some(n) => n.clone(),
        None => match &release.tag_name {
            Some(t) => t.clone(),
            None => owned("Unknown"),
        },
    }
}

/// The file name to save a download under: the last segment of the
/// address's path when it is not empty, else the fallback name.
pub fn archive_file_name(last_segment: Option<&str>) -> (r: String)
    ensures
        r@ == match last_segment {
            Some(s) => if s@.len() > 0 {
                s@
            } else {
                FALLBACK_ARCHIVE_NAME@
            },
            None => FALLBACK_ARCHIVE_NAME@,
        },
{
    match last_segment {
        Some(s) => if s.unicode_len() > 0 {
            owned(s)
        } else {
            owned(FALLBACK_ARCHIVE_NAME)
        },
        None => owned(FALLBACK_ARCHIVE_NAME),
    }
}

/// How an archive is unpacked.
#[derive(Debug, Clone, Copy, PartialEq, Eq, Structural)]
pub enum ArchiveFormat {
    Zip,
    TarGz,
    TarXz,
    TarZst,
}

/// The file name has extension `ext`: it ends with `.ext` and something
/// other than nothing comes before that dot.
pub open spec fn has_extension(name: Seq<char>, dot_ext: Seq<char>) -> bool {
    ends_with(name, dot_ext) && name.len() > dot_ext.len()
}

/// The format that a file name calls for, by its suffix, letters compared
/// without regard to ASCII case; `None` for one that is not supported.
pub open spec fn format_of(name: Seq<char>) -> Option<ArchiveFormat> {
    let lower = ascii_lowercase(name);
    if ends_with(lower, ".zip"@) {
        Some(ArchiveFormat::Zip)
    } else if has_extension(lower, ".gz"@) || has_extension(lower, ".tgz"@) || ends_with(
        lower,
        ".tar.gz"@,
    ) {
        Some(ArchiveFormat::TarGz)
    } else if ends_with(lower, ".tar.xz"@) {
        Some(ArchiveFormat::TarXz)
    } else if ends_with(lower, ".tar.zst"@) || ends_with(lower, ".tzst"@) {
        Some(ArchiveFormat::TarZst)
    } else {
        None
    }
}

/// Picks how to unpack an archive from its file name.
pub fn archive_format(file_name: &str) -> (r: Option<ArchiveFormat>)
    ensures
        r == format_of(file_name@),
{
    let lower_name = to_ascii_lowercase(file_name);
    let lower = lower_name.as_str();
    let n = lower.unicode_len();
    proof {
        reveal_strlit(".gz");
        reveal_strlit(".tgz");
    }
    if has_suffix(lower, ".zip") {
        Some(ArchiveFormat::Zip)
    } else if (has_suffix(lower, ".gz") && n > 3) || (has_suffix(lower, ".tgz") && n > 4) || has_suffix(
        lower,
        ".tar.gz",
    ) {
        Some(ArchiveFormat::TarGz)
    } else if has_suffix(lower, ".tar.xz") {
        Some(ArchiveFormat::TarXz)
    } else if has_suffix(lower, ".tar.zst") || has_suffix(lower, ".tzst") {
        Some(ArchiveFormat::TarZst)
    } else {
        None
    }
}

} // verus!
