//! The catalogs' raw rows, the unified match record, and the functions that
//! turn the one into the other.

use crate::fingerprint::{from_signed, hamming, hamming_distance, unsigned_value};
use vstd::prelude::*;

verus! {

/// A source catalog of indexed images.
#[derive(Debug, Clone, Copy, PartialEq, Eq, Structural)]
pub enum Catalog {
    FurAffinity,
    E621,
}

/// What only the FurAffinity catalog records of an image.
#[derive(Debug, Clone, PartialEq, Eq)]
pub struct FurAffinityFile {
    pub file_id: i32,
}

/// What only the e621 catalog records of an image.
#[derive(Debug, Clone, PartialEq, Eq)]
pub struct E621File {
    pub sources: Option<Vec<String>>,
}

/// The catalog a match came from, with that catalog's own fields.
#[derive(Debug, Clone, PartialEq, Eq)]
pub enum SiteInfo {
    FurAffinity(FurAffinityFile),
    E621(E621File),
}

/// One indexed image in the unified shape that every catalog is mapped to.
#[derive(Debug, Clone, PartialEq, Eq)]
pub struct File {
    pub id: i32,
    pub url: String,
    pub filename: Option<String>,
    pub artists: Option<Vec<String>>,
    pub site_info: Option<SiteInfo>,
    pub hash: Option<i64>,
    pub distance: Option<u64>,
}

/// A row of the FurAffinity catalog as its store returns it.
#[derive(Debug, Clone, PartialEq, Eq)]
pub struct FurAffinityRow {
    pub id: i32,
    pub url: String,
    pub filename: Option<String>,
    pub file_id: i32,
    pub hash: Option<i64>,
    pub artist: Option<String>,
}

/// A row of the e621 catalog as its store returns it.
#[derive(Debug, Clone, PartialEq, Eq)]
pub struct E621Row {
    pub id: i32,
    pub url: String,
    pub filename: Option<String>,
    pub hash: Option<i64>,
    pub sources: Option<Vec<String>>,
    pub artists: Option<Vec<String>>,
}

/// Mathematical value of a [`SiteInfo`].
pub enum SiteInfoView {
    FurAffinity { file_id: int },
    E621 { sources: Option<Seq<Seq<char>>> },
}

/// Mathematical value of a [`File`].
pub struct FileView {
    pub id: int,
    pub url: Seq<char>,
    pub filename: Option<Seq<char>>,
    pub artists: Option<Seq<Seq<char>>>,
    pub site_info: Option<SiteInfoView>,
    pub hash: Option<int>,
    pub distance: Option<nat>,
}

/// The texts of a list of strings.
pub open spec fn texts(v: Seq<String>) -> Seq<Seq<char>> {
    v.map_values(|s: String| s@)
}

/// The text of an optional string.
pub open spec fn opt_text(o: Option<String>) -> Option<Seq<char>> {
    match o {
        Some(s) => Some(s@),
        None => None,
    }
}

/// The texts of an optional list of strings.
pub open spec fn opt_texts(o: Option<Vec<String>>) -> Option<Seq<Seq<char>>> {
    match o {
        Some(v) => Some(texts(v@)),
        None => None,
    }
}

impl View for SiteInfo {
    type V = SiteInfoView;

    open spec fn view(&self) -> SiteInfoView {
        match *self {
            SiteInfo::FurAffinity(f) => SiteInfoView::FurAffinity { file_id: f.file_id as int },
            SiteInfo::E621(e) => SiteInfoView::E621 { sources: opt_texts(e.sources) },
        }
    }
}

impl View for File {
    type V = FileView;

    open spec fn view(&self) -> FileView {
        FileView {
            id: self.id as int,
            url: self.url@,
            filename: opt_text(self.filename),
            artists: opt_texts(self.artists),
            site_info: match self.site_info {
                Some(s) => Some(s@),
                None => None,
            },
            hash: match self.hash {
                Some(h) => Some(h as int),
                None => None,
            },
            distance: match self.distance {
                Some(d) => Some(d as nat),
                None => None,
            },
        }
    }
}

/// The views of a sequence of matches, in order.
pub open spec fn views(s: Seq<File>) -> Seq<FileView> {
    s.map_values(|f: File| f@)
}

/// Distance from the query fingerprint to a stored one; absent when
/// either is.
pub open spec fn distance_between(query: Option<u64>, stored: Option<i64>) -> Option<nat> {
    match (query, stored) {
        (Some(q), Some(s)) => Some(hamming(q, unsigned_value(s))),
        _ => None,
    }
}

/// The match that a FurAffinity row stands for, seen from `query`.
pub open spec fn fur_affinity_match(row: FurAffinityRow, query: Option<u64>) -> FileView {
    FileView {
        id: row.id as int,
        url: row.url@,
        filename: opt_text(row.filename),
        artists: match row.artist {
            Some(a) => Some(seq![a@]),
            None => None,
        },
        site_info: Some(SiteInfoView::FurAffinity { file_id: row.file_id as int }),
        hash: match row.hash {
            Some(h) => Some(h as int),
            None => None,
        },
        distance: distance_between(query, row.hash),
    }
}

/// The match that an e621 row stands for, seen from `query`.
pub open spec fn e621_match(row: E621Row, query: Option<u64>) -> FileView {
    FileView {
        id: row.id as int,
        url: row.url@,
        filename: opt_text(row.filename),
        artists: opt_texts(row.artists),
        site_info: Some(SiteInfoView::E621 { sources: opt_texts(row.sources) }),
        hash: match row.hash {
            Some(h) => Some(h as int),
            None => None,
        },
        distance: distance_between(query, row.hash),
    }
}

/// The matches that a sequence of FurAffinity rows stands for, in order.
pub open spec fn fur_affinity_matches(rows: Seq<FurAffinityRow>, query: Option<u64>) -> Seq<
    FileView,
> {
    rows.map_values(|r: FurAffinityRow| fur_affinity_match(r, query))
}

/// The matches that a sequence of e621 rows stands for, in order.
pub open spec fn e621_matches(rows: Seq<E621Row>, query: Option<u64>) -> Seq<FileView> {
    rows.map_values(|r: E621Row| e621_match(r, query))
}

/// Computes the exact distance from the query fingerprint to a stored one.
pub fn measure(query: Option<u64>, stored: Option<i64>) -> (d: Option<u64>)
    ensures
        d.is_some() == distance_between(query, stored).is_some(),
        d.is_some() ==> d.unwrap() == distance_between(query, stored).unwrap(),
        d.is_some() ==> d.unwrap() <= 64,
{
    match (query, stored) {
        (Some(q), Some(s)) => Some(hamming_distance(q, from_signed(s))),
        _ => None,
    }
}

/// Maps one FurAffinity row to the unified shape.
pub fn extract_fa_row(row: FurAffinityRow, hash: Option<u64>) -> (file: File)
    ensures
        file@ == fur_affinity_match(row, hash),
{
    let artists = match row.artist {
        Some(a) => {
            let mut v: Vec<String> = Vec::new();
            v.push(a);
            assert(texts(v@) =~= seq![a@]);
            Some(v)
        },
        None => None,
    };
    File {
        id: row.id,
        url: row.url,
        filename: row.filename,
        artists,
        site_info: Some(SiteInfo::FurAffinity(FurAffinityFile { file_id: row.file_id })),
        hash: row.hash,
        distance: measure(hash, row.hash),
    }
}

/// Maps one e621 row to the unified shape.
pub fn extract_e621_row(row: E621Row, hash: Option<u64>) -> (file: File)
    ensures
        file@ == e621_match(row, hash),
{
    File {
        id: row.id,
        url: row.url,
        filename: row.filename,
        artists: row.artists,
        site_info: Some(SiteInfo::E621(E621File { sources: row.sources })),
        hash: row.hash,
        distance: measure(hash, row.hash),
    }
}

/// Maps the rows of the FurAffinity catalog to the unified shape, keeping
/// their order.
pub fn extract_fa_rows(rows: Vec<FurAffinityRow>, hash: Option<u64>) -> (files: Vec<File>)
    ensures
        views(files@) == fur_affinity_matches(rows@, hash),
{
    let ghost src = rows@;
    let mut files: Vec<File> = Vec::new();
    for row in it: rows
        invariant
            it.seq() == src,
            files.len() == it.index(),
            forall|i: int| 0 <= i < files.len() ==> (#[trigger] files[i])@ == fur_affinity_match(
                src[i],
                hash,
            ),
    {
        files.push(extract_fa_row(row, hash));
    }
    assert(views(files@) =~= fur_affinity_matches(src, hash));
    files
}

/// Maps the rows of the e621 catalog to the unified shape, keeping their
/// order.
pub fn extract_e621_rows(rows: Vec<E621Row>, hash: Option<u64>) -> (files: Vec<File>)
    ensures
        views(files@) == e621_matches(rows@, hash),
{
    let ghost src = rows@;
    let mut files: Vec<File> = Vec::new();
    for row in it: rows
        invariant
            it.seq() == src,
            files.len() == it.index(),
            forall|i: int| 0 <= i < files.len() ==> (#[trigger] files[i])@ == e621_match(
                src[i],
                hash,
            ),
    {
        files.push(extract_e621_row(row, hash));
    }
    assert(views(files@) =~= e621_matches(src, hash));
    files
}

} // verus!
