//! Exact-match lookup in the primary catalog: which criterion is used, and
//! what the rows that come back are reported as.

use crate::catalog::{opt_text, texts, views};
use crate::catalog::{Catalog, File, FileView, FurAffinityFile, FurAffinityRow, SiteInfo};
use crate::catalog::SiteInfoView;
use crate::error::{Error, StoreFailure};
use vstd::prelude::*;

verus! {

/// The most matches a lookup reports.
pub const LOOKUP_LIMIT: usize = 10;

/// What a lookup request may name.
#[derive(Debug, Clone, PartialEq, Eq)]
pub struct FileSearchOpts {
    pub id: Option<i32>,
    pub name: Option<String>,
    pub url: Option<String>,
}

/// The one criterion by which a lookup is made.
#[derive(Debug, Clone, PartialEq, Eq)]
pub enum Criteria {
    /// The catalog's identifier of the file.
    FileId(i32),
    /// The filename, without regard to case.
    Filename(String),
    /// The URL, without regard to case.
    Url(String),
}

/// The criterion that a request is answered by: the identifier if it names
/// one, else the filename, else the URL.
pub open spec fn criteria_of(opts: FileSearchOpts) -> Result<Criteria, Error> {
    match opts.id {
        Some(id) => Ok(Criteria::FileId(id)),
        None => match opts.name {
            Some(name) => Ok(Criteria::Filename(name)),
            None => match opts.url {
                Some(url) => Ok(Criteria::Url(url)),
                None => Err(Error::InvalidData),
            },
        },
    }
}

/// The condition on a catalog row that a criterion stands for, with `$1`
/// for the value looked up.
pub open spec fn filter_of(criteria: Criteria) -> Seq<char> {
    match criteria {
        Criteria::FileId(_) => "file_id = $1"@,
        Criteria::Filename(_) => "lower(filename) = lower($1)"@,
        Criteria::Url(_) => "lower(url) = lower($1)"@,
    }
}

/// The match that a row found by a lookup is reported as: it has neither a
/// fingerprint nor a distance.
pub open spec fn lookup_match(row: FurAffinityRow) -> FileView {
    FileView {
        id: row.id as int,
        url: row.url@,
        filename: opt_text(row.filename),
        artists: match row.artist {
            Some(a) => Some(seq![a@]),
            None => None,
        },
        site_info: Some(SiteInfoView::FurAffinity { file_id: row.file_id as int }),
        hash: None,
        distance: None,
    }
}

/// What a lookup reports for the rows that the catalog returned: the first
/// ten of them at most, in order.
pub open spec fn lookup_matches(rows: Seq<FurAffinityRow>) -> Seq<FileView> {
    rows.take(if rows.len() <= 10 {
        rows.len() as int
    } else {
        10
    }).map_values(|r: FurAffinityRow| lookup_match(r))
}

/// Chooses the criterion of a lookup. A request that names none is refused.
pub fn select_criteria(opts: FileSearchOpts) -> (r: Result<Criteria, Error>)
    ensures
        r == criteria_of(opts),
        opts.id.is_some() ==> r == Ok::<Criteria, Error>(Criteria::FileId(opts.id.unwrap())),
        r.is_err() <==> opts.id.is_none() && opts.name.is_none() && opts.url.is_none(),
{
    if let Some(id) = opts.id {
        Ok(Criteria::FileId(id))
    } else if let Some(name) = opts.name {
        Ok(Criteria::Filename(name))
    } else if let Some(url) = opts.url {
        Ok(Criteria::Url(url))
    } else {
        Err(Error::InvalidData)
    }
}

/// The criterion of a lookup once the quota gate has decided: a request
/// refused there is refused with that error, whatever it names.
pub open spec fn gated_criteria_of(gate: Result<i16, Error>, opts: FileSearchOpts) -> Result<
    Criteria,
    Error,
> {
    match gate {
        Err(e) => Err(e),
        Ok(_) => criteria_of(opts),
    }
}

/// Chooses the criterion of a lookup once the quota gate has decided. A
/// request refused there is refused with that error, whatever it names: its
/// criteria are not looked at. The criteria of an admitted request are
/// chosen as by [`select_criteria`].
pub fn gated_criteria(gate: Result<i16, Error>, opts: FileSearchOpts) -> (r: Result<
    Criteria,
    Error,
>)
    ensures
        r == gated_criteria_of(gate, opts),
{
    match gate {
        Err(e) => Err(e),
        Ok(_) => select_criteria(opts),
    }
}

/// The condition that the catalog is queried with for a criterion.
pub fn filter_clause(criteria: &Criteria) -> (clause: &'static str)
    ensures
        clause@ == filter_of(*criteria),
{
    match criteria {
        Criteria::FileId(_) => "file_id = $1",
        Criteria::Filename(_) => "lower(filename) = lower($1)",
        Criteria::Url(_) => "lower(url) = lower($1)",
    }
}

/// Maps one row found by a lookup to the unified shape.
pub fn lookup_row(row: FurAffinityRow) -> (file: File)
    ensures
        file@ == lookup_match(row),
{
    let artists = match row.artist {
        Some(a) => {
            let mut v: Vec<String> = Vec::new();
            v.push(a);
            assert(texts(v@) =~= seq![a@]);
            Some(v)
        },
        None => None,
    };
    File {
        id: row.id,
        url: row.url,
        filename: row.filename,
        artists,
        site_info: Some(SiteInfo::FurAffinity(FurAffinityFile { file_id: row.file_id })),
        hash: None,
        distance: None,
    }
}

/// Reports the rows that a lookup found.
pub fn search_file(rows: Vec<FurAffinityRow>) -> (files: Vec<File>)
    ensures
        views(files@) == lookup_matches(rows@),
        files.len() <= LOOKUP_LIMIT,
{
    let ghost all = rows@;
    let mut rows = rows;
    rows.truncate(LOOKUP_LIMIT);
    let ghost src = rows@;
    let mut files: Vec<File> = Vec::new();
    for row in it: rows
        invariant
            it.seq() == src,
            files.len() == it.index(),
            forall|i: int| 0 <= i < files.len() ==> (#[trigger] files[i])@ == lookup_match(src[i]),
    {
        files.push(lookup_row(row));
    }
    assert(views(files@) =~= lookup_matches(all));
    files
}

/// Answers a lookup from what the primary catalog returned. Where its
/// query failed, the lookup fails and names that catalog.
pub fn resolve(rows: Result<Vec<FurAffinityRow>, StoreFailure>) -> (r: Result<Vec<File>, Error>)
    ensures
        match rows {
            Ok(found) => r.is_ok() && views(r.unwrap()@) == lookup_matches(found@)
                && r.unwrap().len() <= LOOKUP_LIMIT,
            Err(_) => r == Err::<Vec<File>, Error>(Error::Backend(Catalog::FurAffinity)),
        },
{
    match rows {
        Ok(found) => Ok(search_file(found)),
        Err(_) => Err(Error::Backend(Catalog::FurAffinity)),
    }
}

} // verus!
