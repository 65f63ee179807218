//! Similarity search: from the query fingerprint and the rows that each
//! catalog returned to the ranked response.

use crate::catalog::{e621_matches, fur_affinity_matches, views};
use crate::catalog::{extract_e621_rows, extract_fa_rows};
use crate::catalog::{Catalog, E621Row, File, FileView, FurAffinityRow};
use crate::error::{Error, StoreFailure};
use crate::fingerprint::{signed_value, to_signed};
use crate::rank::{is_view_ranking_of, lemma_ranking_views, rank, ranked};
use vstd::prelude::*;

verus! {

/// The distance within which the catalogs are asked for stored
/// fingerprints.
pub const MAX_DISTANCE: i64 = 10;

/// The answer to a similarity search: the query fingerprint in its signed
/// form, and the matches in ranked order.
#[derive(Debug, Clone, PartialEq, Eq)]
pub struct ImageSimilarity {
    pub hash: i64,
    pub matches: Vec<File>,
}

/// The matches of all catalogs in arrival order: those of FurAffinity, then
/// those of e621. An image that both catalogs hold is in it twice.
pub open spec fn gathered(query: u64, fa: Seq<FurAffinityRow>, e621: Seq<E621Row>) -> Seq<
    FileView,
> {
    fur_affinity_matches(fa, Some(query)) + e621_matches(e621, Some(query))
}

/// The first catalog whose query failed, if any did.
pub open spec fn failed_catalog(
    fa: Result<Vec<FurAffinityRow>, StoreFailure>,
    e621: Result<Vec<E621Row>, StoreFailure>,
) -> Option<Catalog> {
    if fa.is_err() {
        Some(Catalog::FurAffinity)
    } else if e621.is_err() {
        Some(Catalog::E621)
    } else {
        None
    }
}

/// Maps the rows of both catalogs to the unified shape and ranks them.
pub fn normalize_and_rank(query: u64, fa: Vec<FurAffinityRow>, e621: Vec<E621Row>) -> (response:
    ImageSimilarity)
    ensures
        response.hash == signed_value(query),
        ranked(response.matches@),
        is_view_ranking_of(views(response.matches@), gathered(query, fa@, e621@)),
{
    let mut items = extract_fa_rows(fa, Some(query));
    let mut more = extract_e621_rows(e621, Some(query));
    let ghost first = items@;
    let ghost second = more@;
    items.append(&mut more);
    proof {
        assert(views(first + second) =~= views(first) + views(second));
    }
    let ghost all = items@;
    let matches = rank(items);
    proof {
        lemma_ranking_views(matches@, all);
    }
    ImageSimilarity { hash: to_signed(query), matches }
}

/// Answers a similarity search from what the catalogs returned. Where the
/// query against a catalog failed, the search fails and names that catalog:
/// the matches of the other one are not reported alone.
pub fn search_image(
    query: u64,
    fa: Result<Vec<FurAffinityRow>, StoreFailure>,
    e621: Result<Vec<E621Row>, StoreFailure>,
) -> (r: Result<ImageSimilarity, Error>)
    ensures
        match failed_catalog(fa, e621) {
            Some(catalog) => r == Err::<ImageSimilarity, Error>(Error::Backend(catalog)),
            None => r.is_ok() && r.unwrap().hash == signed_value(query) && ranked(
                r.unwrap().matches@,
            ) && is_view_ranking_of(
                views(r.unwrap().matches@),
                gathered(query, fa.unwrap()@, e621.unwrap()@),
            ),
        },
{
    match fa {
        Err(_) => Err(Error::Backend(Catalog::FurAffinity)),
        Ok(fa_rows) => match e621 {
            Err(_) => Err(Error::Backend(Catalog::E621)),
            Ok(e621_rows) => Ok(normalize_and_rank(query, fa_rows, e621_rows)),
        },
    }
}

} // verus!
