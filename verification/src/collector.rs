//! The path collector: which entries of the selected folders are images.

use crate::codec::{guess_media_type, guessed_media_type};
use crate::error::Error;
use vstd::prelude::*;

verus! {

/// What the file system answered for one selected folder: the paths of its
/// immediate entries, in the order of the listing, or why it could not be
/// listed. Folders inside the folder are not descended into.
#[derive(Debug)]
pub struct RootListing {
    pub root: String,
    pub entries: Result<Vec<String>, Error>,
}

/// A `RootListing` as a mathematical value.
pub struct ListingView {
    pub root: Seq<char>,
    pub entries: Result<Seq<Seq<char>>, Error>,
}

impl View for RootListing {
    type V = ListingView;

    open spec fn view(&self) -> ListingView {
        ListingView {
            root: self.root@,
            entries: match self.entries {
                Ok(entries) => Ok(path_views(entries@)),
                Err(cause) => Err(cause),
            },
        }
    }
}

/// A folder that could not be listed. Only this folder is lost: the others
/// of the selection are still scanned.
#[derive(Debug, Clone)]
pub struct ScanFailed {
    pub root: String,
    pub cause: Error,
}

/// A `ScanFailed` as a mathematical value.
pub struct ScanFailedView {
    pub root: Seq<char>,
    pub cause: Error,
}

impl View for ScanFailed {
    type V = ScanFailedView;

    open spec fn view(&self) -> ScanFailedView {
        ScanFailedView { root: self.root@, cause: self.cause }
    }
}

/// What a scan of the selected folders gave.
#[derive(Debug, Clone)]
pub struct Collected {
    /// The image files, folder by folder in the order of the selection, and
    /// inside a folder in the order of its listing. That order is the file
    /// system's: it need not be sorted.
    pub paths: Vec<String>,
    /// The folders that could not be listed, in the order of the selection.
    pub failures: Vec<ScanFailed>,
}

/// Paths as mathematical values.
pub open spec fn path_views(paths: Seq<String>) -> Seq<Seq<char>> {
    paths.map_values(|path: String| path@)
}

/// Listings as mathematical values.
pub open spec fn listing_views(listings: Seq<RootListing>) -> Seq<ListingView> {
    listings.map_values(|listing: RootListing| listing@)
}

/// Scan failures as mathematical values.
pub open spec fn failure_views(failures: Seq<ScanFailed>) -> Seq<ScanFailedView> {
    failures.map_values(|failure: ScanFailed| failure@)
}

/// Whether a top-level media type is the one of images.
pub open spec fn is_image_type(media_type: Option<Seq<char>>) -> bool {
    media_type == Some("image"@)
}

/// Whether the file at `path` counts as an image: whether the first media
/// type guessed for its extension is an image type.
pub open spec fn is_image_path(path: Seq<char>) -> bool {
    is_image_type(guessed_media_type(path))
}

/// `is_image_path` as a predicate on paths.
pub open spec fn image_paths() -> spec_fn(Seq<char>) -> bool {
    |path: Seq<char>| is_image_path(path)
}

/// The image files of one listing: those of its entries that count as
/// images, in the order of the listing. None for a folder that could not be
/// listed.
pub open spec fn images_of(listing: ListingView) -> Seq<Seq<char>> {
    match listing.entries {
        Ok(entries) => entries.filter(image_paths()),
        Err(_) => Seq::empty(),
    }
}

/// The image files of a selection: those of the first folder, then those of
/// the second, and so on.
pub open spec fn collected_paths(listings: Seq<ListingView>) -> Seq<Seq<char>>
    decreases listings.len(),
{
    if listings.len() == 0 {
        Seq::empty()
    } else {
        collected_paths(listings.drop_last()) + images_of(listings.last())
    }
}

/// The folders of a selection that could not be listed, each with its
/// cause, in the order of the selection.
pub open spec fn scan_failures(listings: Seq<ListingView>) -> Seq<ScanFailedView>
    decreases listings.len(),
{
    if listings.len() == 0 {
        Seq::empty()
    } else {
        let before = scan_failures(listings.drop_last());
        match listings.last().entries {
            Ok(_) => before,
            Err(cause) => before.push(ScanFailedView { root: listings.last().root, cause }),
        }
    }
}

/// Whether a guessed top-level media type is the one of images.
pub fn names_image(media_type: &Option<String>) -> (yes: bool)
    ensures
        yes == is_image_type(
            match *media_type {
                Some(name) => Some(name@),
                None => None,
            },
        ),
{
    match media_type {
        Some(name) => {
            let image = "image".to_owned();
            *name == image
        },
        None => false,
    }
}

/// Whether the file at `path` counts as an image. Only the path is looked
/// at, never the file.
pub fn is_image(path: &str) -> (yes: bool)
    ensures
        yes == is_image_path(path@),
{
    let guess = guess_media_type(path);
    names_image(&guess)
}

/// Picks the image files out of the listings of the selected folders.
///
/// A folder that could not be listed is reported and contributes no path;
/// the scan goes on with the next one.
pub fn collect(listings: &Vec<RootListing>) -> (found: Collected)
    ensures
        path_views(found.paths@) == collected_paths(listing_views(listings@)),
        failure_views(found.failures@) == scan_failures(listing_views(listings@)),
{
    let mut paths: Vec<String> = Vec::new();
    let mut failures: Vec<ScanFailed> = Vec::new();
    let mut i: usize = 0;
    while i < listings.len()
        invariant
            0 <= i <= listings.len(),
            path_views(paths@) == collected_paths(listing_views(listings@).take(i as int)),
            failure_views(failures@) == scan_failures(listing_views(listings@).take(i as int)),
        decreases listings.len() - i,
    {
        let listing = &listings[i];
        let ghost all = listing_views(listings@);
        proof {
            assert(all.take(i + 1).drop_last() == all.take(i as int));
            assert(all.take(i + 1).last() == listing@);
        }
        match &listing.entries {
            Err(cause) => {
                failures.push(ScanFailed { root: listing.root.clone(), cause: *cause });
                proof {
                    assert(failure_views(failures@) == scan_failures(all.take(i + 1)));
                    assert(path_views(paths@) + images_of(listing@) == path_views(paths@));
                }
            },
            Ok(entries) => {
                let ghost before = path_views(paths@);
                let ghost names = path_views(entries@);
                let mut j: usize = 0;
                while j < entries.len()
                    invariant
                        0 <= j <= entries.len(),
                        names == path_views(entries@),
                        path_views(paths@) == before + names.take(j as int).filter(image_paths()),
                    decreases entries.len() - j,
                {
                    let entry = &entries[j];
                    proof {
                        assert(names.take(j + 1) == names.take(j as int).push(entry@));
                        names.take(j as int).lemma_filter_push(entry@, image_paths());
                    }
                    if is_image(entry.as_str()) {
                        let ghost kept = names.take(j as int).filter(image_paths());
                        paths.push(entry.clone());
                        proof {
                            assert(path_views(paths@) =~= (before + kept).push(entry@));
                            assert((before + kept).push(entry@) =~= before + kept.push(entry@));
                        }
                    }
                    j += 1;
                }
                proof {
                    assert(names.take(j as int) == names);
                }
            },
        }
        i += 1;
    }
    proof {
        assert(listing_views(listings@).take(i as int) == listing_views(listings@));
    }
    Collected { paths, failures }
}

} // verus!
