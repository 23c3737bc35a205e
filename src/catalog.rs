//! The catalog: the ordered, immutable list of image files found in one
//! directory, built once from the directory's listing.

use vstd::prelude::*;

use crate::path::{extension, extension_of, file_name, file_name_of, lowercase, lowercase_of, str_is};

verus! {

/// One entry of a directory listing, as the caller read it from disk.
pub struct DirEntry {
    pub path: String,
    pub is_file: bool,
}

/// Why no catalog could be built.
#[derive(Debug, Clone, Copy, PartialEq, Eq, Structural)]
pub enum CatalogError {
    /// The path is not a readable directory.
    InvalidDirectory,
    /// The directory holds no image file.
    EmptyCatalog,
}

/// The extensions, in lower case, of the files that count as images.
pub open spec fn is_allowed_extension_spec(e: Seq<char>) -> bool {
    ||| e == "jpg"@
    ||| e == "jpeg"@
    ||| e == "png"@
    ||| e == "gif"@
    ||| e == "bmp"@
}

/// Whether a path names an image: its extension, in lower case, is allowed.
pub open spec fn is_image_path(p: Seq<char>) -> bool {
    match file_name_of(p) {
        Some(name) => match extension_of(name) {
            Some(ext) => is_allowed_extension_spec(lowercase_of(ext)),
            None => false,
        },
        None => false,
    }
}

pub open spec fn is_image_entry(e: DirEntry) -> bool {
    e.is_file && is_image_path(e.path@)
}

/// The paths of the image files of a listing, in the listing's order.
pub open spec fn image_paths(entries: Seq<DirEntry>) -> Seq<Seq<char>>
    decreases entries.len(),
{
    if entries.len() == 0 {
        Seq::empty()
    } else {
        let prev = image_paths(entries.drop_last());
        if is_image_entry(entries.last()) {
            prev.push(entries.last().path@)
        } else {
            prev
        }
    }
}

/// Every path that a listing yields names an image.
pub proof fn lemma_image_paths_are_images(entries: Seq<DirEntry>)
    ensures
        forall|k: int| 0 <= k < image_paths(entries).len() ==> is_image_path(#[trigger] image_paths(entries)[k]),
    decreases entries.len(),
{
    if entries.len() > 0 {
        let prev = image_paths(entries.drop_last());
        lemma_image_paths_are_images(entries.drop_last());
        assert forall|k: int| 0 <= k < image_paths(entries).len() implies is_image_path(
            #[trigger] image_paths(entries)[k],
        ) by {
            if k < prev.len() {
                assert(is_image_path(prev[k]));
            }
        }
    }
}

pub open spec fn paths_view(v: Seq<String>) -> Seq<Seq<char>> {
    v.map_values(|s: String| s@)
}

/// Whether an extension already in lower case is one of the image extensions.
pub fn is_allowed_extension(lowered: &str) -> (r: bool)
    ensures
        r == is_allowed_extension_spec(lowered@),
{
    str_is(lowered, "jpg") || str_is(lowered, "jpeg") || str_is(lowered, "png")
        || str_is(lowered, "gif") || str_is(lowered, "bmp")
}

/// Whether `p` names an image file, by the case-insensitive extension of its
/// file name.
pub fn is_image(p: &String) -> (r: bool)
    ensures
        r == is_image_path(p@),
{
    match file_name(p.as_str()) {
        Some(name) => match extension(name.as_str()) {
            Some(ext) => {
                let lowered = lowercase(ext.as_str());
                is_allowed_extension(lowered.as_str())
            },
            None => false,
        },
        None => false,
    }
}

/// The image files of a directory listing, in the listing's order; entries
/// that are not files, or not images, are left out.
pub fn find_images_in_dir(entries: &Vec<DirEntry>) -> (r: Vec<String>)
    ensures
        paths_view(r@) == image_paths(entries@),
{
    let mut found: Vec<String> = Vec::new();
    let mut i: usize = 0;
    while i < entries.len()
        invariant
            i <= entries@.len(),
            paths_view(found@) == image_paths(entries@.subrange(0, i as int)),
        decreases entries@.len() - i,
    {
        let e = &entries[i];
        assert(entries@.subrange(0, i + 1).drop_last() =~= entries@.subrange(0, i as int));
        if e.is_file && is_image(&e.path) {
            found.push(e.path.clone());
        }
        assert(paths_view(found@) =~= image_paths(entries@.subrange(0, i + 1)));
        i += 1;
    }
    assert(entries@.subrange(0, entries@.len() as int) =~= entries@);
    found
}

/// The image files of one directory: an ordered list of paths, never empty,
/// fixed once built.
pub struct Catalog {
    paths: Vec<String>,
}

impl View for Catalog {
    type V = Seq<Seq<char>>;

    closed spec fn view(&self) -> Seq<Seq<char>> {
        paths_view(self.paths@)
    }
}

impl Catalog {
    /// A catalog is never empty, and each of its paths names an image.
    pub open spec fn wf(&self) -> bool {
        &&& self@.len() > 0
        &&& forall|k: int| 0 <= k < self@.len() ==> is_image_path(#[trigger] self@[k])
    }

    /// Builds the catalog of a directory from its listing; `None` stands for a
    /// path that is not a readable directory.
    pub fn build(listing: Option<Vec<DirEntry>>) -> (r: Result<Catalog, CatalogError>)
        ensures
            listing is None ==> r == Err::<Catalog, CatalogError>(CatalogError::InvalidDirectory),
            listing is Some ==> match r {
                Ok(c) => c@ == image_paths(listing->0@) && c.wf(),
                Err(e) => e == CatalogError::EmptyCatalog && image_paths(listing->0@).len() == 0,
            },
    {
        match listing {
            None => Err(CatalogError::InvalidDirectory),
            Some(entries) => {
                let paths = find_images_in_dir(&entries);
                proof {
                    lemma_image_paths_are_images(entries@);
                }
                if paths.len() == 0 {
                    Err(CatalogError::EmptyCatalog)
                } else {
                    Ok(Catalog { paths })
                }
            },
        }
    }

    pub fn len(&self) -> (r: usize)
        ensures
            r == self@.len(),
    {
        self.paths.len()
    }

    pub fn path(&self, i: usize) -> (r: &String)
        requires
            i < self@.len(),
        ensures
            r@ == self@[i as int],
    {
        &self.paths[i]
    }
}

} // verus!
