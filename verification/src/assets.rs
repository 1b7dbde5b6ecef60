//! Media-pointer resolution.  A message may reference an image through an
//! opaque pointer of the form `sediment://<file id>`.  The matching file
//! lives in one of the per-user upload folders next to the archive; the
//! resolver picks the first folder whose name begins with `user-` that holds
//! a PNG file whose name begins with the file id, and derives the name under
//! which a copy should be placed beside the transcript.
//!
//! The resolver only decides: it receives a plain listing of the upload
//! folders and returns the chosen source and destination names.  Reading the
//! directories and copying the file is the surrounding program's work.

use vstd::prelude::*;

use crate::text::{spec_ends_with, spec_starts_with, str_ends_with, str_starts_with};

verus! {

/// One immediate subdirectory of the upload root: its name and the names of
/// the files inside it.
#[derive(Clone, Debug)]
pub struct UploadFolder {
    pub name: String,
    pub files: Vec<String>,
}

/// One image copy to perform: the source folder and file name under the
/// upload root, and the file name the copy gets in the output directory.
#[derive(Clone, Debug)]
pub struct AssetCopy {
    pub folder: String,
    pub file: String,
    pub dest: String,
}

/// The mathematical shadow of an [`AssetCopy`]: the same three names as
/// character sequences.
pub struct AssetNames {
    pub folder: Seq<char>,
    pub file: Seq<char>,
    pub dest: Seq<char>,
}

/// The names an [`AssetCopy`] holds.
pub open spec fn copy_names(c: AssetCopy) -> AssetNames {
    AssetNames { folder: c.folder@, file: c.file@, dest: c.dest@ }
}

/// The names a whole list of copies holds, in order.
pub open spec fn copies_names(cs: Seq<AssetCopy>) -> Seq<AssetNames> {
    cs.map(|k: int, c: AssetCopy| copy_names(c))
}

/// The file id hidden in an asset pointer: what follows the `sediment://`
/// prefix, if the pointer carries it.
pub open spec fn spec_strip_pointer(p: Seq<char>) -> Option<Seq<char>> {
    if spec_starts_with(p, "sediment://"@) {
        Some(p.skip("sediment://"@.len() as int))
    } else {
        None
    }
}

/// A folder of the upload root that the scan looks into.
pub open spec fn spec_is_upload_folder(name: Seq<char>) -> bool {
    spec_starts_with(name, "user-"@)
}

/// A file that resolves the file id: named after the id, with the image
/// extension.
pub open spec fn spec_file_matches(fname: Seq<char>, id: Seq<char>) -> bool {
    spec_starts_with(fname, id) && spec_ends_with(fname, ".png"@)
}

/// The first file of `files` that matches `id`.
pub open spec fn spec_find_in_folder(files: Seq<String>, id: Seq<char>) -> Option<Seq<char>>
    decreases files.len(),
{
    if files.len() == 0 {
        None
    } else if spec_file_matches(files[0]@, id) {
        Some(files[0]@)
    } else {
        spec_find_in_folder(files.drop_first(), id)
    }
}

/// The first match over the whole listing: the first `user-` folder, in
/// listing order, that holds a matching file, together with that file.
pub open spec fn spec_find_asset(folders: Seq<UploadFolder>, id: Seq<char>) -> Option<
    (Seq<char>, Seq<char>),
>
    decreases folders.len(),
{
    if folders.len() == 0 {
        None
    } else {
        let hit = if spec_is_upload_folder(folders[0].name@) {
            spec_find_in_folder(folders[0].files@, id)
        } else {
            None
        };
        match hit {
            Some(f) => Some((folders[0].name@, f)),
            None => spec_find_asset(folders.drop_first(), id),
        }
    }
}

/// A matched file's stem: its name without the `.png` extension.
pub open spec fn spec_stem(fname: Seq<char>) -> Seq<char> {
    fname.take(fname.len() - 4)
}

/// The name the copy gets beside the transcript: the document base name, an
/// underscore, the source file's stem, and the image extension.
pub open spec fn spec_dest_name(base: Seq<char>, fname: Seq<char>) -> Seq<char> {
    base + "_"@ + spec_stem(fname) + ".png"@
}

/// The whole resolution, as a value: `None` when the pointer lacks the
/// prefix or no folder holds a match, otherwise the source and destination
/// names of the copy to perform.
pub open spec fn spec_resolve(pointer: Seq<char>, base: Seq<char>, folders: Seq<UploadFolder>)
    -> Option<AssetNames> {
    match spec_strip_pointer(pointer) {
        None => None,
        Some(id) => match spec_find_asset(folders, id) {
            None => None,
            Some(hit) => Some(
                AssetNames { folder: hit.0, file: hit.1, dest: spec_dest_name(base, hit.1) },
            ),
        },
    }
}

/// Whether `fname` resolves `id`.
fn file_matches(fname: &String, id: &str) -> (r: bool)
    ensures
        r == spec_file_matches(fname@, id@),
{
    str_starts_with(fname.as_str(), id) && str_ends_with(fname.as_str(), ".png")
}

/// The first file of `files` that matches `id`, as an index.
fn find_in_folder(files: &Vec<String>, id: &str) -> (r: Option<usize>)
    ensures
        match r {
            Some(i) => i < files@.len() && spec_find_in_folder(files@, id@) == Some(
                files@[i as int]@,
            ) && spec_file_matches(files@[i as int]@, id@),
            None => spec_find_in_folder(files@, id@) is None,
        },
{
    let mut i: usize = 0;
    proof {
        assert(files@.skip(0) =~= files@);
    }
    while i < files.len()
        invariant
            i <= files@.len(),
            spec_find_in_folder(files@, id@) == spec_find_in_folder(
                files@.skip(i as int),
                id@,
            ),
        decreases files@.len() - i,
    {
        let hit = file_matches(&files[i], id);
        proof {
            assert(files@.skip(i as int)[0] == files@[i as int]);
            assert(files@.skip(i as int).drop_first() =~= files@.skip(i + 1));
        }
        if hit {
            return Some(i);
        }
        i = i + 1;
    }
    None
}

/// Maps an asset pointer to the copy that materializes it, against the given
/// listing of the upload root: the first matching PNG in the first matching
/// `user-` folder, copied under `<base>_<stem>.png`.  Returns `None` exactly
/// when the pointer is not of the recognized form or nothing matches.
pub fn resolve_asset(pointer: &str, base: &str, folders: &Vec<UploadFolder>) -> (r: Option<
    AssetCopy,
>)
    ensures
        match r {
            Some(c) => spec_resolve(pointer@, base@, folders@) == Some(copy_names(c)),
            None => spec_resolve(pointer@, base@, folders@) is None,
        },
{
    if !str_starts_with(pointer, "sediment://") {
        return None;
    }
    let plen = "sediment://".unicode_len();
    let n = pointer.unicode_len();
    let id = pointer.substring_char(plen, n);
    let mut i: usize = 0;
    proof {
        assert(folders@.skip(0) =~= folders@);
    }
    while i < folders.len()
        invariant
            i <= folders@.len(),
            spec_starts_with(pointer@, "sediment://"@),
            id@ == pointer@.skip("sediment://"@.len() as int),
            spec_find_asset(folders@, id@) == spec_find_asset(
                folders@.skip(i as int),
                id@,
            ),
        decreases folders@.len() - i,
    {
        proof {
            assert(folders@.skip(i as int)[0] == folders@[i as int]);
            assert(folders@.skip(i as int).drop_first() =~= folders@.skip(i + 1));
        }
        if str_starts_with(folders[i].name.as_str(), "user-") {
            if let Some(j) = find_in_folder(&folders[i].files, id) {
                let fname = &folders[i].files[j];
                let flen = fname.as_str().unicode_len();
                proof {
                    reveal_strlit(".png");
                    assert(spec_file_matches(fname@, id@));
                    assert(fname@.len() >= 4);
                }
                let stem = fname.as_str().substring_char(0, flen - 4);
                let mut dest = String::from_str(base);
                dest.append("_");
                dest.append(stem);
                dest.append(".png");
                proof {
                    assert(spec_file_matches(fname@, id@));
                    assert(stem@ =~= spec_stem(fname@));
                    assert(dest@ =~= spec_dest_name(base@, fname@));
                    assert(spec_strip_pointer(pointer@) == Some(id@));
                    assert(spec_find_asset(folders@.skip(i as int), id@) == Some(
                        (folders@[i as int].name@, fname@),
                    ));
                    assert(spec_resolve(pointer@, base@, folders@) == Some(
                        AssetNames {
                            folder: folders@[i as int].name@,
                            file: fname@,
                            dest: dest@,
                        },
                    ));
                }
                return Some(
                    AssetCopy {
                        folder: folders[i].name.clone(),
                        file: fname.clone(),
                        dest,
                    },
                );
            }
        }
        i = i + 1;
    }
    None
}

} // verus!
