//! Decisions of the image upload: which multipart field is the image, the
//! name under which it is stored, and attaching it to its plant.
use vstd::prelude::*;
use crate::error::{AppError, ErrorKind};
use crate::ids::{is_v4, lemma_uuid_text_chars, random_uuid, uuid_hyphenated, uuid_text};
use crate::models::{Plant, PlantView};
use crate::registry::{has_id, index_of, Registry};

verus! {

/// Name of the multipart field that carries the image.
pub const IMAGE_FIELD: &'static str = "plantImage";

/// Extension given to a stored image whose original name has none.
pub const DEFAULT_EXTENSION: &'static str = "bin";

/// The extension of a file path, as `std::path::Path::extension` finds it.
pub uninterp spec fn path_extension(s: Seq<char>) -> Option<Seq<char>>;

/// Relies on `std::path::Path::extension`: the part of the path's final
/// component after its last `.`, if any; it holds neither `.` nor `/`.
#[verifier::external_body]
fn file_extension(path: &str) -> (r: Option<String>)
    ensures
        r is Some <==> path_extension(path@) is Some,
        r is Some ==> r->0@ == path_extension(path@)->0,
        r is Some ==> !r->0@.contains('.') && !r->0@.contains('/'),
{
    std::path::Path::new(path).extension().and_then(|e| e.to_str()).map(|e| e.to_string())
}

/// A field is the image when its name is the image field's and it carries a
/// non-empty file name.
pub open spec fn is_image_field(name: Seq<char>, file_name: Seq<char>) -> bool {
    name == IMAGE_FIELD@ && file_name.len() > 0
}

/// Whether a multipart field with name `name` and file name `file_name`
/// (empty when the field has none) is the image to store.
pub fn accepts_image_field(name: &str, file_name: &str) -> (r: bool)
    ensures
        r == is_image_field(name@, file_name@),
{
    let a = name.to_owned();
    let b = IMAGE_FIELD.to_owned();
    a.eq(&b) && !file_name.is_empty()
}

/// The extension under which an image with original name `original` is
/// stored.
pub open spec fn stored_extension(original: Seq<char>) -> Seq<char> {
    match path_extension(original) {
        Some(e) => e,
        None => DEFAULT_EXTENSION@,
    }
}

/// The stored file name `<stem>.<extension>`.
pub fn image_filename(stem: &str, original: &str) -> (r: String)
    ensures
        r@ == stem@ + seq!['.'] + stored_extension(original@),
        !stored_extension(original@).contains('/'),
{
    let mut r = stem.to_owned();
    let dot = ".";
    proof {
        reveal_strlit(".");
    }
    r.append(dot);
    match file_extension(original) {
        Some(e) => {
            r.append(e.as_str());
        },
        None => {
            r.append(DEFAULT_EXTENSION);
            proof {
                reveal_strlit("bin");
                assert(DEFAULT_EXTENSION@ =~= seq!['b', 'i', 'n']);
            }
        },
    }
    r
}

/// A fresh stored file name for an image with original name `original`:
/// the text of a random version-4 UUID, a dot and the original's extension
/// (or the default one). The original name itself is never kept, and the
/// result holds no `/`.
pub fn new_image_filename(original: &str) -> (r: String)
    ensures
        exists|x: u128|
            is_v4(x) && r@ == uuid_hyphenated(x) + seq!['.'] + stored_extension(original@),
        !r@.contains('/'),
{
    let x = random_uuid();
    let stem = uuid_text(x);
    let r = image_filename(stem.as_str(), original);
    proof {
        lemma_uuid_text_chars(x);
        let ext = stored_extension(original@);
        assert(r@ =~= stem@ + seq!['.'] + ext);
        if r@.contains('/') {
            let i = choose|i: int| 0 <= i < r@.len() && r@[i] == '/';
            if i < 36 {
                assert(r@[i] == stem@[i]);
                assert(stem@.contains('/'));
            } else if i > 36 {
                assert(r@[i] == ext[i - 37]);
                assert(ext.contains('/'));
            }
        }
    }
    r
}

/// The plant after `filename` is appended to its images.
pub open spec fn with_image(p: PlantView, filename: Seq<char>) -> PlantView {
    PlantView { image_filenames: p.image_filenames.push(filename), ..p }
}

/// First step of an image upload, before any file work: not-found exactly
/// when there is no plant `id`.
pub fn check_upload_target(registry: &Registry, id: u128) -> (r: Result<(), AppError>)
    requires
        registry.wf(),
    ensures
        r is Ok <==> has_id(registry@, id),
        r is Err ==> r->Err_0.kind == ErrorKind::NotFound,
{
    match registry.find_index(id) {
        Some(_) => Ok(()),
        None => Err(AppError::not_found()),
    }
}

/// Last step of an image upload: attaches the stored image to plant `id`.
/// `stored` is the name under which the image was written, or `None` when
/// the request held no usable image field: that is a bad request, and
/// nothing changes. When the plant was deleted while the file was written,
/// nothing changes and the error is internal (the caller removes the stored
/// file).
pub fn attach_image(registry: &mut Registry, id: u128, stored: Option<String>) -> (r: Result<
    Plant,
    AppError,
>)
    requires
        old(registry).wf(),
    ensures
        final(registry).wf(),
        stored is None ==> r == Err::<Plant, AppError>(AppError { kind: ErrorKind::BadRequest }),
        stored is Some && !has_id(old(registry)@, id) ==> r == Err::<Plant, AppError>(
            AppError { kind: ErrorKind::Internal },
        ),
        r is Err ==> final(registry)@ == old(registry)@,
        stored is Some && has_id(old(registry)@, id) ==> {
            let k = index_of(old(registry)@, id);
            let p = with_image(old(registry)@[k], stored->0@);
            &&& r is Ok
            &&& r->Ok_0@ == p
            &&& final(registry)@ == old(registry)@.update(k, p)
        },
{
    match stored {
        None => Err(AppError::bad_request()),
        Some(filename) => match registry.find_index(id) {
            None => Err(AppError::internal()),
            Some(i) => {
                let mut p = registry.get(i).clone();
                let ghost before = p.image_filenames@;
                p.image_filenames.push(filename);
                proof {
                    assert(crate::models::string_views(p.image_filenames@) =~= crate::models::string_views(
                        before,
                    ).push(stored->0@));
                }
                let out = p.clone();
                registry.set(i, p);
                Ok(out)
            },
        },
    }
}

} // verus!
