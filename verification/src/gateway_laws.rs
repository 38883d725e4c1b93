use crate::fetch::{FetchCause, FetchError, TransferView};
use crate::gateway::{GatewayError, fetch_answer, fetch_target, located, served};
use crate::store::{joined_path, lemma_joined_path_tells_names_apart, name_error};
use vstd::prelude::*;

verus! {

/// One upload: the name and the bytes that came with it.
pub struct Upload {
    pub name: Seq<char>,
    pub content: Seq<u8>,
}

/// What reading the file at `path` gives in a store that holds `files`.
pub open spec fn read_at(files: Map<Seq<char>, Seq<u8>>, path: Seq<char>) -> Option<Seq<u8>> {
    if files.dom().contains(path) {
        Some(files[path])
    } else {
        None
    }
}

/// The files of a store after `upload`: the bytes are written, as they are,
/// at the path of the name, over what was there. An upload whose name is
/// refused writes nothing.
pub open spec fn after_upload(
    files: Map<Seq<char>, Seq<u8>>,
    root: Seq<char>,
    upload: Upload,
) -> Map<Seq<char>, Seq<u8>> {
    match located(root, upload.name) {
        Ok(path) => files.insert(path, upload.content),
        Err(_) => files,
    }
}

/// The files of a store that began empty and took `uploads` in order.
pub open spec fn after_uploads(root: Seq<char>, uploads: Seq<Upload>) -> Map<
    Seq<char>,
    Seq<u8>,
>
    decreases uploads.len(),
{
    if uploads.len() == 0 {
        Map::empty()
    } else {
        after_upload(after_uploads(root, uploads.drop_last()), root, uploads.last())
    }
}

/// What a download of `name` is answered with by a store that holds `files`.
pub open spec fn download(files: Map<Seq<char>, Seq<u8>>, root: Seq<char>, name: Seq<char>)
    -> Result<Seq<u8>, GatewayError> {
    match located(root, name) {
        Ok(path) => served(read_at(files, path)),
        Err(e) => Err(e),
    }
}

/// What is uploaded under a name comes back from a download of that name,
/// byte for byte.
pub proof fn lemma_download_returns_upload(
    files: Map<Seq<char>, Seq<u8>>,
    root: Seq<char>,
    upload: Upload,
)
    requires
        name_error(upload.name) is None,
    ensures
        download(after_upload(files, root, upload), root, upload.name) == Ok::<
            Seq<u8>,
            GatewayError,
        >(upload.content),
{
}

/// An upload under one name leaves what is stored under every other name as
/// it was.
pub proof fn lemma_upload_leaves_other_names(
    files: Map<Seq<char>, Seq<u8>>,
    root: Seq<char>,
    upload: Upload,
    name: Seq<char>,
)
    requires
        name != upload.name,
    ensures
        download(after_upload(files, root, upload), root, name) == download(files, root, name),
{
    if name_error(name) is None && name_error(upload.name) is None {
        if joined_path(root, name) == joined_path(root, upload.name) {
            lemma_joined_path_tells_names_apart(root, name, upload.name);
        }
    }
}

/// A download of a name under which nothing was ever uploaded is answered
/// with `NotFound`.
pub proof fn lemma_download_of_unknown_name(root: Seq<char>, uploads: Seq<Upload>, name: Seq<char>)
    requires
        name_error(name) is None,
        forall|i: int| 0 <= i < uploads.len() ==> (#[trigger] uploads[i]).name != name,
    ensures
        download(after_uploads(root, uploads), root, name) == Err::<Seq<u8>, GatewayError>(
            GatewayError::NotFound,
        ),
    decreases uploads.len(),
{
    if uploads.len() > 0 {
        let head = uploads.drop_last();
        assert forall|i: int| 0 <= i < head.len() implies (#[trigger] head[i]).name != name by {
            assert(head[i] == uploads[i]);
        }
        lemma_download_of_unknown_name(root, head, name);
        lemma_upload_leaves_other_names(after_uploads(root, head), root, uploads.last(), name);
    }
}

/// After any run of uploads, a download of a name gives the bytes of the
/// last upload under that name.
pub proof fn lemma_download_returns_last_upload(
    root: Seq<char>,
    uploads: Seq<Upload>,
    last: int,
)
    requires
        0 <= last < uploads.len(),
        name_error(uploads[last].name) is None,
        forall|i: int| last < i < uploads.len() ==> (#[trigger] uploads[i]).name != uploads[last].name,
    ensures
        download(after_uploads(root, uploads), root, uploads[last].name) == Ok::<
            Seq<u8>,
            GatewayError,
        >(uploads[last].content),
    decreases uploads.len(),
{
    let head = uploads.drop_last();
    if last == uploads.len() - 1 {
        lemma_download_returns_upload(after_uploads(root, head), root, uploads.last());
    } else {
        assert(head[last] == uploads[last]);
        assert forall|i: int| last < i < head.len() implies (#[trigger] head[i]).name
            != head[last].name by {
            assert(head[i] == uploads[i]);
        }
        lemma_download_returns_last_upload(root, head, last);
        lemma_upload_leaves_other_names(
            after_uploads(root, head),
            root,
            uploads.last(),
            uploads[last].name,
        );
    }
}

/// A fetch fails as a fetch error and as nothing else: where no response
/// came, with the cause that says so, and in every other case of failure
/// with one of the causes of a fetch.
pub proof fn lemma_fetch_fails_as_fetch_error(url: Seq<char>, transfer: TransferView)
    ensures
        fetch_answer(TransferView::Failed) == Err::<Seq<char>, GatewayError>(
            GatewayError::Fetch(FetchError { cause: FetchCause::ConnectionFailed }),
        ),
        fetch_answer(transfer) is Err ==> fetch_answer(transfer)->Err_0 is Fetch,
        fetch_target(url) is Err ==> fetch_target(url)->Err_0 is Fetch,
{
}

} // verus!
