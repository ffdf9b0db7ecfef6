//! Multipart upload handling: validating the target and the content type,
//! choosing a destination file name that can never leave the target
//! directory, and the model of what streaming the upload to disk writes.

use vstd::prelude::*;
use crate::resolve::{dot, dotdot, spec_split_slash, spec_walk_step};
use crate::text::{spec_starts_with, starts_with_bytes};

verus! {

use vstd::string::StringSliceAdditionalSpecFns;

/// The required `Content-Type` prefix of an upload request.
pub open spec fn multipart_prefix() -> Seq<u8> {
    "multipart/form-data".spec_bytes()
}

/// What `multer::parse_boundary` extracts from a `Content-Type` value; a
/// pure function of that string alone.
pub uninterp spec fn boundary_of(content_type: Seq<char>) -> Option<Seq<char>>;

/// Relies on multer::parse_boundary: it parses the `Content-Type` value as
/// a MIME type and returns its `boundary` parameter, failing on anything
/// that is not `multipart/form-data` with a boundary.
#[verifier::external_body]
fn parse_boundary(content_type: &str) -> (r: Option<String>)
    ensures
        r is Some <==> boundary_of(content_type@) is Some,
        r matches Some(b) ==> boundary_of(content_type@) == Some(b@),
{
    multer::parse_boundary(content_type).ok()
}

/// Ghost form of an upload decision.
pub enum UploadDecisionSpec {
    Conflict,
    NotMultipart,
    Proceed { boundary: Seq<char> },
}

/// What to do with a POST, before any multipart parsing.
#[derive(Debug, PartialEq, Eq)]
pub enum UploadDecision {
    /// The target path exists and is not a directory: status 409.
    Conflict,
    /// The `Content-Type` is missing or not `multipart/form-data`: 400.
    NotMultipart,
    /// Parse the body as multipart with this boundary (empty when the
    /// header named none, which then matches no field).
    Proceed { boundary: String },
}

impl View for UploadDecision {
    type V = UploadDecisionSpec;

    open spec fn view(&self) -> UploadDecisionSpec {
        match self {
            UploadDecision::Conflict => UploadDecisionSpec::Conflict,
            UploadDecision::NotMultipart => UploadDecisionSpec::NotMultipart,
            UploadDecision::Proceed { boundary } => UploadDecisionSpec::Proceed {
                boundary: boundary@,
            },
        }
    }
}

pub open spec fn spec_plan_upload(
    target_exists: bool,
    target_is_dir: bool,
    content_type: Option<Seq<u8>>,
    content_type_chars: Seq<char>,
) -> UploadDecisionSpec {
    if target_exists && !target_is_dir {
        UploadDecisionSpec::Conflict
    } else if !(content_type is Some && spec_starts_with(content_type->0, multipart_prefix())) {
        UploadDecisionSpec::NotMultipart
    } else {
        UploadDecisionSpec::Proceed {
            boundary: match boundary_of(content_type_chars) {
                Some(b) => b,
                None => Seq::empty(),
            },
        }
    }
}

/// Validates an upload request's target and `Content-Type` and extracts the
/// multipart boundary. `target_exists` and `target_is_dir` describe the
/// resolved target path's metadata.
pub fn plan_upload(target_exists: bool, target_is_dir: bool, content_type: Option<&str>) -> (r:
    UploadDecision)
    ensures
        r@ == spec_plan_upload(
            target_exists,
            target_is_dir,
            match content_type {
                Some(c) => Some(c.spec_bytes()),
                None => None,
            },
            match content_type {
                Some(c) => c@,
                None => Seq::empty(),
            },
        ),
{
    if target_exists && !target_is_dir {
        return UploadDecision::Conflict;
    }
    let ct = match content_type {
        None => {
            return UploadDecision::NotMultipart;
        },
        Some(c) => c,
    };
    if !starts_with_bytes(ct.as_bytes(), "multipart/form-data".as_bytes()) {
        return UploadDecision::NotMultipart;
    }
    let boundary = match parse_boundary(ct) {
        Some(b) => b,
        None => String::new(),
    };
    UploadDecision::Proceed { boundary }
}

/// True when a multipart part is the one the upload pipeline stores: the
/// first part whose field name is exactly `file`.
pub fn is_file_field(field_name: Option<&str>) -> (r: bool)
    ensures
        r == (match field_name {
            Some(n) => n.spec_bytes() == "file".spec_bytes(),
            None => false,
        }),
{
    match field_name {
        Some(n) => crate::text::eq_bytes_constant_time(n.as_bytes(), "file".as_bytes()),
        None => false,
    }
}

/// A destination name is safe when it is a single non-empty path component:
/// no separators and no traversal token, so resolving it under the target
/// directory can only name an entry of that directory.
pub open spec fn safe_name(n: Seq<u8>) -> bool {
    &&& n.len() > 0
    &&& forall|i: int| 0 <= i < n.len() ==> n[i] != 47 && n[i] != 92
    &&& n != dot()
    &&& n != dotdot()
}

/// What the sanitizer makes of a client-declared file name; a pure function
/// of that name alone.
pub uninterp spec fn sanitized_of(name: Seq<char>) -> Seq<u8>;

/// Relies on sanitize_filename::sanitize_with_options, called with fixed
/// options so the result is a function of the name alone on every build:
/// path separators (`/`, `\`), control characters and several punctuation
/// characters are stripped, and a name made only of dots becomes empty, so
/// the result is never a separator-bearing or traversal name.
#[verifier::external_body]
fn sanitize_raw(name: &str) -> (r: Vec<u8>)
    ensures
        r@ == sanitized_of(name@),
        forall|i: int| 0 <= i < r@.len() ==> r@[i] != 47 && r@[i] != 92,
        r@ != dot(),
        r@ != dotdot(),
{
    let options = sanitize_filename::Options { windows: false, truncate: true, replacement: "" };
    sanitize_filename::sanitize_with_options(name, options).into_bytes()
}

/// The name used when the client sent none, or when sanitizing left
/// nothing: `upload.bin`.
pub open spec fn spec_fallback_name() -> Seq<u8> {
    seq![117u8, 112u8, 108u8, 111u8, 97u8, 100u8, 46u8, 98u8, 105u8, 110u8]
}

fn fallback_name() -> (r: Vec<u8>)
    ensures
        r@ == spec_fallback_name(),
{
    let mut v: Vec<u8> = Vec::new();
    v.push(117);
    v.push(112);
    v.push(108);
    v.push(111);
    v.push(97);
    v.push(100);
    v.push(46);
    v.push(98);
    v.push(105);
    v.push(110);
    assert(v@ =~= spec_fallback_name());
    v
}

/// Chooses and sanitizes the destination file name for an upload: the
/// client-declared name if it sanitizes to something, else the fallback.
/// The result is always a safe single component.
pub fn safe_file_name(client_name: Option<&str>) -> (r: Vec<u8>)
    ensures
        safe_name(r@),
        client_name is None ==> r@ == spec_fallback_name(),
        client_name matches Some(n) ==> r@ == (if sanitized_of(n@).len() == 0 {
            spec_fallback_name()
        } else {
            sanitized_of(n@)
        }),
{
    let sanitized = match client_name {
        Some(n) => sanitize_raw(n),
        None => fallback_name(),
    };
    if sanitized.len() == 0 {
        let r = fallback_name();
        assert(r@ != dot() && r@ != dotdot());
        r
    } else {
        sanitized
    }
}

/// The destination path of an upload: the safe name directly under the
/// resolved target directory.
pub fn upload_destination(target_dir: &Vec<u8>, file_name: &Vec<u8>) -> (r: Vec<u8>)
    ensures
        r@ == target_dir@ + seq![47u8] + file_name@,
{
    let mut out: Vec<u8> = Vec::new();
    out.extend_from_slice(target_dir.as_slice());
    out.push(47);
    out.extend_from_slice(file_name.as_slice());
    assert(out@ =~= target_dir@ + seq![47u8] + file_name@);
    out
}

/// A safe name never escapes the directory it is written under: the
/// destination path splits into the directory's own components plus the
/// name as one final component, and walking that final component from any
/// resolved directory only appends it.
pub proof fn lemma_upload_destination_confined(dir: Seq<u8>, name: Seq<u8>, resolved: Seq<u8>)
    requires
        safe_name(name),
    ensures
        spec_split_slash(dir + seq![47u8] + name) == spec_split_slash(dir).push(name),
        spec_walk_step(Some(resolved), name) == Some(resolved + seq![47u8] + name),
{
    lemma_split_append_component(dir, name);
}

proof fn lemma_split_append_component(dir: Seq<u8>, name: Seq<u8>)
    requires
        forall|i: int| 0 <= i < name.len() ==> name[i] != 47,
    ensures
        spec_split_slash(dir + seq![47u8] + name) == spec_split_slash(dir).push(name),
    decreases name.len(),
{
    if name.len() == 0 {
        assert(dir + seq![47u8] + name =~= dir + seq![47u8]);
        assert((dir + seq![47u8]).drop_last() =~= dir);
        assert((dir + seq![47u8]).last() == 47);
        assert(spec_split_slash(dir + seq![47u8]) == spec_split_slash(dir).push(Seq::empty()));
        assert(name =~= Seq::<u8>::empty());
    } else {
        assert(forall|i: int| 0 <= i < name.drop_last().len() ==> name.drop_last()[i] != 47);
        lemma_split_append_component(dir, name.drop_last());
        let whole = dir + seq![47u8] + name;
        assert(whole.drop_last() =~= dir + seq![47u8] + name.drop_last());
        assert(whole.last() == name.last());
        assert(whole.last() != 47);
        let r = spec_split_slash(whole.drop_last());
        assert(r == spec_split_slash(dir).push(name.drop_last()));
        assert(r.last() == name.drop_last());
        assert(spec_split_slash(whole) == r.update(r.len() - 1, name.drop_last().push(name.last())));
        assert(name.drop_last().push(name.last()) =~= name);
        assert(r.update(r.len() - 1, name) =~= spec_split_slash(dir).push(name));
    }
}

/// What streaming the upload's chunks to disk writes: their concatenation,
/// in arrival order.
pub open spec fn spec_concat_chunks(chunks: Seq<Seq<u8>>) -> Seq<u8>
    decreases chunks.len(),
{
    if chunks.len() == 0 {
        Seq::empty()
    } else {
        spec_concat_chunks(chunks.drop_last()) + chunks.last()
    }
}

/// Writes the upload's chunks in order, as the streaming loop does, and
/// returns the destination file's final content.
pub fn ingest_chunks(chunks: &Vec<Vec<u8>>) -> (out: Vec<u8>)
    ensures
        out@ == spec_concat_chunks(crate::resolve::views(chunks@)),
{
    let ghost cv = crate::resolve::views(chunks@);
    let mut out: Vec<u8> = Vec::new();
    let mut i: usize = 0;
    assert(out@ =~= spec_concat_chunks(cv.take(0)));
    while i < chunks.len()
        invariant
            0 <= i <= chunks@.len(),
            cv == crate::resolve::views(chunks@),
            out@ == spec_concat_chunks(cv.take(i as int)),
        decreases chunks@.len() - i,
    {
        out.extend_from_slice(chunks[i].as_slice());
        assert(cv.take(i + 1).drop_last() =~= cv.take(i as int));
        assert(cv.take(i + 1).last() == cv[i as int]);
        assert(cv[i as int] == chunks@[i as int]@);
        i += 1;
    }
    assert(cv.take(i as int) =~= cv);
    out
}

/// The filesystem, as the upload pipeline affects it: a map from
/// destination paths to file contents. Creating the destination truncates
/// any previous file, so a store is an insertion.
pub open spec fn spec_store(
    files: Map<Seq<u8>, Seq<u8>>,
    path: Seq<u8>,
    content: Seq<u8>,
) -> Map<Seq<u8>, Seq<u8>> {
    files.insert(path, content)
}

/// Repeated identical uploads overwrite rather than corrupt: storing the
/// same content at the same path twice leaves the filesystem exactly as one
/// store does, and the file holds that content.
pub proof fn lemma_upload_idempotent(
    files: Map<Seq<u8>, Seq<u8>>,
    path: Seq<u8>,
    content: Seq<u8>,
)
    ensures
        spec_store(spec_store(files, path, content), path, content) == spec_store(
            files,
            path,
            content,
        ),
        spec_store(files, path, content)[path] == content,
{
    assert(spec_store(spec_store(files, path, content), path, content) =~= spec_store(
        files,
        path,
        content,
    ));
}

/// Round trip: uploading chunks and then downloading the destination file
/// whole returns exactly the bytes that were uploaded — the stored content
/// is the chunks' concatenation, and streaming all of it changes nothing.
pub proof fn lemma_upload_download_roundtrip(
    files: Map<Seq<u8>, Seq<u8>>,
    path: Seq<u8>,
    chunks: Seq<Seq<u8>>,
)
    ensures
        ({
            let stored = spec_store(files, path, spec_concat_chunks(chunks))[path];
            stored == spec_concat_chunks(chunks) && stored.subrange(0, stored.len() as int)
                == stored
        }),
{
    let stored = spec_store(files, path, spec_concat_chunks(chunks))[path];
    assert(stored.subrange(0, stored.len() as int) =~= stored);
}

} // verus!
