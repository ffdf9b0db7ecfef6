use samserve::is_file_field;
use samserve::plan_upload;
use samserve::safe_file_name;
use samserve::stream::stream_whole;
use samserve::upload::ingest_chunks;
use samserve::upload_destination;
use samserve::UploadDecision;

#[test]
fn existing_file_target_conflicts() {
    let ct = "multipart/form-data; boundary=X";
    assert_eq!(plan_upload(true, false, Some(ct)), UploadDecision::Conflict);
    // An existing directory is fine.
    assert!(matches!(plan_upload(true, true, Some(ct)), UploadDecision::Proceed { .. }));
}

#[test]
fn non_multipart_content_type_is_rejected() {
    assert_eq!(plan_upload(false, false, None), UploadDecision::NotMultipart);
    assert_eq!(
        plan_upload(false, false, Some("application/json")),
        UploadDecision::NotMultipart
    );
    assert_eq!(plan_upload(false, false, Some("multipart/")), UploadDecision::NotMultipart);
}

#[test]
fn boundary_is_extracted_from_the_header() {
    let d = plan_upload(false, false, Some("multipart/form-data; boundary=xYz123"));
    assert_eq!(
        d,
        UploadDecision::Proceed {
            boundary: "xYz123".to_string(),
        }
    );
}

#[test]
fn missing_boundary_defaults_to_empty() {
    let d = plan_upload(false, false, Some("multipart/form-data"));
    assert_eq!(
        d,
        UploadDecision::Proceed {
            boundary: String::new(),
        }
    );
}

#[test]
fn only_the_field_named_file_is_stored() {
    assert!(is_file_field(Some("file")));
    assert!(!is_file_field(Some("files")));
    assert!(!is_file_field(Some("File")));
    assert!(!is_file_field(None));
}

#[test]
fn traversal_sequences_are_stripped_from_names() {
    assert_eq!(safe_file_name(Some("../../evil.sh")), b"....evil.sh".to_vec());
    let n = safe_file_name(Some("../../evil.sh"));
    assert!(!n.contains(&b'/'));
    assert!(!n.contains(&b'\\'));
}

#[test]
fn separators_and_illegal_characters_are_stripped() {
    assert_eq!(safe_file_name(Some("a/b\\c:d")), b"abcd".to_vec());
    assert_eq!(safe_file_name(Some("report.pdf")), b"report.pdf".to_vec());
}

#[test]
fn missing_or_empty_names_fall_back() {
    assert_eq!(safe_file_name(None), b"upload.bin".to_vec());
    assert_eq!(safe_file_name(Some("..")), b"upload.bin".to_vec());
    assert_eq!(safe_file_name(Some("")), b"upload.bin".to_vec());
    assert_eq!(safe_file_name(Some("///")), b"upload.bin".to_vec());
}

#[test]
fn destination_is_directly_under_the_target() {
    let name = safe_file_name(Some("../../evil.sh"));
    let dest = upload_destination(&b"./uploads".to_vec(), &name);
    assert_eq!(dest, b"./uploads/....evil.sh".to_vec());
}

#[test]
fn chunks_are_written_in_arrival_order() {
    let chunks = vec![b"he".to_vec(), b"l".to_vec(), b"lo".to_vec()];
    assert_eq!(ingest_chunks(&chunks), b"hello".to_vec());
    let none: Vec<Vec<u8>> = vec![];
    assert_eq!(ingest_chunks(&none), Vec::<u8>::new());
}

#[test]
fn upload_then_download_is_byte_identical() {
    let chunks = vec![b"PDF-1.4 ".to_vec(), vec![0u8, 255, 7], b" trailer".to_vec()];
    let stored = ingest_chunks(&chunks);
    let served = stream_whole(stored.as_slice());
    let mut expected: Vec<u8> = Vec::new();
    for c in &chunks {
        expected.extend_from_slice(c);
    }
    assert_eq!(served, expected);
}

#[test]
fn repeated_uploads_overwrite() {
    // Two identical uploads write the same destination twice; the file holds
    // the last upload's bytes.
    let first = ingest_chunks(&vec![b"v1".to_vec()]);
    let second = ingest_chunks(&vec![b"v1".to_vec()]);
    assert_eq!(first, second);
    let replaced = ingest_chunks(&vec![b"v2-longer".to_vec()]);
    assert_eq!(replaced, b"v2-longer".to_vec());
}
