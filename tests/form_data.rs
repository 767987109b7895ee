use file_uploader::form_data::{
    classify, concat_chunks, field_key, get_string, save_file, temp_file_created, FieldData,
    FieldKind, UploadError, WriteOutcome,
};

fn chunks(parts: &[&[u8]]) -> Vec<Vec<u8>> {
    parts.iter().map(|p| p.to_vec()).collect()
}

#[test]
fn classify_by_filename() {
    assert_eq!(classify(&Some(String::from("a.txt"))), FieldKind::File);
    assert_eq!(classify(&None), FieldKind::Parameter);
}

#[test]
fn key_defaults_to_empty() {
    assert_eq!(field_key(Some(String::from("pwd"))), "pwd");
    assert_eq!(field_key(None), "");
}

#[test]
fn chunks_are_joined_in_order() {
    let c = chunks(&[b"%PDF", b"-1.", b"4..."]);
    assert_eq!(concat_chunks(&c), b"%PDF-1.4...".to_vec());
    assert_eq!(concat_chunks(&Vec::new()), Vec::<u8>::new());
}

#[test]
fn scalar_field_is_decoded() {
    let info = get_string(&chunks(&[b"123", b"456"]), String::from("pwd")).unwrap();
    assert_eq!(info.key, "pwd");
    match info.data {
        FieldData::Paramter(p) => assert_eq!(p.value, "123456"),
        FieldData::File(_) => panic!("expected a parameter"),
    }
}

#[test]
fn scalar_field_empty_and_multibyte() {
    let info = get_string(&Vec::new(), String::from("note")).unwrap();
    match info.data {
        FieldData::Paramter(p) => assert_eq!(p.value, ""),
        FieldData::File(_) => panic!("expected a parameter"),
    }
    // "é" split across two chunks
    let info = get_string(&chunks(&[&[0xc3], &[0xa9]]), String::from("note")).unwrap();
    match info.data {
        FieldData::Paramter(p) => assert_eq!(p.value, "é"),
        FieldData::File(_) => panic!("expected a parameter"),
    }
}

#[test]
fn scalar_field_rejects_invalid_utf8() {
    let r = get_string(&chunks(&[b"ab", &[0xff]]), String::from("pwd"));
    let e = r.err().unwrap();
    assert!(matches!(e, UploadError::DecodeError));
    assert!(e.is_client_error());
}

#[test]
fn file_field_without_filename_is_refused() {
    let r = save_file(None, String::from("file"), String::from("scratch.tmp"));
    let e = r.err().unwrap();
    assert!(matches!(e, UploadError::MissingFilename));
    assert!(e.is_client_error());
}

#[test]
fn file_field_counts_written_bytes() {
    let mut rc = save_file(
        Some(String::from("report.pdf")),
        String::from("file"),
        String::from("scratch.tmp"),
    )
    .unwrap();
    assert_eq!(rc.temp_file(), "scratch.tmp");
    for c in chunks(&[b"%PDF", b"-1.", b"4..."]) {
        rc.begin_write(&c);
        assert!(rc.end_write(WriteOutcome::Done).is_ok());
    }
    assert_eq!(rc.received(), 11);
    let info = rc.finish();
    assert_eq!(info.key, "file");
    match info.data {
        FieldData::File(f) => {
            assert_eq!(f.file_name, "report.pdf");
            assert_eq!(f.temp_file, "scratch.tmp");
        }
        FieldData::Paramter(_) => panic!("expected a file"),
    }
}

#[test]
fn file_field_write_failure() {
    let mut rc =
        save_file(Some(String::from("a")), String::from("file"), String::from("t")).unwrap();
    rc.begin_write(&b"abc".to_vec());
    let e = rc.end_write(WriteOutcome::Failed(String::from("disk full"))).err().unwrap();
    match e {
        UploadError::WriteError(m) => assert_eq!(m, "disk full"),
        _ => panic!("expected a write error"),
    }
    assert_eq!(rc.received(), 0);
}

#[test]
fn file_field_write_cancelled() {
    let mut rc =
        save_file(Some(String::from("a")), String::from("file"), String::from("t")).unwrap();
    rc.begin_write(&b"abc".to_vec());
    let e = rc.end_write(WriteOutcome::Canceled).err().unwrap();
    assert!(matches!(e, UploadError::Cancelled));
    assert!(!e.is_client_error());
}

#[test]
fn scratch_file_creation() {
    assert!(temp_file_created(Ok(())).is_ok());
    match temp_file_created(Err(String::from("denied"))) {
        Err(UploadError::TempFileCreateError(m)) => assert_eq!(m, "denied"),
        _ => panic!("expected a creation error"),
    }
}
