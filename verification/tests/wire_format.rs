use cargo_registry::wire::decode_upload;

fn body_with(meta: &[u8], archive: &[u8]) -> Vec<u8> {
    let mut body = Vec::new();
    body.extend_from_slice(&(meta.len() as u32).to_le_bytes());
    body.extend_from_slice(meta);
    body.extend_from_slice(&(archive.len() as u32).to_le_bytes());
    body.extend_from_slice(archive);
    body
}

#[test]
fn decode_splits_metadata_and_archive() {
    let body = body_with(b"{\"name\":\"demo\"}", &[1, 2, 3]);
    let frame = decode_upload(&body, 1000).expect("a well-formed body decodes");
    assert_eq!(frame.metadata, "{\"name\":\"demo\"}");
    assert_eq!(frame.archive, vec![1, 2, 3]);
}

#[test]
fn decode_accepts_trailing_bytes() {
    let mut body = body_with(b"{}", &[9, 9]);
    body.push(0xAA);
    let frame = decode_upload(&body, 1000).expect("extra trailing bytes are ignored");
    assert_eq!(frame.metadata, "{}");
    assert_eq!(frame.archive, vec![9, 9]);
}

#[test]
fn oversize_metadata_is_rejected_before_reading() {
    let body = body_with(b"{\"name\":\"demo\"}", &[]);
    let e = decode_upload(&body, 4).expect_err("a length over the bound is rejected");
    assert_eq!(e.detail(), "max upload size is: 4");
}

#[test]
fn invalid_utf8_metadata_is_rejected() {
    let body = body_with(&[0xFF, 0xFE, 0xFD], &[]);
    let e = decode_upload(&body, 1000).expect_err("invalid UTF-8 is rejected");
    assert_eq!(e.detail(), "json body was not valid utf-8");
}

#[test]
fn truncated_body_is_rejected() {
    let e = decode_upload(&[7, 0, 0], 1000).expect_err("a body without a full length is rejected");
    assert_eq!(
        e.detail(),
        "invalid upload request: body ends before its declared contents"
    );

    let e2 = decode_upload(&[7, 0, 0, 0, b'a'], 1000)
        .expect_err("a body shorter than its declared metadata is rejected");
    assert_eq!(
        e2.detail(),
        "invalid upload request: body ends before its declared contents"
    );

    let mut body = Vec::new();
    body.extend_from_slice(&2u32.to_le_bytes());
    body.extend_from_slice(b"{}");
    body.extend_from_slice(&9u32.to_le_bytes());
    body.push(1);
    let e3 = decode_upload(&body, 1000)
        .expect_err("a body shorter than its declared archive is rejected");
    assert_eq!(
        e3.detail(),
        "invalid upload request: body ends before its declared contents"
    );
}
