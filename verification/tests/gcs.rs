use mcadmin::gcs::{
    bearer_authorization, header_fmt, upload_succeeded, insert_request, public_media_uri, InsertOptions, MediaType,
    MimeData,
};

fn strings(items: &[&str]) -> Vec<String> {
    items.iter().map(|s| s.to_string()).collect()
}

#[test]
fn header_fmt_joins_with_commas() {
    assert_eq!(header_fmt(&strings(&["no-cache"])), "no-cache");
    assert_eq!(header_fmt(&strings(&["a", "b"])), "a,b");
    assert_eq!(header_fmt(&strings(&[])), "");
}

#[test]
fn header_fmt_separates_only_after_text() {
    assert_eq!(header_fmt(&strings(&["", "b"])), "b");
    assert_eq!(header_fmt(&strings(&["a", "", "c"])), "a,,c");
}

#[test]
fn media_types_of_data() {
    assert_eq!(String::from("x").media_type().essence, "text/plain");
    assert_eq!(vec![1u8].media_type().essence, "application/octet-stream");
    let tagged = (vec![1u8, 2], MediaType::new("image/png".to_string()));
    assert_eq!(tagged.media_type().essence, "image/png");
    assert_eq!(tagged.to_bytes(), vec![1u8, 2]);
    assert_eq!(String::from("hé").to_bytes(), "hé".as_bytes().to_vec());
}

fn expected_body(essence: &str, payload: &[u8]) -> Vec<u8> {
    let mut body = format!(
        "--my-multipart-boundary\r\nContent-Type: application/json;charset=UTF-8\r\nContent-Transfer-Encoding: identity\r\n\r\n{{\"cacheControl\":\"no-cache\"}}\r\n--my-multipart-boundary\r\nContent-Type: {}\r\nContent-Transfer-Encoding: identity\r\n\r\n",
        essence
    )
    .into_bytes();
    body.extend_from_slice(payload);
    body.extend_from_slice(b"\r\n\r\n--my-multipart-boundary--");
    body
}

#[test]
fn insert_request_of_text() {
    let req = insert_request("mcupl-var", "host-address_2", "1.2.3.4".to_string(), &InsertOptions::default());
    assert_eq!(
        req.uri,
        "https://storage.googleapis.com/upload/storage/v1/b/mcupl-var/o?uploadType=multipart&name=host-address_2"
    );
    assert_eq!(req.content_type, "multipart/related; boundary=my-multipart-boundary");
    assert_eq!(req.body, expected_body("text/plain", b"1.2.3.4"));
}

#[test]
fn insert_request_of_bytes() {
    let req = insert_request("b", "o", vec![0u8, 255, 10], &InsertOptions::default());
    assert_eq!(req.body, expected_body("application/octet-stream", &[0, 255, 10]));
    let tagged = (vec![7u8], MediaType::new("image/png".to_string()));
    let req = insert_request("b", "o", tagged, &InsertOptions::default());
    assert_eq!(req.body, expected_body("image/png", &[7]));
}

#[test]
fn download_address_and_authorization() {
    assert_eq!(
        public_media_uri("mcupl-var", "host-address_2"),
        "https://storage.googleapis.com/storage/v1/b/mcupl-var/o/host-address_2?alt=media"
    );
    assert_eq!(bearer_authorization("tok"), "Bearer tok");
}

#[test]
fn upload_status_classes() {
    assert!(upload_succeeded(200));
    assert!(upload_succeeded(204));
    assert!(upload_succeeded(299));
    assert!(!upload_succeeded(199));
    assert!(!upload_succeeded(300));
    assert!(!upload_succeeded(404));
    assert!(!upload_succeeded(500));
}
