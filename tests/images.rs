use clewdr_format::claude::{ContentBlock, DocumentSource, ImageSource, ImageUrl};
use clewdr_format::image_converter::{
    bytes_to_image_source, claude_image_to_oai, document_to_image_source,
    extract_image_from_data_uri, infer_media_type_from_url, is_supported_document_type,
    is_supported_image_type, is_valid_base64, oai_image_url_to_claude, process_image_blocks,
};
use clewdr_format::web_transform::{extract_image_from_url, upload_file_name, upload_payload};

#[test]
fn transform_test_extract_image_from_data_uri() {
    let data_uri = "data:image/png;base64,iVBORw0KGgo";
    let result = extract_image_from_url(data_uri);

    assert!(result.is_some());
    let source = result.unwrap();
    assert_eq!(source.type_, "base64");
    assert_eq!(source.media_type, "image/png");
    assert_eq!(source.data, "iVBORw0KGgo");
}

#[test]
fn test_extract_image_from_http_url() {
    let url = "https://example.com/image.png";
    let result = extract_image_from_url(url);

    assert!(result.is_some());
    let source = result.unwrap();
    assert_eq!(source.type_, "url");
    assert_eq!(source.media_type, "image/png");
    assert_eq!(source.data, url);
}

#[test]
fn transform_test_infer_media_type() {
    assert_eq!(infer_media_type_from_url("https://example.com/image.png"), "image/png");
    assert_eq!(infer_media_type_from_url("https://example.com/photo.jpg"), "image/jpeg");
    assert_eq!(infer_media_type_from_url("https://example.com/photo.jpeg?size=large"), "image/jpeg");
    assert_eq!(infer_media_type_from_url("https://example.com/doc.pdf#page=1"), "application/pdf");
    assert_eq!(infer_media_type_from_url("https://example.com/file"), "application/octet-stream");
}

#[test]
fn test_invalid_url() {
    assert!(extract_image_from_url("not-a-url").is_none());
    assert!(extract_image_from_url("ftp://example.com/file").is_none());
}

#[test]
fn image_converter_test_extract_image_from_data_uri() {
    let uri = "data:image/png;base64,iVBORw0KGgoAAAANSUhEUg==";
    let result = extract_image_from_data_uri(uri);

    assert!(result.is_some());
    let source = result.unwrap();
    assert_eq!(source.type_, "base64");
    assert_eq!(source.media_type, "image/png");
    assert_eq!(source.data, "iVBORw0KGgoAAAANSUhEUg==");
}

#[test]
fn image_converter_test_infer_media_type() {
    assert_eq!(infer_media_type_from_url("https://example.com/image.png"), "image/png");
    assert_eq!(infer_media_type_from_url("https://example.com/photo.jpg"), "image/jpeg");
    assert_eq!(infer_media_type_from_url("https://example.com/photo.jpeg?size=large"), "image/jpeg");
    assert_eq!(infer_media_type_from_url("https://example.com/doc.pdf#page=1"), "application/pdf");
    assert_eq!(infer_media_type_from_url("https://example.com/file"), "application/octet-stream");
}

#[test]
fn test_is_supported_image_type() {
    assert!(is_supported_image_type("image/png"));
    assert!(is_supported_image_type("image/jpeg"));
    assert!(is_supported_image_type("image/gif"));
    assert!(!is_supported_image_type("application/pdf"));
    assert!(!is_supported_image_type("text/plain"));
}

#[test]
fn test_is_supported_document_type() {
    assert!(is_supported_document_type("application/pdf"));
    assert!(is_supported_document_type("text/plain"));
    assert!(!is_supported_document_type("image/png"));
}

#[test]
fn test_bytes_to_image_source() {
    let bytes = b"test image data";
    let source = bytes_to_image_source(bytes, "image/png");

    assert_eq!(source.type_, "base64");
    assert_eq!(source.media_type, "image/png");
    assert!(is_valid_base64(&source.data));
}

#[test]
fn test_oai_to_claude_data_uri() {
    let image_url = ImageUrl { url: "data:image/png;base64,iVBORw0KGgo=".to_string() };
    let result = oai_image_url_to_claude(&image_url);

    assert!(result.is_some());
    if let Some(ContentBlock::Image { source, .. }) = result {
        assert_eq!(source.media_type, "image/png");
    } else {
        panic!("Expected Image block");
    }
}

#[test]
fn test_oai_to_claude_http_url() {
    let image_url = ImageUrl { url: "https://example.com/image.png".to_string() };
    let result = oai_image_url_to_claude(&image_url);

    assert!(result.is_some());
    if let Some(ContentBlock::ImageUrl { .. }) = result {
    } else {
        panic!("Expected ImageUrl block");
    }
}

#[test]
fn test_claude_image_to_oai() {
    let source = ImageSource {
        type_: "base64".to_string(),
        media_type: "image/png".to_string(),
        data: "iVBORw0KGgo=".to_string(),
    };
    let result = claude_image_to_oai(&source);

    if let ContentBlock::ImageUrl { image_url } = result {
        assert!(image_url.url.starts_with("data:image/png;base64,"));
    } else {
        panic!("Expected ImageUrl block");
    }
}

#[test]
fn test_document_to_image_source() {
    let doc = DocumentSource {
        type_: "base64".to_string(),
        media_type: Some("application/pdf".to_string()),
        data: Some("JVBERi0xLjQ=".to_string()),
        url: None,
    };
    let result = document_to_image_source(&doc);

    assert!(result.is_some());
    let source = result.unwrap();
    assert_eq!(source.media_type, "application/pdf");
}

#[test]
fn data_uri_without_encoding_defaults_to_base64() {
    let source = extract_image_from_data_uri("data:image/gif,R0lGOD").unwrap();
    assert_eq!(source.type_, "base64");
    assert_eq!(source.media_type, "image/gif");
    assert_eq!(source.data, "R0lGOD");
    assert!(extract_image_from_data_uri("data:image/gif;base64").is_none());
    assert!(extract_image_from_data_uri("image/gif;base64,AAAA").is_none());
}

#[test]
fn media_type_ignores_extension_case() {
    assert_eq!(infer_media_type_from_url("https://example.com/PHOTO.PNG"), "image/png");
    assert_eq!(infer_media_type_from_url("https://example.com/notes.MD"), "text/markdown");
    assert_eq!(infer_media_type_from_url("https://example.com/a.b/icon.ico?x=1.png"), "image/x-icon");
}

#[test]
fn document_without_media_type_gets_octet_stream() {
    let doc = DocumentSource { type_: "base64".to_string(), media_type: None, data: Some("AAAA".to_string()), url: None };
    assert_eq!(document_to_image_source(&doc).unwrap().media_type, "application/octet-stream");
    let url_doc = DocumentSource { type_: "url".to_string(), media_type: None, data: Some("AAAA".to_string()), url: None };
    assert!(document_to_image_source(&url_doc).is_none());
    let no_data = DocumentSource { type_: "base64".to_string(), media_type: None, data: None, url: None };
    assert!(document_to_image_source(&no_data).is_none());
}

#[test]
fn claude_image_round_trips_through_data_uri() {
    let source = ImageSource { type_: "base64".to_string(), media_type: "image/webp".to_string(), data: "UklGR".to_string() };
    let ContentBlock::ImageUrl { image_url } = claude_image_to_oai(&source) else { panic!("expected a reference") };
    assert_eq!(image_url.url, "data:image/webp;base64,UklGR");
    assert_eq!(extract_image_from_data_uri(&image_url.url).unwrap(), source);
}

#[test]
fn process_image_blocks_drops_unknown_references() {
    let blocks = vec![
        ContentBlock::text("hello"),
        ContentBlock::ImageUrl { image_url: ImageUrl { url: "data:image/png;base64,AAA=".to_string() } },
        ContentBlock::ImageUrl { image_url: ImageUrl { url: "ftp://example.com/x.png".to_string() } },
        ContentBlock::RedactedThinking { data: "secret".to_string() },
    ];
    let out = process_image_blocks(blocks.clone());
    assert_eq!(out.len(), 3);
    assert_eq!(out[0], blocks[0]);
    assert_eq!(out[1], ContentBlock::image("base64", "image/png", "AAA="));
    assert_eq!(out[2], blocks[3]);
}

#[test]
fn base64_validation_and_encoding() {
    assert!(is_valid_base64("aGVsbG8="));
    assert!(!is_valid_base64("not base64!"));
    let source = bytes_to_image_source(b"hello", "text/plain");
    assert_eq!(source.data, "aGVsbG8=");
}

#[test]
fn upload_names_and_payloads() {
    assert_eq!(upload_file_name("IMAGE/PNG"), "image.png");
    assert_eq!(upload_file_name("image/jpg"), "image.jpg");
    assert_eq!(upload_file_name("application/pdf"), "document.pdf");
    assert_eq!(upload_file_name("audio/ogg"), "file");
    let img = ImageSource { type_: "base64".to_string(), media_type: "image/gif".to_string(), data: "aGk=".to_string() };
    let (bytes, name) = upload_payload(&img).unwrap();
    assert_eq!(bytes, b"hi".to_vec());
    assert_eq!(name, "image.gif");
    let url = ImageSource { type_: "url".to_string(), media_type: "image/gif".to_string(), data: "aGk=".to_string() };
    assert!(upload_payload(&url).is_none());
}
