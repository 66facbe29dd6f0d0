use retro_ide::payload::{encodable, file_data, mime_for_lowered, mime_type_for, read_binary, read_text, write_text};
use retro_ide::{FileData, FsError};

#[test]
fn the_extension_counts_in_lowercase() {
    let d = read_binary("icon.PNG", Ok(vec![1, 2, 3])).unwrap();
    assert_eq!(d.mime_type, "image/png");
    let d = read_binary("/pictures/Photo.JpEg", Ok(vec![])).unwrap();
    assert_eq!(d.mime_type, "image/jpeg");
}

#[test]
fn an_unknown_extension_is_generic_binary() {
    let d = read_binary("data.bin", Ok(vec![0])).unwrap();
    assert_eq!(d.mime_type, "application/octet-stream");
    assert_eq!(read_binary("Makefile", Ok(vec![])).unwrap().mime_type, "application/octet-stream");
    assert_eq!(read_binary(".png", Ok(vec![])).unwrap().mime_type, "application/octet-stream");
    assert_eq!(read_binary("dir.png/file", Ok(vec![])).unwrap().mime_type, "application/octet-stream");
    assert_eq!(read_binary("file.", Ok(vec![])).unwrap().mime_type, "application/octet-stream");
}

#[test]
fn only_the_last_extension_counts() {
    assert_eq!(read_binary("a.png.gif", Ok(vec![])).unwrap().mime_type, "image/gif");
    assert_eq!(read_binary("a.gif.txt", Ok(vec![])).unwrap().mime_type, "application/octet-stream");
}

#[test]
fn the_content_does_not_decide_the_media_type() {
    let png_magic = vec![0x89, b'P', b'N', b'G', 0x0d, 0x0a, 0x1a, 0x0a];
    assert_eq!(read_binary("x.txt", Ok(png_magic)).unwrap().mime_type, "application/octet-stream");
}

#[test]
fn every_known_extension_has_its_media_type() {
    assert_eq!(mime_for_lowered("png"), "image/png");
    assert_eq!(mime_for_lowered("jpg"), "image/jpeg");
    assert_eq!(mime_for_lowered("jpeg"), "image/jpeg");
    assert_eq!(mime_for_lowered("gif"), "image/gif");
    assert_eq!(mime_for_lowered("webp"), "image/webp");
    assert_eq!(mime_for_lowered("bmp"), "image/bmp");
    assert_eq!(mime_for_lowered("ico"), "image/x-icon");
    assert_eq!(mime_for_lowered("svg"), "image/svg+xml");
    assert_eq!(mime_for_lowered("PNG"), "application/octet-stream");
    assert_eq!(mime_for_lowered(""), "application/octet-stream");
    assert_eq!(mime_for_lowered("pn"), "application/octet-stream");
    assert_eq!(mime_for_lowered("pngg"), "application/octet-stream");
}

#[test]
fn mime_type_for_lowers_the_extension_first() {
    assert_eq!(mime_type_for(Some("SVG")), "image/svg+xml");
    assert_eq!(mime_type_for(Some("WebP")), "image/webp");
    assert_eq!(mime_type_for(Some("ico")), "image/x-icon");
    assert_eq!(mime_type_for(Some("tiff")), "application/octet-stream");
    assert_eq!(mime_type_for(None), "application/octet-stream");
}

#[test]
fn bytes_are_encoded_in_padded_standard_base64() {
    assert_eq!(read_binary("f", Ok(b"hello".to_vec())).unwrap().data, "aGVsbG8=");
    assert_eq!(read_binary("f", Ok(b"hi".to_vec())).unwrap().data, "aGk=");
    assert_eq!(read_binary("f", Ok(b"abc".to_vec())).unwrap().data, "YWJj");
    assert_eq!(read_binary("f", Ok(vec![])).unwrap().data, "");
    assert_eq!(read_binary("f", Ok(vec![0xfb, 0xff, 0xfe])).unwrap().data, "+//+");
    assert_eq!(read_binary("f", Ok(vec![0])).unwrap().data, "AA==");
}

#[test]
fn file_data_holds_both_parts() {
    let d = file_data(Some("GIF"), &vec![b'M', b'a', b'n']);
    assert_eq!(d, FileData { data: "TWFu".to_string(), mime_type: "image/gif".to_string() });
    let d = file_data(None, &vec![b'M']);
    assert_eq!(d, FileData { data: "TQ==".to_string(), mime_type: "application/octet-stream".to_string() });
}

#[test]
fn a_failed_read_is_an_io_error() {
    let r = read_binary("icon.png", Err("disk on fire".to_string()));
    assert_eq!(r, Err(FsError::IOError("disk on fire".to_string())));
    let r = read_text(Err("disk on fire".to_string()));
    assert_eq!(r, Err(FsError::IOError("disk on fire".to_string())));
}

#[test]
fn valid_text_is_read_as_it_is() {
    assert_eq!(read_text(Ok(b"fn main() {}\n".to_vec())), Ok("fn main() {}\n".to_string()));
    assert_eq!(read_text(Ok(vec![])), Ok(String::new()));
    assert_eq!(read_text(Ok("héllo 😀".as_bytes().to_vec())), Ok("héllo 😀".to_string()));
}

#[test]
fn bytes_that_are_no_text_fail_to_decode() {
    assert_eq!(read_text(Ok(vec![0xff, 0xfe])), Err(FsError::DecodeError));
    assert_eq!(read_text(Ok(vec![b'a', 0x80])), Err(FsError::DecodeError));
    assert_eq!(read_text(Ok(vec![0xc0, 0xaf])), Err(FsError::DecodeError));
    assert_eq!(read_text(Ok(vec![0xed, 0xa0, 0x80])), Err(FsError::DecodeError));
    assert_eq!(read_text(Ok(vec![0xe2, 0x82])), Err(FsError::DecodeError));
    assert_eq!(
        read_text(Ok(vec![0xff])).unwrap_err().message(),
        "stream did not contain valid UTF-8"
    );
}

#[test]
fn written_text_is_read_back_unchanged() {
    for text in ["", "plain", "line\nline\r\n", "tab\tand \u{0} nul", "žluťoučký kůň 🐎", "\u{10ffff}"] {
        let plan = write_text(Some(true), text);
        assert_eq!(plan.bytes, text.as_bytes());
        assert_eq!(read_text(Ok(plan.bytes)), Ok(text.to_string()));
    }
}

#[test]
fn a_missing_parent_is_created_first() {
    assert!(write_text(Some(false), "x").create_parent);
    assert!(!write_text(Some(true), "x").create_parent);
    assert!(!write_text(None, "x").create_parent);
}

#[test]
fn content_is_encodable_while_its_base64_length_fits() {
    assert!(encodable(0));
    assert!(encodable(1));
    assert!(encodable(1 << 20));
    let most = usize::MAX / 4 * 3;
    assert!(encodable(most));
    assert!(!encodable(most + 1));
    assert!(!encodable(usize::MAX));
}
