use droid_devkit::encoding::{
    decode_base64_text, encode_base64_text, image_info, remove_text, validate_base64_image,
};

#[test]
fn encodes_text_as_padded_base64() {
    assert_eq!(encode_base64_text("hello".to_string()), Ok("aGVsbG8=".to_string()));
    assert_eq!(encode_base64_text(String::new()), Ok(String::new()));
    assert_eq!(encode_base64_text("é".to_string()), Ok("w6k=".to_string()));
}

#[test]
fn decodes_base64_text() {
    assert_eq!(decode_base64_text("aGVsbG8=".to_string()), Ok("hello".to_string()));
    assert_eq!(decode_base64_text("w6k=".to_string()), Ok("é".to_string()));
    assert_eq!(
        decode_base64_text("not base64!".to_string()),
        Err("解码失败：无效的Base64格式".to_string())
    );
    assert_eq!(
        decode_base64_text("/w==".to_string()),
        Err("解码失败：无效的UTF-8序列".to_string())
    );
}

#[test]
fn validates_image_data_urls() {
    assert_eq!(validate_base64_image("data:image/png;base64,aGVsbG8=".to_string()), Ok(true));
    assert_eq!(validate_base64_image("data:image/png;base64,aGVsbG8=,extra".to_string()), Ok(true));
    assert_eq!(validate_base64_image("data:text/plain;base64,aGVsbG8=".to_string()), Ok(false));
    assert_eq!(validate_base64_image("data:image/png;base64".to_string()), Ok(false));
    assert_eq!(validate_base64_image("data:image/png;base64,@@@".to_string()), Ok(false));
}

#[test]
fn image_info_reads_type_and_size() {
    let info = image_info("data:image/png;base64,aGVsbG8=").unwrap();
    assert_eq!(info.mime_type, "image/png");
    assert_eq!(info.size, 5);
    assert_eq!(image_info("text").err(), Some("无效的图片数据格式".to_string()));
    assert_eq!(
        image_info("data:image/gif;base64").err(),
        Some("无效的Base64数据格式".to_string())
    );
    assert_eq!(
        image_info("data:image/gif;base64,%%").err(),
        Some("无法解码图片数据".to_string())
    );
}

#[test]
fn remove_text_matches_replace() {
    let cases = [("a--b--", "--"), ("data:data:x", "data:"), ("aaa", "aa"), ("", "x"), ("xyz", "q")];
    for (s, p) in cases {
        assert_eq!(remove_text(s, p), s.replace(p, ""), "{:?} less {:?}", s, p);
    }
}
