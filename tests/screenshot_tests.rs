use browser_core::screenshot::{
    data_url, file_name, ScreenshotFormat, ScreenshotManager, ScreenshotOptions, ScreenshotResult,
};

fn shot(data: Vec<u8>, format: ScreenshotFormat) -> ScreenshotResult {
    ScreenshotResult { data, format, width: 1920, height: 1080, captured_at: 1_700_000_000 }
}

#[test]
fn base64_of_captured_bytes() {
    assert_eq!(shot(b"Hello".to_vec(), ScreenshotFormat::Png).to_base64(), "SGVsbG8=");
    assert_eq!(shot(vec![], ScreenshotFormat::Png).to_base64(), "");
    assert_eq!(shot(vec![0xff, 0xfe, 0xfd], ScreenshotFormat::Png).to_base64(), "//79");
}

#[test]
fn data_url_carries_mime_type_and_base64() {
    assert_eq!(
        shot(b"Hi".to_vec(), ScreenshotFormat::Jpeg).to_data_url(),
        "data:image/jpeg;base64,SGk="
    );
    assert_eq!(data_url(ScreenshotFormat::WebP, "AAAA"), "data:image/webp;base64,AAAA");
}

#[test]
fn screenshot_file_names() {
    assert_eq!(file_name("shot", "20240101_120000", ScreenshotFormat::Jpeg), "shot_20240101_120000.jpg");
    let m = ScreenshotManager::new(std::path::PathBuf::from("/tmp/shots"));
    let p = m.generate_filename("page", ScreenshotFormat::WebP);
    assert_eq!(p.parent(), Some(std::path::Path::new("/tmp/shots")));
    let name = p.file_name().unwrap().to_str().unwrap().to_string();
    assert!(name.starts_with("page_"));
    assert!(name.ends_with(".webp"));
    assert_eq!(name.len(), "page_".len() + 15 + ".webp".len());
}

#[test]
fn screenshot_options_default() {
    let o = ScreenshotOptions::default();
    assert_eq!(o.format, ScreenshotFormat::Png);
    assert_eq!(o.quality, 90);
    assert!(!o.full_page);
    assert!(o.clip.is_none());
    assert!(!o.omit_background);
}
