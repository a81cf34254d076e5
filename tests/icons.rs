use dvd_saver::icon::{icon_source, is_supported_extension, IconSource};

#[test]
fn icon_index_selects_source() {
    assert_eq!(icon_source(0, ""), IconSource::Builtin(0));
    assert_eq!(icon_source(1, "x.png"), IconSource::Builtin(1));
    assert_eq!(icon_source(2, ""), IconSource::MissingCustomPath);
    assert_eq!(icon_source(2, "/tmp/x.png"), IconSource::Custom);
    assert_eq!(icon_source(9, "/tmp/x.png"), IconSource::Builtin(0));
}

#[test]
fn supported_extensions_ignore_case() {
    for e in ["png", "PNG", "Jpeg", "jpg", "gif", "bmp", "ico", "TIFF", "tif", "webp"] {
        assert!(is_supported_extension(e), "{}", e);
    }
    for e in ["", "txt", "pngx", "pn", "jpe", "svg"] {
        assert!(!is_supported_extension(e), "{}", e);
    }
}
