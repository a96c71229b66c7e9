use gtakeout::errors::ProcessError;
use gtakeout::media::{classify_media, get_base_media_path, is_video_file, MediaClass};

#[test]
fn test_get_base_media_path() {
    let json_path = "/test/IMG-20161219-WA0000.jpg.supplemental-metadata.json";
    let result = get_base_media_path(json_path).unwrap();
    assert_eq!(result, String::from("/test/IMG-20161219-WA0000.jpg"));
}

#[test]
fn test_is_video_file() {
    assert!(is_video_file("video.mp4"));
    assert!(is_video_file("video.MOV"));
    assert!(is_video_file("video.m4v"));
    assert!(is_video_file("video.avi"));
    assert!(is_video_file("video.mkv"));
    assert!(is_video_file("video.webm"));
    assert!(is_video_file("/path/to/video.MP4"));

    assert!(!is_video_file("image.jpg"));
    assert!(!is_video_file("image.png"));
    assert!(!is_video_file("image.jpeg"));
    assert!(!is_video_file("document.pdf"));
    assert!(!is_video_file("noextension"));
}

#[test]
fn resolve_round_trip_concrete() {
    let media = "/archive/clip.mp4";
    let sidecar = format!("{}{}", media, ".supplemental-metadata.json");
    let resolved = get_base_media_path(&sidecar).unwrap();
    assert_eq!(resolved, String::from(media));
    let reappended = format!("{}{}", resolved, ".supplemental-metadata.json");
    assert_eq!(reappended, sidecar);
}

#[test]
fn resolve_rejects_other_names() {
    assert_eq!(
        get_base_media_path("/test/IMG_0001.jpg"),
        Err(ProcessError::InvalidSidecarName)
    );
    assert_eq!(
        get_base_media_path("/test/IMG_0001.jpg.json"),
        Err(ProcessError::InvalidSidecarName)
    );
    assert_eq!(get_base_media_path(""), Err(ProcessError::InvalidSidecarName));
    // The suffix alone is a sidecar name for an empty media path.
    assert_eq!(
        get_base_media_path(".supplemental-metadata.json"),
        Ok(String::new())
    );
}

#[test]
fn classification_cases() {
    assert_eq!(classify_media("video.MOV"), MediaClass::Video);
    assert_eq!(classify_media("video.mp4"), MediaClass::Video);
    assert_eq!(classify_media("clip.m4v"), MediaClass::Video);
    assert_eq!(classify_media("clip.3gp"), MediaClass::Video);
    assert_eq!(classify_media("clip.WMV"), MediaClass::Video);
    assert_eq!(classify_media("clip.FLV"), MediaClass::Video);
    assert_eq!(classify_media("image.jpg"), MediaClass::Image);
    assert_eq!(classify_media("doc.pdf"), MediaClass::Image);
    assert_eq!(classify_media("noext"), MediaClass::Image);
    // A leading dot alone is no extension.
    assert_eq!(classify_media(".mp4"), MediaClass::Image);
    assert_eq!(classify_media("dir/.mp4"), MediaClass::Image);
    // Only the final component's extension counts.
    assert_eq!(classify_media("movie.mp4/readme.txt"), MediaClass::Image);
    assert_eq!(classify_media("a.b.mkv"), MediaClass::Video);
}
