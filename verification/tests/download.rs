use rustray::download::{ACGDownloader, ACGQuality};
use std::path::PathBuf;

#[test]
fn acg_archive_names() {
    let dl = ACGDownloader::new(PathBuf::from("textures/download"), ACGQuality::PNG_1K);
    assert_eq!(dl.filename("Bricks001"), "Bricks001_1K-PNG.zip");
    assert_eq!(
        dl.fullname("Bricks001"),
        PathBuf::from("textures/download/Bricks001_1K-PNG.zip")
    );
    assert_eq!(
        dl.download_url("Bricks001"),
        "https://ambientcg.com/get?file=Bricks001_1K-PNG.zip"
    );
}

#[test]
fn acg_quality_labels() {
    assert_eq!(ACGQuality::PNG_1K.to_string(), "1K-PNG");
    assert_eq!(ACGQuality::PNG_2K.to_string(), "2K-PNG");
    assert_eq!(ACGQuality::PNG_4K.to_string(), "4K-PNG");
    let dl = ACGDownloader::new(PathBuf::from("/tmp"), ACGQuality::PNG_4K);
    assert_eq!(dl.fullname("x"), PathBuf::from("/tmp/x_4K-PNG.zip"));
}
