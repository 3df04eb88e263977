use gatherers::downloaders::{already_saved, content_length_of};
use gatherers::downloaders::{range_header, Downloadable, DownloaderStats, PartialRangeIter};
use gatherers::gatherers::Media;
use gatherers::paths::path_join;

fn media(file_name: &str, url: &str, paid: bool) -> Media {
    Media {
        file_name: file_name.to_string(),
        paid,
        mime_type: "image/jpeg".to_string(),
        url: url.to_string(),
        user_name: "someone".to_string(),
    }
}

#[test]
fn partial_range_iter_refuses_zero_buffer() {
    let e = PartialRangeIter::new(0, 10, 0).unwrap_err();
    assert_eq!(e.message, "invalid buffer_size, give a value greater than zero.");
}

#[test]
fn partial_range_iter_ranges_cover_download() {
    let mut it = PartialRangeIter::new(0, 24, 10).unwrap();
    assert_eq!(it.next_range(), Some((0, 9)));
    assert_eq!(it.next_range(), Some((10, 19)));
    assert_eq!(it.next_range(), Some((20, 24)));
    assert_eq!(it.next_range(), None);
    assert_eq!(it.next_range(), None);
}

#[test]
fn partial_range_iter_single_byte() {
    let mut it = PartialRangeIter::new(5, 5, 3).unwrap();
    assert_eq!(it.next_range(), Some((5, 5)));
    assert_eq!(it.next_range(), None);
}

#[test]
fn partial_range_iter_empty_when_start_after_end() {
    let mut it = PartialRangeIter::new(6, 5, 3).unwrap();
    assert_eq!(it.next_range(), None);
}

#[test]
fn partial_range_iter_headers() {
    let mut it = PartialRangeIter::new(0, 14, 10).unwrap();
    let first = it.next().unwrap();
    assert_eq!(first, b"bytes=0-9".to_vec());
    let second = it.next().unwrap();
    assert_eq!(second, b"bytes=10-14".to_vec());
    assert!(it.next().is_none());
}

#[test]
fn range_header_bytes() {
    assert_eq!(range_header(0, 9), b"bytes=0-9".to_vec());
    assert_eq!(range_header(1234, 18446744073709551615), b"bytes=1234-18446744073709551615".to_vec());
}

#[test]
fn path_join_cases() {
    assert_eq!(path_join("a", "b"), "a/b");
    assert_eq!(path_join("a/", "b"), "a/b");
    assert_eq!(path_join("", "b"), "b");
    assert_eq!(path_join("a", "/b"), "/b");
    assert_eq!(path_join("/x/y", "z.jpg"), "/x/y/z.jpg");
}

#[test]
fn downloadable_file_path() {
    let d = Downloadable::from_media_with_path(&media("f.jpg", "https://h/f", true), "/dl/fansly/u/paid".to_string());
    assert_eq!(d.file_name, "f.jpg");
    assert_eq!(d.public_url, "https://h/f");
    assert_eq!(d.base_path, "/dl/fansly/u/paid");
    assert_eq!(d.get_file_path(), "/dl/fansly/u/paid/f.jpg");
    assert_eq!(d.display_text(), "\"/dl/fansly/u/paid/f.jpg\"");
}

#[test]
fn downloader_stats_record() {
    let mut s = DownloaderStats::default();
    assert_eq!(s.total, 0);
    s.record(None);
    s.record(Some(0));
    s.record(Some(42));
    s.record(Some(7));
    assert_eq!(s.total, 4);
    assert_eq!(s.failed, 1);
    assert_eq!(s.previously_saved, 1);
    assert_eq!(s.success, 2);
    assert_eq!(s.total, s.failed + s.success + s.previously_saved);
}

#[test]
fn content_length_and_saved_files() {
    assert_eq!(content_length_of(None), Some(0));
    assert_eq!(content_length_of(Some("2048")), Some(2048));
    assert_eq!(content_length_of(Some("abc")), None);
    assert!(already_saved(2048, 2048));
    assert!(!already_saved(0, 2048));
}

#[test]
fn partial_range_iter_counts_and_sizes() {
    let mut it = PartialRangeIter::new(3, 102, 7).unwrap();
    let mut ranges = Vec::new();
    while let Some(r) = it.next_range() {
        ranges.push(r);
    }
    assert_eq!(ranges.len(), (102 - 3 + 7) / 7);
    assert_eq!(ranges[0].0, 3);
    assert_eq!(ranges.last().unwrap().1, 102);
    for w in ranges.windows(2) {
        assert_eq!(w[0].1 - w[0].0 + 1, 7);
        assert_eq!(w[1].0, w[0].1 + 1);
    }
    assert!(it.next().is_none());
    assert!(it.next_range().is_none());
}
