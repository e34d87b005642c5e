use flate2::read::{DeflateDecoder, GzDecoder};
use spiderbutter::resource::{compress, CachedResource, Encoding, Resource, ResourceError};
use std::io::Read;

fn gunzip(bytes: &[u8]) -> Vec<u8> {
    let mut out = Vec::new();
    GzDecoder::new(bytes).read_to_end(&mut out).unwrap();
    out
}

fn inflate(bytes: &[u8]) -> Vec<u8> {
    let mut out = Vec::new();
    DeflateDecoder::new(bytes).read_to_end(&mut out).unwrap();
    out
}

fn sample() -> Vec<u8> {
    b"<html><body>hello hello hello hello hello hello hello hello</body></html>".to_vec()
}

#[test]
fn compress_leaves_uncompressed_data_alone() {
    assert_eq!(compress(sample(), Encoding::Uncompressed, false), Ok(sample()));
    assert_eq!(compress(Vec::new(), Encoding::Uncompressed, true), Ok(Vec::new()));
}

#[test]
fn compress_gzip_round_trips() {
    for fast in [false, true] {
        let out = compress(sample(), Encoding::Gzip, fast).unwrap();
        assert_ne!(out, sample());
        assert_eq!(&out[..3], &[0x1f, 0x8b, 8]);
        assert_eq!(gunzip(&out), sample());
    }
    let empty = compress(Vec::new(), Encoding::Gzip, false).unwrap();
    assert!(!empty.is_empty());
    assert_eq!(gunzip(&empty), Vec::<u8>::new());
}

#[test]
fn compress_deflate_round_trips() {
    for fast in [false, true] {
        let out = compress(sample(), Encoding::Deflate, fast).unwrap();
        assert_ne!(out, sample());
        assert_eq!(inflate(&out), sample());
    }
}

#[test]
fn compress_is_a_function_of_its_input() {
    let a = compress(sample(), Encoding::Gzip, false).unwrap();
    let b = compress(sample(), Encoding::Gzip, false).unwrap();
    assert_eq!(a, b);
    let a = compress(sample(), Encoding::Deflate, true).unwrap();
    let b = compress(sample(), Encoding::Deflate, true).unwrap();
    assert_eq!(a, b);
}

#[test]
fn empty_resource_is_empty_in_every_encoding() {
    let r = CachedResource::empty();
    assert!(r.body(Encoding::Uncompressed).is_empty());
    assert!(r.body(Encoding::Gzip).is_empty());
    assert!(r.body(Encoding::Deflate).is_empty());
}

#[test]
fn processed_resource_holds_all_three_encodings() {
    let r = CachedResource::process(sample()).unwrap();
    assert_eq!(r.body(Encoding::Uncompressed), &sample());
    assert_eq!(gunzip(r.body(Encoding::Gzip)), sample());
    assert_eq!(inflate(r.body(Encoding::Deflate)), sample());
    assert_eq!(r.body(Encoding::Gzip), &compress(sample(), Encoding::Gzip, false).unwrap());
    assert_eq!(r.body(Encoding::Deflate), &compress(sample(), Encoding::Deflate, false).unwrap());
}

#[test]
fn cached_resource_answers_from_memory() {
    let r = Resource::Cached(CachedResource::process(sample()).unwrap());
    assert_eq!(r.path(), None);
    assert_eq!(r.get_compressed(Encoding::Uncompressed, None), Ok(sample()));
    let other = Some(b"ignored".to_vec());
    assert_eq!(gunzip(&r.get_compressed(Encoding::Gzip, other).unwrap()), sample());
}

#[test]
fn referenced_resource_compresses_what_was_read() {
    let r = Resource::Reference("public/index.html".to_owned());
    assert_eq!(r.path(), Some("public/index.html"));
    assert_eq!(r.get_compressed(Encoding::Uncompressed, Some(sample())), Ok(sample()));
    let gz = r.get_compressed(Encoding::Gzip, Some(sample())).unwrap();
    assert_eq!(gz, compress(sample(), Encoding::Gzip, true).unwrap());
    assert_eq!(gunzip(&gz), sample());
    let df = r.get_compressed(Encoding::Deflate, Some(sample())).unwrap();
    assert_eq!(inflate(&df), sample());
}

#[test]
fn referenced_resource_without_file_is_unreadable() {
    let r = Resource::Reference("missing".to_owned());
    assert_eq!(r.get_compressed(Encoding::Gzip, None), Err(ResourceError::Unreadable));
}
