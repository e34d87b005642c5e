use spiderbutter::mappings::{is_mappings_event, join_path, Mappings, MAPPINGS_FILENAME};
use spiderbutter::resource::{Encoding, Resource};
use std::path::PathBuf;

fn std_join(prefix: &str, path: &str) -> String {
    let joined: PathBuf = [prefix, path].iter().collect();
    joined.to_str().unwrap().to_owned()
}

#[test]
fn join_path_agrees_with_std() {
    for prefix in ["", "a", "a/", "/", "/a/b", "a//", "."] {
        for path in ["", "b", "b/c", "/b", "./b", "mappings.sb"] {
            assert_eq!(join_path(prefix, path), std_join(prefix, path), "{:?} {:?}", prefix, path);
        }
    }
}

#[test]
fn load_from_reads_routes_with_and_without_content_type() {
    let mut m = Mappings::new(false);
    let imports = m.load_from(
        "# comment\n\n/index.html => ./public/index.html [text/html]\r\n  /a=>b  \n/c =>  d [ x/y \n/e => f [g] trailing\nnonsense\n",
        "",
    );
    assert!(imports.is_empty());
    let r = m.get_route("/index.html").unwrap();
    assert_eq!(r.path, "./public/index.html");
    assert_eq!(r.content_type.as_deref(), Some("text/html"));
    let r = m.get_route("/a").unwrap();
    assert_eq!(r.path, "b");
    assert_eq!(r.content_type, None);
    let r = m.get_route("/c").unwrap();
    assert_eq!(r.path, "d");
    assert_eq!(r.content_type.as_deref(), Some("x/y"));
    let r = m.get_route("/e").unwrap();
    assert_eq!(r.path, "f");
    assert_eq!(r.content_type.as_deref(), Some("g"));
    assert!(m.get_route("nonsense").is_none());
    assert!(m.get_route("# comment").is_none());
}

#[test]
fn load_from_joins_targets_to_the_prefix() {
    let mut m = Mappings::new(false);
    m.load_from("/a => b/c\n/d => /abs\n", "sub/dir");
    assert_eq!(m.get_route("/a").unwrap().path, "sub/dir/b/c");
    assert_eq!(m.get_route("/d").unwrap().path, "/abs");
}

#[test]
fn load_from_lets_a_later_route_replace_an_earlier_one() {
    let mut m = Mappings::new(false);
    m.load_from("/a => one\n/a => two [t]\n", "");
    assert_eq!(m.get_route("/a").unwrap().path, "two");
    m.load_from("/a => three\n", "");
    let r = m.get_route("/a").unwrap();
    assert_eq!(r.path, "three");
    assert_eq!(r.content_type, None);
}

#[test]
fn load_from_returns_the_files_to_import() {
    let mut m = Mappings::new(false);
    let imports = m.load_from("import blog\n/a => b\nimport  docs/api  \nimportx\n", "site");
    assert_eq!(imports.len(), 3);
    assert_eq!(imports[0].prefix, "site/blog");
    assert_eq!(imports[0].file, format!("site/blog/{}", MAPPINGS_FILENAME));
    assert_eq!(imports[1].prefix, "site/docs/api");
    assert_eq!(imports[1].file, "site/docs/api/mappings.sb");
    assert_eq!(imports[2].prefix, "site/x");
    assert_eq!(m.get_route("/a").unwrap().path, "site/b");
}

#[test]
fn file_mappings_are_named_after_the_file() {
    let mut m = Mappings::new(false);
    m.insert_file_mapping("./css/site.css");
    m.insert_file_mapping("index.html");
    m.insert_file_mapping("./.spiderbutter/private_key.pem");
    let r = m.get_route("/css/site.css").unwrap();
    assert_eq!(r.path, "./css/site.css");
    assert_eq!(r.content_type, None);
    assert_eq!(m.get_route("/index.html").unwrap().path, "index.html");
    assert!(m.get_route("/.spiderbutter/private_key.pem").is_none());
}

#[test]
fn without_caching_every_file_is_a_reference() {
    let m = Mappings::new(false);
    assert!(!m.caching_enabled());
    let asset = m.get_asset("any/file").unwrap();
    assert_eq!(asset.path(), Some("any/file"));
}

#[test]
fn with_caching_only_cached_files_are_assets() {
    let mut m = Mappings::new(true);
    assert!(m.caching_enabled());
    assert!(m.get_asset("a").is_none());
    m.store_asset("a", b"contents".to_vec()).unwrap();
    let asset = m.get_asset("a").unwrap();
    assert!(matches!(&*asset, Resource::Cached(_)));
    assert_eq!(asset.get_compressed(Encoding::Uncompressed, None), Ok(b"contents".to_vec()));
    m.store_asset("a", b"newer".to_vec()).unwrap();
    let asset = m.get_asset("a").unwrap();
    assert_eq!(asset.get_compressed(Encoding::Uncompressed, None), Ok(b"newer".to_vec()));
}

#[test]
fn data_mappings_are_served_under_their_key() {
    let mut m = Mappings::new(true);
    m.insert_data_mapping("/token", b"secret".to_vec()).unwrap();
    let r = m.get_route("/token").unwrap();
    assert_eq!(r.path, "/token");
    assert_eq!(r.content_type, None);
    let asset = m.get_asset("/token").unwrap();
    assert_eq!(asset.get_compressed(Encoding::Uncompressed, None), Ok(b"secret".to_vec()));
}

#[test]
fn pending_assets_are_each_served_file_once() {
    let mut m = Mappings::new(true);
    m.load_from("/a => x\n/b => y\n/c => x\n/d => z\n", "");
    m.store_asset("y", b"have".to_vec()).unwrap();
    let mut pending = m.process_mapped_assets();
    pending.sort();
    assert_eq!(pending, vec!["x".to_owned(), "z".to_owned()]);
    let placeholder = m.get_asset("x").unwrap();
    assert_eq!(placeholder.get_compressed(Encoding::Gzip, None), Ok(Vec::new()));
    let kept = m.get_asset("y").unwrap();
    assert_eq!(kept.get_compressed(Encoding::Uncompressed, None), Ok(b"have".to_vec()));
    assert!(m.process_mapped_assets().is_empty());
}

#[test]
fn mapping_file_changes_are_told_from_others() {
    assert!(is_mappings_event(false, Some("mappings.sb")));
    assert!(is_mappings_event(false, Some(".mappings.sb")));
    assert!(!is_mappings_event(true, Some("mappings.sb")));
    assert!(!is_mappings_event(false, Some("mappings.sb~")));
    assert!(!is_mappings_event(false, Some("index.html")));
    assert!(!is_mappings_event(false, None));
}
