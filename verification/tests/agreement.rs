use spiderbutter::fileserver::negotiate_encoding;
use spiderbutter::http::Request;
use spiderbutter::mappings::Mappings;
use spiderbutter::resource::Encoding;
use std::collections::HashMap;
use std::path::{Path, PathBuf};

/// A small generator of texts that are made of the given pieces.
struct Texts {
    state: u64,
}

impl Texts {
    fn next(&mut self) -> u64 {
        self.state = self.state.wrapping_mul(6364136223846793005).wrapping_add(1442695040888963407);
        self.state >> 33
    }

    fn text(&mut self, pieces: &[&str], most: u64) -> String {
        let count = self.next() % (most + 1);
        let mut out = String::new();
        for _ in 0..count {
            out.push_str(pieces[(self.next() % pieces.len() as u64) as usize]);
        }
        out
    }
}

fn request_with_std(data: &str) -> Option<(String, HashMap<String, String>)> {
    let head = data.split("\r\n\r\n").next().unwrap();
    let mut lines = head.split_terminator("\r\n");
    let mut words = lines.next().unwrap_or("").split_whitespace();
    if words.next().unwrap_or("") != "GET" {
        return None;
    }
    let uri = words.next().unwrap_or("");
    let version = words.next().unwrap_or("");
    if version != "HTTP/1.0" && version != "HTTP/1.1" {
        return None;
    }
    let mut fields = HashMap::new();
    for line in lines {
        let mut parts = line.splitn(2, ":").map(|s| s.trim());
        let key = parts.next().unwrap();
        if let Some(value) = parts.next() {
            fields.insert(key.to_owned(), value.to_owned());
        }
    }
    Some((uri.to_owned(), fields))
}

#[test]
fn requests_are_read_as_std_reads_them() {
    let pieces = [
        "GET", "GET ", " ", "\t", "\r\n", "\r", "\n", "\r\n\r\n", ":", "/", "/a", "HTTP/1.1",
        " HTTP/1.0", "HTTP/1.2", "Host", "Accept-Encoding", "gzip", "x", "\u{a0}", "\u{e9}",
        "POST",
    ];
    let mut texts = Texts { state: 7 };
    let mut served = 0;
    for _ in 0..20000 {
        let mut data = texts.text(&pieces, 14);
        if texts.next() % 2 == 0 {
            data = format!("GET /p HTTP/1.1\r\n{}", data);
        }
        let want = request_with_std(&data);
        match Request::parse(&data) {
            Ok(request) => {
                let (uri, fields) = want.expect(&data);
                assert_eq!(request.uri(), uri, "{:?}", data);
                for (key, value) in &fields {
                    assert_eq!(request.get(key), Some(value.as_str()), "{:?} {:?}", data, key);
                }
                for key in ["Host", "Accept-Encoding", "x", "", "GET"] {
                    assert_eq!(request.get(key), fields.get(key).map(String::as_str), "{:?}", data);
                }
                served += 1;
            }
            Err(_) => assert!(want.is_none(), "{:?}", data),
        }
    }
    assert!(served > 1000);
}

fn encoding_with_std(header: Option<&str>) -> Encoding {
    let mut ranks: Vec<u32> = header
        .map(|s| {
            s.split_terminator(',')
                .map(str::trim)
                .filter_map(|name| match name {
                    "deflate" => Some(2),
                    "gzip" => Some(1),
                    _ => None,
                })
                .collect()
        })
        .unwrap_or(Vec::new());
    ranks.sort_unstable();
    match ranks.first() {
        Some(1) => Encoding::Gzip,
        Some(_) => Encoding::Deflate,
        None => Encoding::Uncompressed,
    }
}

#[test]
fn encodings_are_chosen_as_by_rank() {
    let pieces = ["gzip", "deflate", ",", " ", "br", ";q=0.5", "\t", "identity", ",,", "x"];
    let mut texts = Texts { state: 11 };
    let mut seen = [0; 3];
    for _ in 0..20000 {
        let header = texts.text(&pieces, 8);
        let got = negotiate_encoding(Some(&header));
        assert_eq!(got, encoding_with_std(Some(&header)), "{:?}", header);
        seen[match got {
            Encoding::Gzip => 0,
            Encoding::Deflate => 1,
            Encoding::Uncompressed => 2,
        }] += 1;
    }
    assert!(seen.iter().all(|&n| n > 100), "{:?}", seen);
}

struct FileWithStd {
    routes: HashMap<String, (PathBuf, Option<String>)>,
    imports: Vec<PathBuf>,
}

fn mapping_file_with_std(data: &str, prefix: &Path) -> FileWithStd {
    let mut read = FileWithStd { routes: HashMap::new(), imports: Vec::new() };
    let lines = data.lines().map(|s| s.trim()).filter(|s| !s.is_empty() && !s.starts_with('#'));
    for mapping in lines {
        let partition = match mapping.find("=>") {
            Some(at) => at,
            None => {
                if mapping.starts_with("import") {
                    let directory = Path::new(mapping[6..].trim());
                    read.imports.push([prefix, directory].iter().collect());
                }
                continue;
            }
        };
        let (key, value) = mapping.split_at(partition);
        let (key, value) = (key.trim_end(), value[2..].trim_start());
        let (value, content_type) = if let Some(pos) = value.find('[') {
            let (value, type_start) = value.split_at(pos);
            let content_type = type_start[1..].split(']').next().unwrap();
            (value.trim(), Some(content_type.trim().to_owned()))
        } else {
            (value, None)
        };
        let path = [prefix, Path::new(value)].iter().collect();
        read.routes.insert(key.to_owned(), (path, content_type));
    }
    read
}

#[test]
fn mapping_files_are_read_as_std_reads_them() {
    let pieces = [
        "=>", "=", ">", " ", "\t", "\n", "\r\n", "\r", "#", "[", "]", "import", "import ", "/a",
        "/b", "c", "./d", "text/html", "\u{a0}", "\u{e9}",
    ];
    let mut texts = Texts { state: 3 };
    let mut routes = 0;
    let mut imports = 0;
    for round in 0..20000 {
        let data = texts.text(&pieces, 16);
        let prefix = ["", "site", "site/", "/root"][round % 4];
        let want = mapping_file_with_std(&data, Path::new(prefix));
        let mut table = Mappings::new(false);
        let got = table.load_from(&data, prefix);
        for (key, (path, content_type)) in &want.routes {
            let route = table.get_route(key).expect(&data);
            assert_eq!(Path::new(&route.path), path.as_path(), "{:?} {:?}", data, key);
            assert_eq!(route.path, path.to_str().unwrap(), "{:?} {:?}", data, key);
            assert_eq!(&route.content_type, content_type, "{:?} {:?}", data, key);
            routes += 1;
        }
        for key in ["/a", "/b", "c", "", "import", "/a /b"] {
            assert_eq!(table.get_route(key).is_some(), want.routes.contains_key(key), "{:?}", data);
        }
        assert_eq!(got.len(), want.imports.len(), "{:?}", data);
        for (import, directory) in got.iter().zip(&want.imports) {
            assert_eq!(import.prefix, directory.to_str().unwrap(), "{:?}", data);
            assert_eq!(Path::new(&import.file), directory.join("mappings.sb"), "{:?}", data);
            imports += 1;
        }
    }
    assert!(routes > 1000);
    assert!(imports > 100);
}
