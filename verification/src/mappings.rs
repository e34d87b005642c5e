//! The routing table: which path is served from which file, read from
//! mapping files, and the cache of compressed assets.

use crate::resource::{processed, CachedResource, Resource, ResourceError, ResourceView};
use crate::table::Table;
use crate::text::{
    chars_of, contains, cut, ends_with, find, find_within, has_match_at, span_text, spans_text,
    split, split_spans, starts_with, text_contains, text_ends_with, text_starts_with, trim,
    trim_end, trim_end_within, trim_start, trim_start_within, trim_within, valid_span,
    valid_spans, Span,
};
use std::sync::Arc;
use vstd::prelude::*;

verus! {

/// Name of a mapping file, in the working directory and in each imported
/// directory.
pub const MAPPINGS_FILENAME: &'static str = "mappings.sb";

/// Where a path is served from, and as what.
pub struct MappingView {
    pub path: Seq<char>,
    pub content_type: Option<Seq<char>>,
}

/// Where a path is served from, and as what.
#[derive(Debug)]
pub struct Mapping {
    pub path: String,
    pub content_type: Option<String>,
}

/// The text of `s`, where there is one.
pub open spec fn text_view(s: Option<String>) -> Option<Seq<char>> {
    match s {
        Some(text) => Some(text@),
        None => None,
    }
}

impl View for Mapping {
    type V = MappingView;

    open spec fn view(&self) -> MappingView {
        MappingView { path: self.path@, content_type: text_view(self.content_type) }
    }
}

/// `path` appended to the directory `prefix`. An absolute `path` stands for
/// itself; otherwise a separator goes between the two unless `prefix` is
/// empty or ends in one.
pub open spec fn join(prefix: Seq<char>, path: Seq<char>) -> Seq<char> {
    if path.len() > 0 && path[0] == '/' {
        path
    } else if prefix.len() > 0 && prefix.last() != '/' {
        prefix + seq!['/'] + path
    } else {
        prefix + path
    }
}

/// What one line of a mapping file says.
pub enum Entry {
    /// `key => target [content type]`: serve `key` from the file `target`.
    Route { key: Seq<char>, target: Seq<char>, content_type: Option<Seq<char>> },
    /// `import directory`: read the mapping file of that directory too.
    Import { directory: Seq<char> },
    /// A blank line, a comment, or anything else.
    Nothing,
}

/// The target and the content type in the right-hand side of a route: a
/// content type stands in square brackets after the target and ends at the
/// first closing bracket, or at the end of the line.
pub open spec fn target_and_type(value: Seq<char>) -> (Seq<char>, Option<Seq<char>>) {
    match find(value, "["@) {
        Some(open) => {
            let rest = value.skip(open + 1);
            let inner = match find(rest, "]"@) {
                Some(close) => rest.take(close),
                None => rest,
            };
            (trim(value.take(open)), Some(trim(inner)))
        },
        None => (value, None),
    }
}

/// What the line `raw` says. Whitespace around the line, around `=>` and
/// around the bracketed content type does not count; a line that starts
/// with `#` is a comment.
pub open spec fn entry(raw: Seq<char>) -> Entry {
    let line = trim(raw);
    if line.len() == 0 || line[0] == '#' {
        Entry::Nothing
    } else {
        match find(line, "=>"@) {
            Some(arrow) => {
                let (target, content_type) = target_and_type(trim_start(line.skip(arrow + 2)));
                Entry::Route { key: trim_end(line.take(arrow)), target, content_type }
            },
            None => if starts_with(line, "import"@) {
                Entry::Import { directory: trim(line.skip(6)) }
            } else {
                Entry::Nothing
            },
        }
    }
}

/// The lines of a mapping file, before they are trimmed.
pub open spec fn raw_lines(data: Seq<char>) -> Seq<Seq<char>> {
    split(data, "\n"@)
}

/// One line of a mapping file, as spans of the text it was read from.
enum EntrySpans {
    Route { key: Span, target: Span, content_type: Option<Span> },
    Import { directory: Span },
    Nothing,
}

impl EntrySpans {
    spec fn valid(self, all: Seq<char>) -> bool {
        match self {
            EntrySpans::Route { key, target, content_type } => {
                &&& valid_span(all, key)
                &&& valid_span(all, target)
                &&& content_type matches Some(span) ==> valid_span(all, span)
            },
            EntrySpans::Import { directory } => valid_span(all, directory),
            EntrySpans::Nothing => true,
        }
    }

    spec fn text(self, all: Seq<char>) -> Entry {
        match self {
            EntrySpans::Route { key, target, content_type } => Entry::Route {
                key: span_text(all, key),
                target: span_text(all, target),
                content_type: match content_type {
                    Some(span) => Some(span_text(all, span)),
                    None => None,
                },
            },
            EntrySpans::Import { directory } => Entry::Import {
                directory: span_text(all, directory),
            },
            EntrySpans::Nothing => Entry::Nothing,
        }
    }
}

/// The lengths of the marks of a mapping file.
proof fn lemma_entry_words()
    ensures
        "=>"@.len() == 2,
        "["@.len() == 1,
        "]"@.len() == 1,
        "import"@.len() == 6,
        "\n"@.len() == 1,
{
    reveal_strlit("=>");
    reveal_strlit("[");
    reveal_strlit("]");
    reveal_strlit("import");
    reveal_strlit("\n");
}

/// The target and the content type in `value`, a span of `all`.
fn target_and_type_spans(all: &[char], value: Span) -> (r: (Span, Option<Span>))
    requires
        valid_span(all@, value),
    ensures
        valid_span(all@, r.0),
        r.1 matches Some(span) ==> valid_span(all@, span),
        target_and_type(span_text(all@, value)) == (
            span_text(all@, r.0),
            match r.1 {
                Some(span) => Some(span_text(all@, span)),
                None => None,
            },
        ),
{
    let open_bracket = chars_of("[");
    let close_bracket = chars_of("]");
    proof {
        lemma_entry_words();
    }
    let ghost v = span_text(all@, value);
    match find_within(all, value, open_bracket.as_slice()) {
        Some(open) => {
            let rest: Span = (open + 1, value.1);
            let inner: Span = match find_within(all, rest, close_bracket.as_slice()) {
                Some(close) => (open + 1, close),
                None => rest,
            };
            let before: Span = (value.0, open);
            proof {
                assert(span_text(all@, rest) =~= v.skip(open - value.0 + 1));
                assert(span_text(all@, before) =~= v.take(open - value.0));
                let r = span_text(all@, rest);
                match find(r, "]"@) {
                    Some(close) => {
                        assert(span_text(all@, inner) =~= r.take(close));
                    },
                    None => {},
                }
            }
            (trim_within(all, before), Some(trim_within(all, inner)))
        },
        None => (value, None),
    }
}

/// What the line `piece` of `all` says.
fn entry_spans(all: &[char], piece: Span) -> (r: EntrySpans)
    requires
        valid_span(all@, piece),
    ensures
        r.valid(all@),
        r.text(all@) == entry(span_text(all@, piece)),
{
    let line = trim_within(all, piece);
    if line.0 == line.1 || all[line.0] == '#' {
        return EntrySpans::Nothing;
    }
    let arrow_text = chars_of("=>");
    let import_text = chars_of("import");
    proof {
        lemma_entry_words();
    }
    let ghost l = span_text(all@, line);
    match find_within(all, line, arrow_text.as_slice()) {
        Some(arrow) => {
            let left: Span = (line.0, arrow);
            let right: Span = (arrow + 2, line.1);
            proof {
                assert(span_text(all@, left) =~= l.take(arrow - line.0));
                assert(span_text(all@, right) =~= l.skip(arrow - line.0 + 2));
            }
            let key = trim_end_within(all, left);
            let value = trim_start_within(all, right);
            let (target, content_type) = target_and_type_spans(all, value);
            EntrySpans::Route { key, target, content_type }
        },
        None => {
            let part = vstd::slice::slice_subrange(all, line.0, line.1);
            if has_match_at(part, import_text.as_slice(), 0) {
                let rest: Span = (line.0 + 6, line.1);
                proof {
                    assert(span_text(all@, rest) =~= l.skip(6));
                }
                EntrySpans::Import { directory: trim_within(all, rest) }
            } else {
                EntrySpans::Nothing
            }
        },
    }
}

/// `path` appended to the directory `prefix`, as `join` says.
pub fn join_path(prefix: &str, path: &str) -> (joined: String)
    ensures
        joined@ == join(prefix@, path@),
{
    let p = chars_of(path);
    if p.len() > 0 && p[0] == '/' {
        return path.to_owned();
    }
    let d = chars_of(prefix);
    let mut joined = prefix.to_owned();
    if d.len() > 0 && d[d.len() - 1] != '/' {
        proof {
            reveal_strlit("/");
        }
        joined.append("/");
    }
    joined.append(path);
    joined
}

/// The routes after the lines `lines` of a mapping file, read in the
/// directory `prefix`, were added to `routes` in order.
pub open spec fn routes_with(
    routes: Map<Seq<char>, MappingView>,
    lines: Seq<Seq<char>>,
    prefix: Seq<char>,
) -> Map<Seq<char>, MappingView>
    decreases lines.len(),
{
    if lines.len() == 0 {
        routes
    } else {
        let before = routes_with(routes, lines.drop_last(), prefix);
        match entry(lines.last()) {
            Entry::Route { key, target, content_type } => before.insert(
                key,
                MappingView { path: join(prefix, target), content_type },
            ),
            _ => before,
        }
    }
}

/// The directories that `lines` import, in order.
pub open spec fn imports_in(lines: Seq<Seq<char>>) -> Seq<Seq<char>>
    decreases lines.len(),
{
    if lines.len() == 0 {
        Seq::empty()
    } else {
        match entry(lines.last()) {
            Entry::Import { directory } => imports_in(lines.drop_last()).push(directory),
            _ => imports_in(lines.drop_last()),
        }
    }
}

/// A mapping file that another one imports.
pub struct ImportView {
    pub file: Seq<char>,
    pub prefix: Seq<char>,
}

/// A mapping file that another one imports: the file to read, and the
/// directory in which its targets are looked up.
#[derive(Debug)]
pub struct Import {
    pub file: String,
    pub prefix: String,
}

impl View for Import {
    type V = ImportView;

    open spec fn view(&self) -> ImportView {
        ImportView { file: self.file@, prefix: self.prefix@ }
    }
}

/// The import of `directory` by a mapping file that is read in `prefix`.
pub open spec fn import_of(prefix: Seq<char>, directory: Seq<char>) -> ImportView {
    ImportView {
        file: join(join(prefix, directory), MAPPINGS_FILENAME@),
        prefix: join(prefix, directory),
    }
}

/// The imports of `directories` by a mapping file that is read in `prefix`.
pub open spec fn imports_of(prefix: Seq<char>, directories: Seq<Seq<char>>) -> Seq<ImportView> {
    Seq::new(directories.len(), |i: int| import_of(prefix, directories[i]))
}

/// What each import says.
pub open spec fn import_views(imports: Seq<Import>) -> Seq<ImportView> {
    Seq::new(imports.len(), |i: int| imports[i]@)
}

/// The name under which a file found at `path` is served: `path` without a
/// leading `./`.
pub open spec fn walked_name(path: Seq<char>) -> Seq<char> {
    if starts_with(path, "./"@) {
        path.skip(2)
    } else {
        path
    }
}

/// The routes after the file at `path` was found in the served directory.
/// What lies under `.spiderbutter` is not served.
pub open spec fn routes_with_file(routes: Map<Seq<char>, MappingView>, path: Seq<char>) -> Map<
    Seq<char>,
    MappingView,
> {
    if contains(walked_name(path), ".spiderbutter"@) {
        routes
    } else {
        routes.insert(seq!['/'] + walked_name(path), MappingView { path, content_type: None })
    }
}

/// `cache` with a placeholder for each of `paths` that it did not hold.
pub open spec fn with_placeholders(cache: Map<Seq<char>, ResourceView>, paths: Seq<Seq<char>>)
    -> Map<Seq<char>, ResourceView> {
    Map::new(
        |p: Seq<char>| cache.contains_key(p) || paths.contains(p),
        |p: Seq<char>|
            if cache.contains_key(p) {
                cache[p]
            } else {
                placeholder()
            },
    )
}

/// Whether a change in the watched directory calls for reading the mapping
/// file again: the change is to a file, not a directory, and the file's name
/// ends in the name of a mapping file.
pub open spec fn mappings_changed(is_dir: bool, name: Option<Seq<char>>) -> bool {
    !is_dir && (name matches Some(n) && ends_with(n, MAPPINGS_FILENAME@))
}

/// Decides whether a change in the watched directory calls for reading the
/// mapping file again. `name` is the name of what changed, where the change
/// has one that is text.
pub fn is_mappings_event(is_dir: bool, name: Option<&str>) -> (b: bool)
    ensures
        b == mappings_changed(
            is_dir,
            match name {
                Some(n) => Some(n@),
                None => None,
            },
        ),
{
    if is_dir {
        return false;
    }
    match name {
        Some(n) => text_ends_with(n, MAPPINGS_FILENAME),
        None => false,
    }
}

/// What a routing table holds.
pub struct MappingsView {
    /// For each path that is served, where it is served from.
    pub routes: Map<Seq<char>, MappingView>,
    /// The directories that were imported, in the order in which they were named.
    pub imported: Seq<Seq<char>>,
    /// For each file that is cached, its asset.
    pub cache: Map<Seq<char>, ResourceView>,
    /// Whether assets are served from the cache or read on each request.
    pub caching_enabled: bool,
}

impl MappingsView {
    /// The asset behind the file `route`. With caching it is what the cache
    /// holds, if anything; without, a reference to the file itself.
    pub open spec fn asset(self, route: Seq<char>) -> Option<ResourceView> {
        if self.caching_enabled {
            if self.cache.contains_key(route) {
                Some(self.cache[route])
            } else {
                None
            }
        } else {
            Some(ResourceView::Reference(route))
        }
    }

    /// Whether some path is served from the file `path`.
    pub open spec fn serves(self, path: Seq<char>) -> bool {
        exists|key: Seq<char>| #[trigger]
            self.routes.contains_key(key) && self.routes[key].path == path
    }
}

/// The routing table and the cache of assets.
pub struct Mappings {
    mappings: Table<Mapping>,
    imported_mappings: Vec<String>,
    file_cache: Table<Arc<Resource>>,
    caching_enabled: bool,
}

/// The text of each string.
pub open spec fn texts(strings: Seq<String>) -> Seq<Seq<char>> {
    Seq::new(strings.len(), |i: int| strings[i]@)
}

/// The asset that stands for a file while it is being read.
pub open spec fn placeholder() -> ResourceView {
    ResourceView::Cached(
        crate::resource::CachedResourceView {
            uncompressed: Seq::empty(),
            deflated: Seq::empty(),
            gzipped: Seq::empty(),
        },
    )
}

impl View for Mappings {
    type V = MappingsView;

    closed spec fn view(&self) -> MappingsView {
        MappingsView {
            routes: self.mappings@.map_values(|m: Mapping| m@),
            imported: texts(self.imported_mappings@),
            cache: self.file_cache@.map_values(|r: Arc<Resource>| r@),
            caching_enabled: self.caching_enabled,
        }
    }
}

/// Another handle to the value behind `handle`: `Arc::clone`, which copies
/// the pointer and leaves the value where it is.
#[verifier::external_body]
pub(crate) fn share<T>(handle: &Arc<T>) -> (shared: Arc<T>)
    ensures
        shared == *handle,
{
    handle.clone()
}

impl Mappings {
    /// No path is mapped twice and no file is cached twice.
    pub closed spec fn wf(&self) -> bool {
        self.mappings.wf() && self.file_cache.wf()
    }

    /// A table without routes.
    pub fn new(caching_enabled: bool) -> (r: Self)
        ensures
            r.wf(),
            r@ == (MappingsView {
                routes: Map::empty(),
                imported: Seq::empty(),
                cache: Map::empty(),
                caching_enabled,
            }),
    {
        let r = Mappings {
            mappings: Table::new(),
            imported_mappings: Vec::new(),
            file_cache: Table::new(),
            caching_enabled,
        };
        proof {
            assert(r@.routes =~= Map::empty());
            assert(r@.cache =~= Map::empty());
            assert(r@.imported =~= Seq::empty());
        }
        r
    }

    /// Whether assets are served from the cache.
    pub fn caching_enabled(&self) -> (b: bool)
        ensures
            b == self@.caching_enabled,
    {
        self.caching_enabled
    }

    /// Where the path `key` is served from, if it is served at all.
    pub fn get_route(&self, key: &str) -> (r: Option<&Mapping>)
        ensures
            match r {
                Some(mapping) => self@.routes.contains_key(key@) && self@.routes[key@] == mapping@,
                None => !self@.routes.contains_key(key@),
            },
    {
        self.mappings.get(key)
    }

    /// The asset behind the file `route`: with caching what the cache holds
    /// for it, without caching a reference to the file.
    pub fn get_asset(&self, route: &str) -> (r: Option<Arc<Resource>>)
        ensures
            match r {
                Some(asset) => self@.asset(route@) == Some(asset@),
                None => self@.asset(route@) is None,
            },
    {
        if self.caching_enabled {
            match self.file_cache.get(route) {
                Some(asset) => Some(share(asset)),
                None => None,
            }
        } else {
            Some(Arc::new(Resource::Reference(route.to_owned())))
        }
    }

    /// Caches `asset` as the asset of the file `path`, in place of what was
    /// cached for it.
    pub fn cache_resource(&mut self, path: &str, asset: CachedResource)
        requires
            old(self).wf(),
        ensures
            final(self).wf(),
            final(self)@ == (MappingsView {
                cache: old(self)@.cache.insert(path@, ResourceView::Cached(asset@)),
                ..old(self)@
            }),
    {
        self.file_cache.insert(path.to_owned(), Arc::new(Resource::Cached(asset)));
        proof {
            assert(self@.cache =~= old(self)@.cache.insert(path@, ResourceView::Cached(asset@)));
        }
    }

    /// Caches `data` in all its encodings as the asset of the file `path`.
    /// Where compression fails nothing changes.
    pub fn store_asset(&mut self, path: &str, data: Vec<u8>) -> (r: Result<(), ResourceError>)
        requires
            old(self).wf(),
        ensures
            final(self).wf(),
            match r {
                Ok(()) => processed(data@) matches Some(cached) && final(self)@ == (MappingsView {
                    cache: old(self)@.cache.insert(path@, ResourceView::Cached(cached)),
                    ..old(self)@
                }),
                Err(e) => e == ResourceError::Compression && processed(data@) is None && final(self)@
                    == old(self)@,
            },
    {
        match CachedResource::process(data) {
            Ok(cached) => {
                self.cache_resource(path, cached);
                Ok(())
            },
            Err(e) => Err(e),
        }
    }

    /// Serves `data` at the path `key`, from the cache and without a
    /// content type. Where compression fails nothing changes.
    pub fn insert_data_mapping(&mut self, key: &str, data: Vec<u8>) -> (r: Result<
        (),
        ResourceError,
    >)
        requires
            old(self).wf(),
        ensures
            final(self).wf(),
            match r {
                Ok(()) => processed(data@) matches Some(cached) && final(self)@ == (MappingsView {
                    routes: old(self)@.routes.insert(
                        key@,
                        MappingView { path: key@, content_type: None },
                    ),
                    cache: old(self)@.cache.insert(key@, ResourceView::Cached(cached)),
                    ..old(self)@
                }),
                Err(e) => e == ResourceError::Compression && processed(data@) is None && final(self)@ == old(self)@,
            },
    {
        match self.store_asset(key, data) {
            Ok(()) => {
                let mapping = Mapping { path: key.to_owned(), content_type: None };
                self.mappings.insert(key.to_owned(), mapping);
                proof {
                    assert(self@.routes =~= old(self)@.routes.insert(
                        key@,
                        MappingView { path: key@, content_type: None },
                    ));
                }
                Ok(())
            },
            Err(e) => Err(e),
        }
    }

    /// Reads the lines of a mapping file. `prefix` is the directory in which
    /// the file's targets are looked up. Routes are added in order, a later
    /// one for the same path replacing an earlier one. The directories that
    /// the file imports are recorded, and returned as the files that the
    /// caller is to read next, each with its own prefix.
    pub fn load_from(&mut self, data: &str, prefix: &str) -> (imports: Vec<Import>)
        requires
            old(self).wf(),
        ensures
            final(self).wf(),
            final(self)@ == (MappingsView {
                routes: routes_with(old(self)@.routes, raw_lines(data@), prefix@),
                imported: old(self)@.imported + imports_in(raw_lines(data@)),
                ..old(self)@
            }),
            import_views(imports@) == imports_of(prefix@, imports_in(raw_lines(data@))),
    {
        let chars = chars_of(data);
        let all = chars.as_slice();
        let newline = chars_of("\n");
        proof {
            lemma_entry_words();
        }
        let pieces = split_spans(all, newline.as_slice());
        let ghost lines = raw_lines(data@);
        let mut imports: Vec<Import> = Vec::new();
        let mut k: usize = 0;
        while k < pieces.len()
            invariant
                k <= pieces.len(),
                all@ == data@,
                lines == raw_lines(data@),
                valid_spans(all@, pieces@),
                spans_text(all@, pieces@) == lines,
                self.wf(),
                self@.routes == routes_with(old(self)@.routes, lines.take(k as int), prefix@),
                self@.imported == old(self)@.imported + imports_in(lines.take(k as int)),
                self@.cache == old(self)@.cache,
                self@.caching_enabled == old(self)@.caching_enabled,
                import_views(imports@) == imports_of(prefix@, imports_in(lines.take(k as int))),
            decreases pieces.len() - k,
        {
            let piece = pieces[k];
            let ghost routes_before = self@.routes;
            let ghost imported_before = self@.imported;
            let ghost imports_before = import_views(imports@);
            proof {
                assert(lines.take(k + 1).drop_last() =~= lines.take(k as int));
            }
            match entry_spans(all, piece) {
                EntrySpans::Route { key, target, content_type } => {
                    let path = join_path(prefix, cut(data, target));
                    let content_type = match content_type {
                        Some(span) => Some(cut(data, span).to_owned()),
                        None => None,
                    };
                    let mapping = Mapping { path, content_type };
                    self.mappings.insert(cut(data, key).to_owned(), mapping);
                    proof {
                        assert(self@.routes =~= routes_before.insert(
                            span_text(all@, key),
                            mapping@,
                        ));
                    }
                },
                EntrySpans::Import { directory } => {
                    let name = cut(data, directory);
                    let import_prefix = join_path(prefix, name);
                    let file = join_path(import_prefix.as_str(), MAPPINGS_FILENAME);
                    self.imported_mappings.push(name.to_owned());
                    let import = Import { file, prefix: import_prefix };
                    imports.push(import);
                    proof {
                        assert(self@.imported =~= imported_before.push(name@));
                        assert(import_views(imports@) =~= imports_before.push(
                            import_of(prefix@, name@),
                        ));
                    }
                },
                EntrySpans::Nothing => {},
            }
            k = k + 1;
        }
        proof {
            assert(lines.take(k as int) =~= lines);
        }
        imports
    }

    /// Serves the file found at `path` in the served directory under its own
    /// name, without a content type. What lies under `.spiderbutter` is
    /// left out.
    pub fn insert_file_mapping(&mut self, path: &str)
        requires
            old(self).wf(),
        ensures
            final(self).wf(),
            final(self)@ == (MappingsView {
                routes: routes_with_file(old(self)@.routes, path@),
                ..old(self)@
            }),
    {
        let all = chars_of(path);
        proof {
            reveal_strlit("./");
            reveal_strlit("/");
            assert("/"@ =~= seq!['/']);
        }
        let start: usize = if text_starts_with(path, "./") {
            2
        } else {
            0
        };
        let name = cut(path, (start, all.len()));
        assert(name@ =~= walked_name(path@));
        if text_contains(name, ".spiderbutter") {
            return ;
        }
        let mut key = "/".to_owned();
        key.append(name);
        let mapping = Mapping { path: path.to_owned(), content_type: None };
        self.mappings.insert(key, mapping);
        proof {
            assert(self@.routes =~= old(self)@.routes.insert(
                seq!['/'] + walked_name(path@),
                MappingView { path: path@, content_type: None },
            ));
        }
    }

    /// The files that the routes are served from, one for each path in the
    /// order in which the paths were first mapped.
    closed spec fn route_paths(&self) -> Seq<Seq<char>> {
        Seq::new(self.mappings.values().len(), |i: int| self.mappings.values()[i].path@)
    }

    /// A file stands among the route paths exactly if some path is served
    /// from it.
    proof fn lemma_route_paths(&self, path: Seq<char>)
        requires
            self.wf(),
        ensures
            self@.serves(path) <==> self.route_paths().contains(path),
    {
        let routes = self@.routes;
        if self@.serves(path) {
            let key = choose|key: Seq<char>| #[trigger]
                routes.contains_key(key) && routes[key].path == path;
            let i = self.mappings.lemma_key(key);
            assert(self.route_paths()[i] == path);
        }
        if self.route_paths().contains(path) {
            let i = choose|i: int|
                0 <= i < self.route_paths().len() && self.route_paths()[i] == path;
            self.mappings.lemma_entry(i);
            assert(routes.contains_key(self.mappings.keys()[i]));
        }
    }

    /// Makes room in the cache for every served file that is not cached yet,
    /// and returns those files, each once. Each gets an empty asset as a
    /// placeholder, so that no file is asked for twice; the caller reads the
    /// files and hands what it could read to `store_asset`.
    pub fn process_mapped_assets(&mut self) -> (pending: Vec<String>)
        requires
            old(self).wf(),
        ensures
            final(self).wf(),
            texts(pending@).no_duplicates(),
            forall|path: Seq<char>| #[trigger]
                texts(pending@).contains(path) <==> (old(self)@.serves(path) && !old(
                    self,
                )@.cache.contains_key(path)),
            final(self)@ == (MappingsView {
                cache: with_placeholders(old(self)@.cache, texts(pending@)),
                ..old(self)@
            }),
    {
        let ghost paths = self.route_paths();
        let ghost cache = self@.cache;
        let mut pending: Vec<String> = Vec::new();
        let n = self.mappings.len();
        let mut i: usize = 0;
        while i < n
            invariant
                i <= n,
                n == paths.len(),
                paths == old(self).route_paths(),
                paths == self.route_paths(),
                self.mappings == old(self).mappings,
                self.imported_mappings == old(self).imported_mappings,
                self.caching_enabled == old(self).caching_enabled,
                cache == old(self)@.cache,
                self.wf(),
                texts(pending@).no_duplicates(),
                forall|path: Seq<char>| #[trigger]
                    texts(pending@).contains(path) <==> (paths.take(i as int).contains(path)
                        && !cache.contains_key(path)),
                self@.cache == with_placeholders(cache, texts(pending@)),
            decreases n - i,
        {
            let path = &self.mappings.value_at(i).path;
            let ghost before = texts(pending@);
            let ghost cache_before = self@.cache;
            proof {
                assert(paths.take(i + 1) =~= paths.take(i as int).push(path@));
                lemma_contains_push(paths.take(i as int), path@);
            }
            if !self.file_cache.contains_key(path.as_str()) {
                proof {
                    assert(!cache_before.contains_key(path@));
                }
                let asset = Arc::new(Resource::Cached(CachedResource::empty()));
                self.file_cache.insert(path.clone(), asset);
                pending.push(path.clone());
                proof {
                    assert(self@.cache =~= cache_before.insert(path@, placeholder()));
                    assert(texts(pending@) =~= before.push(path@));
                    lemma_contains_push(before, path@);
                    assert forall|p: Seq<char>| #[trigger]
                        texts(pending@).contains(p) <==> (paths.take(i + 1).contains(p)
                            && !cache.contains_key(p)) by {
                        assert(before.contains(p) <==> (paths.take(i as int).contains(p)
                            && !cache.contains_key(p)));
                    }
                }
            } else {
                proof {
                    assert(cache_before.contains_key(path@));
                    assert forall|p: Seq<char>| #[trigger]
                        texts(pending@).contains(p) <==> (paths.take(i + 1).contains(p)
                            && !cache.contains_key(p)) by {
                        assert(before.contains(p) <==> (paths.take(i as int).contains(p)
                            && !cache.contains_key(p)));
                        assert(before.contains(path@) <==> (paths.take(i as int).contains(path@)
                            && !cache.contains_key(path@)));
                    }
                }
            }
            i = i + 1;
        }
        proof {
            assert(paths.take(n as int) =~= paths);
            assert forall|path: Seq<char>| #[trigger]
                texts(pending@).contains(path) <==> (old(self)@.serves(path)
                    && !cache.contains_key(path)) by {
                old(self).lemma_route_paths(path);
                assert(texts(pending@).contains(path) <==> (paths.contains(path)
                    && !cache.contains_key(path)));
            }
        }
        pending
    }
}

/// What a sequence contains after one more element went to its end.
proof fn lemma_contains_push(s: Seq<Seq<char>>, added: Seq<char>)
    ensures
        forall|p: Seq<char>| #[trigger] s.push(added).contains(p) <==> (s.contains(p) || p == added),
        s.no_duplicates() && !s.contains(added) ==> s.push(added).no_duplicates(),
{
    let longer = s.push(added);
    assert forall|p: Seq<char>| #[trigger] longer.contains(p) <==> (s.contains(p) || p == added) by {
        if s.contains(p) {
            let j = choose|j: int| 0 <= j < s.len() && s[j] == p;
            assert(longer[j] == p);
        }
        if p == added {
            assert(longer[s.len() as int] == p);
        }
        if longer.contains(p) {
            let j = choose|j: int| 0 <= j < longer.len() && longer[j] == p;
            assert(j < s.len() ==> s[j] == p);
        }
    }
}

} // verus!
