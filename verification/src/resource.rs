//! Assets and their encodings: identity, gzip and deflate.

use flate2::write::{DeflateEncoder, GzEncoder};
use flate2::Compression;
use std::io::Write;
use vstd::prelude::*;

verus! {

/// How a body is encoded on the wire.
#[derive(Clone, Copy, Debug, PartialEq, Eq, Structural)]
pub enum Encoding {
    Uncompressed,
    Gzip,
    Deflate,
}

/// Why an asset could not be handed out.
#[derive(Clone, Copy, Debug, PartialEq, Eq, Structural)]
pub enum ResourceError {
    /// The encoder failed.
    Compression,
    /// The file behind a reference could not be read.
    Unreadable,
}

/// Level at which assets are compressed when speed matters most.
pub const FAST_LEVEL: u32 = 1;

/// Level at which assets are compressed when size matters most.
pub const BEST_LEVEL: u32 = 9;

/// The error of `std::io`, which the encoders report. It is handed on and
/// never looked into.
#[verifier::external_type_specification]
#[verifier::external_body]
pub struct ExIoError(std::io::Error);

/// The gzip stream that flate2 makes of `data` at `level`; `None` where its
/// encoder reports an error.
pub uninterp spec fn gzip_stream(data: Seq<u8>, level: u32) -> Option<Seq<u8>>;

/// The raw deflate stream that flate2 makes of `data` at `level`; `None`
/// where its encoder reports an error.
pub uninterp spec fn deflate_stream(data: Seq<u8>, level: u32) -> Option<Seq<u8>>;

/// Runs `flate2::write::GzEncoder` over `data` into a fresh buffer:
/// `new`, `write_all`, `finish`. The header it writes holds no time stamp,
/// file name or system, so the stream depends on `data` and `level` alone;
/// it is named `gzip_stream`. Levels above 9 are left out: the encoder
/// asserts on them.
#[verifier::external_body]
fn gzip(data: &[u8], level: u32) -> (out: Result<Vec<u8>, std::io::Error>)
    requires
        level <= 9,
    ensures
        match out {
            Ok(stream) => gzip_stream(data@, level) == Some(stream@),
            Err(_) => gzip_stream(data@, level) is None,
        },
{
    let mut enc = GzEncoder::new(Vec::new(), Compression::new(level));
    enc.write_all(data)?;
    enc.finish()
}

/// Runs `flate2::write::DeflateEncoder` over `data` into a fresh buffer:
/// `new`, `write_all`, `finish`. The stream depends on `data` and `level`
/// alone; it is named `deflate_stream`. Levels above 9 are left out: the
/// encoder asserts on them.
#[verifier::external_body]
fn deflate(data: &[u8], level: u32) -> (out: Result<Vec<u8>, std::io::Error>)
    requires
        level <= 9,
    ensures
        match out {
            Ok(stream) => deflate_stream(data@, level) == Some(stream@),
            Err(_) => deflate_stream(data@, level) is None,
        },
{
    let mut enc = DeflateEncoder::new(Vec::new(), Compression::new(level));
    enc.write_all(data)?;
    enc.finish()
}

/// The level that goes with a choice of speed over size.
pub open spec fn level_for(fast_compression: bool) -> u32 {
    if fast_compression {
        FAST_LEVEL
    } else {
        BEST_LEVEL
    }
}

/// `data` in the given encoding; `None` where the encoder fails.
pub open spec fn encoded(data: Seq<u8>, encoding: Encoding, fast_compression: bool) -> Option<
    Seq<u8>,
> {
    match encoding {
        Encoding::Uncompressed => Some(data),
        Encoding::Deflate => deflate_stream(data, level_for(fast_compression)),
        Encoding::Gzip => gzip_stream(data, level_for(fast_compression)),
    }
}

/// Encodes `data`: unchanged for `Uncompressed`, else as a deflate or gzip
/// stream at the fastest or the best level.
pub fn compress(data: Vec<u8>, encoding: Encoding, fast_compression: bool) -> (r: Result<
    Vec<u8>,
    ResourceError,
>)
    ensures
        match r {
            Ok(out) => encoded(data@, encoding, fast_compression) == Some(out@),
            Err(e) => e == ResourceError::Compression && encoded(
                data@,
                encoding,
                fast_compression,
            ) is None,
        },
{
    let level = if fast_compression {
        FAST_LEVEL
    } else {
        BEST_LEVEL
    };
    let streamed = match encoding {
        Encoding::Uncompressed => {
            return Ok(data);
        },
        Encoding::Deflate => deflate(data.as_slice(), level),
        Encoding::Gzip => gzip(data.as_slice(), level),
    };
    match streamed {
        Ok(out) => Ok(out),
        Err(_) => Err(ResourceError::Compression),
    }
}

/// An asset with each of its encodings.
pub struct CachedResourceView {
    pub uncompressed: Seq<u8>,
    pub deflated: Seq<u8>,
    pub gzipped: Seq<u8>,
}

impl CachedResourceView {
    /// The body for `encoding`.
    pub open spec fn body(self, encoding: Encoding) -> Seq<u8> {
        match encoding {
            Encoding::Uncompressed => self.uncompressed,
            Encoding::Deflate => self.deflated,
            Encoding::Gzip => self.gzipped,
        }
    }
}

/// An asset held in memory in all three encodings.
#[derive(Debug)]
pub struct CachedResource {
    uncompressed_data: Vec<u8>,
    deflated_data: Vec<u8>,
    gzipped_data: Vec<u8>,
}

impl View for CachedResource {
    type V = CachedResourceView;

    closed spec fn view(&self) -> CachedResourceView {
        CachedResourceView {
            uncompressed: self.uncompressed_data@,
            deflated: self.deflated_data@,
            gzipped: self.gzipped_data@,
        }
    }
}

/// What caching `data` gives: its three encodings at the best level, or
/// `None` where an encoder fails.
pub open spec fn processed(data: Seq<u8>) -> Option<CachedResourceView> {
    match (deflate_stream(data, BEST_LEVEL), gzip_stream(data, BEST_LEVEL)) {
        (Some(deflated), Some(gzipped)) => Some(
            CachedResourceView { uncompressed: data, deflated, gzipped },
        ),
        _ => None,
    }
}

impl CachedResource {
    /// An asset of no bytes in every encoding: the place of one that is
    /// still being read.
    pub fn empty() -> (r: Self)
        ensures
            r@ == (CachedResourceView {
                uncompressed: Seq::empty(),
                deflated: Seq::empty(),
                gzipped: Seq::empty(),
            }),
    {
        CachedResource {
            uncompressed_data: Vec::new(),
            deflated_data: Vec::new(),
            gzipped_data: Vec::new(),
        }
    }

    /// Compresses `uncompressed_data` both ways at the best level and keeps
    /// all three encodings.
    pub fn process(uncompressed_data: Vec<u8>) -> (r: Result<CachedResource, ResourceError>)
        ensures
            match r {
                Ok(cached) => processed(uncompressed_data@) == Some(cached@),
                Err(e) => e == ResourceError::Compression && processed(uncompressed_data@) is None,
            },
    {
        let deflated_data = match deflate(uncompressed_data.as_slice(), BEST_LEVEL) {
            Ok(out) => out,
            Err(_) => {
                return Err(ResourceError::Compression);
            },
        };
        let gzipped_data = match gzip(uncompressed_data.as_slice(), BEST_LEVEL) {
            Ok(out) => out,
            Err(_) => {
                return Err(ResourceError::Compression);
            },
        };
        Ok(CachedResource { uncompressed_data, deflated_data, gzipped_data })
    }

    /// The body for `encoding`.
    pub fn body(&self, encoding: Encoding) -> (bytes: &Vec<u8>)
        ensures
            bytes@ == self@.body(encoding),
    {
        match encoding {
            Encoding::Uncompressed => &self.uncompressed_data,
            Encoding::Deflate => &self.deflated_data,
            Encoding::Gzip => &self.gzipped_data,
        }
    }
}

/// An asset: its encodings held in memory, or the path of a file that is
/// read and compressed on each request.
pub enum ResourceView {
    Cached(CachedResourceView),
    Reference(Seq<char>),
}

/// An asset as the routing table holds it.
#[derive(Debug)]
pub enum Resource {
    Cached(CachedResource),
    Reference(String),
}

impl View for Resource {
    type V = ResourceView;

    open spec fn view(&self) -> ResourceView {
        match self {
            Resource::Cached(cached) => ResourceView::Cached(cached@),
            Resource::Reference(path) => ResourceView::Reference(path@),
        }
    }
}

impl ResourceView {
    /// The body that a request for `encoding` gets. `file` is what reading
    /// the referenced file gave, `None` where it could not be read; a cached
    /// asset does not look at it.
    pub open spec fn body(self, encoding: Encoding, file: Option<Seq<u8>>) -> Result<
        Seq<u8>,
        ResourceError,
    > {
        match self {
            ResourceView::Cached(cached) => Ok(cached.body(encoding)),
            ResourceView::Reference(_) => match file {
                None => Err(ResourceError::Unreadable),
                Some(data) => match encoded(data, encoding, true) {
                    Some(out) => Ok(out),
                    None => Err(ResourceError::Compression),
                },
            },
        }
    }
}

/// The bytes of `file`, where there are any.
pub open spec fn file_view(file: Option<Vec<u8>>) -> Option<Seq<u8>> {
    match file {
        Some(data) => Some(data@),
        None => None,
    }
}

/// The bytes of `r`, where there are any.
pub open spec fn bytes_view(r: Result<Vec<u8>, ResourceError>) -> Result<Seq<u8>, ResourceError> {
    match r {
        Ok(data) => Ok(data@),
        Err(e) => Err(e),
    }
}

impl Resource {
    /// The path of the file to read, for an asset that is not cached.
    pub fn path(&self) -> (p: Option<&str>)
        ensures
            match p {
                Some(path) => self@ == ResourceView::Reference(path@),
                None => self@ is Cached,
            },
    {
        match self {
            Resource::Cached(_) => None,
            Resource::Reference(path) => Some(path.as_str()),
        }
    }

    /// The body in the encoding `enc`. A cached asset has it ready. For a
    /// referenced file the caller reads the file and hands in what it got;
    /// the contents are then compressed at the fast level.
    pub fn get_compressed(&self, enc: Encoding, file: Option<Vec<u8>>) -> (r: Result<
        Vec<u8>,
        ResourceError,
    >)
        ensures
            bytes_view(r) == self@.body(enc, file_view(file)),
    {
        match self {
            Resource::Cached(resource) => Ok(resource.body(enc).clone()),
            Resource::Reference(_) => match file {
                None => Err(ResourceError::Unreadable),
                Some(data) => compress(data, enc, true),
            },
        }
    }
}

} // verus!
