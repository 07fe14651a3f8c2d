use vstd::prelude::*;

verus! {

/// The codec id of blocks stored without compression.
pub const NONE_CODEC_ID: u8 = 0;

/// The codec id of zlib-wrapped DEFLATE blocks.
pub const ZLIB_CODEC_ID: u8 = 2;

/// The codec id of raw DEFLATE blocks, the store's default.
pub const RAW_DEFLATE_CODEC_ID: u8 = 4;

/// What `compress_to_vec_zlib` makes of a block at a level.
pub uninterp spec fn zlib_encoded(block: Seq<u8>, level: u8) -> Seq<u8>;

/// What `compress_to_vec` makes of a block at a level.
pub uninterp spec fn deflate_encoded(block: Seq<u8>, level: u8) -> Seq<u8>;

/// What `decompress_to_vec_zlib` recovers from a stream, or `None` where it fails.
pub uninterp spec fn zlib_decoded(stream: Seq<u8>) -> Option<Seq<u8>>;

/// What `decompress_to_vec` recovers from a stream, or `None` where it fails.
pub uninterp spec fn deflate_decoded(stream: Seq<u8>) -> Option<Seq<u8>>;

/// Relies on miniz_oxide's CompressionLevel::DefaultLevel, which is 6.
#[verifier::external_body]
fn default_level() -> (r: u8)
    ensures
        r == 6,
{
    miniz_oxide::deflate::CompressionLevel::DefaultLevel as u8
}

/// Relies on miniz_oxide::deflate::compress_to_vec_zlib, for levels 0 to 10: the stream it
/// makes is one that decompress_to_vec_zlib inflates back to the block, as the crate's own
/// round-trip tests check.
#[verifier::external_body]
fn zlib_compress(block: &[u8], level: u8) -> (r: Vec<u8>)
    requires
        level <= 10,
    ensures
        r@ == zlib_encoded(block@, level),
        zlib_decoded(r@) == Some(block@),
{
    miniz_oxide::deflate::compress_to_vec_zlib(block, level)
}

/// Relies on miniz_oxide::deflate::compress_to_vec, for levels 0 to 10: the stream it makes is
/// one that decompress_to_vec inflates back to the block, as the crate's own round-trip tests
/// check.
#[verifier::external_body]
fn deflate_compress(block: &[u8], level: u8) -> (r: Vec<u8>)
    requires
        level <= 10,
    ensures
        r@ == deflate_encoded(block@, level),
        deflate_decoded(r@) == Some(block@),
{
    miniz_oxide::deflate::compress_to_vec(block, level)
}

/// Relies on miniz_oxide::inflate::decompress_to_vec_zlib; the error is its description.
#[verifier::external_body]
fn zlib_decompress(stream: &[u8]) -> (r: Result<Vec<u8>, String>)
    ensures
        match r {
            Ok(v) => zlib_decoded(stream@) == Some(v@),
            Err(_) => zlib_decoded(stream@) is None,
        },
{
    miniz_oxide::inflate::decompress_to_vec_zlib(stream).map_err(|e| e.to_string())
}

/// Relies on miniz_oxide::inflate::decompress_to_vec; the error is its description.
#[verifier::external_body]
fn deflate_decompress(stream: &[u8]) -> (r: Result<Vec<u8>, String>)
    ensures
        match r {
            Ok(v) => deflate_decoded(stream@) == Some(v@),
            Err(_) => deflate_decoded(stream@) is None,
        },
{
    miniz_oxide::inflate::decompress_to_vec(stream).map_err(|e| e.to_string())
}

/// Zlib-wrapped DEFLATE at a fixed compression level.
pub struct ZlibCompressor(u8);

impl ZlibCompressor {
    #[verifier::type_invariant]
    spec fn level_in_range(self) -> bool {
        self.0 <= 10
    }

    pub closed spec fn level(self) -> u8 {
        self.0
    }

    pub fn new(level: u8) -> (r: Self)
        requires
            level <= 10,
        ensures
            r.level() == level,
    {
        ZlibCompressor(level)
    }

    pub fn encode(&self, block: Vec<u8>) -> (r: Vec<u8>)
        ensures
            r@ == zlib_encoded(block@, self.level()),
            zlib_decoded(r@) == Some(block@),
    {
        proof {
            use_type_invariant(self);
        }
        zlib_compress(block.as_slice(), self.0)
    }

    /// Fails exactly where the block is no valid zlib stream.
    pub fn decode(&self, block: Vec<u8>) -> (r: Result<Vec<u8>, String>)
        ensures
            match r {
                Ok(v) => zlib_decoded(block@) == Some(v@),
                Err(_) => zlib_decoded(block@) is None,
            },
    {
        zlib_decompress(block.as_slice())
    }
}

/// DEFLATE without the zlib header and trailer, at a fixed compression level.
pub struct RawZlibCompressor(u8);

impl RawZlibCompressor {
    #[verifier::type_invariant]
    spec fn level_in_range(self) -> bool {
        self.0 <= 10
    }

    pub closed spec fn level(self) -> u8 {
        self.0
    }

    pub fn new(level: u8) -> (r: Self)
        requires
            level <= 10,
        ensures
            r.level() == level,
    {
        RawZlibCompressor(level)
    }

    pub fn encode(&self, block: Vec<u8>) -> (r: Vec<u8>)
        ensures
            r@ == deflate_encoded(block@, self.level()),
            deflate_decoded(r@) == Some(block@),
    {
        proof {
            use_type_invariant(self);
        }
        deflate_compress(block.as_slice(), self.0)
    }

    /// Fails exactly where the block is no valid raw DEFLATE stream.
    pub fn decode(&self, block: Vec<u8>) -> (r: Result<Vec<u8>, String>)
        ensures
            match r {
                Ok(v) => deflate_decoded(block@) == Some(v@),
                Err(_) => deflate_decoded(block@) is None,
            },
    {
        deflate_decompress(block.as_slice())
    }
}

/// A block codec of the registry.
pub enum Codec {
    Identity,
    Zlib(ZlibCompressor),
    RawDeflate(RawZlibCompressor),
}

/// What a codec makes of a block.
pub open spec fn encoded_by(c: Codec, block: Seq<u8>) -> Seq<u8> {
    match c {
        Codec::Identity => block,
        Codec::Zlib(z) => zlib_encoded(block, z.level()),
        Codec::RawDeflate(d) => deflate_encoded(block, d.level()),
    }
}

/// What a codec recovers from a stored block, or `None` where it fails.
pub open spec fn decoded_by(c: Codec, stream: Seq<u8>) -> Option<Seq<u8>> {
    match c {
        Codec::Identity => Some(stream),
        Codec::Zlib(_) => zlib_decoded(stream),
        Codec::RawDeflate(_) => deflate_decoded(stream),
    }
}

/// Whether `c` is what the registry holds under `id`: the three codecs under their ids, both
/// compressing ones at the default level, and nothing under any other id.
pub open spec fn registry_entry(id: u8, c: Option<Codec>) -> bool {
    match c {
        Some(Codec::Identity) => id == NONE_CODEC_ID,
        Some(Codec::Zlib(z)) => id == ZLIB_CODEC_ID && z.level() == 6,
        Some(Codec::RawDeflate(d)) => id == RAW_DEFLATE_CODEC_ID && d.level() == 6,
        None => id != NONE_CODEC_ID && id != ZLIB_CODEC_ID && id != RAW_DEFLATE_CODEC_ID,
    }
}

impl Codec {
    /// The stored form of a block; whatever the codec, decoding it gives the block back, the
    /// empty block included.
    pub fn encode(&self, block: Vec<u8>) -> (r: Vec<u8>)
        ensures
            r@ == encoded_by(*self, block@),
            decoded_by(*self, r@) == Some(block@),
    {
        match self {
            Codec::Identity => block,
            Codec::Zlib(z) => z.encode(block),
            Codec::RawDeflate(d) => d.encode(block),
        }
    }

    pub fn decode(&self, block: Vec<u8>) -> (r: Result<Vec<u8>, String>)
        ensures
            match r {
                Ok(v) => decoded_by(*self, block@) == Some(v@),
                Err(_) => decoded_by(*self, block@) is None,
            },
    {
        match self {
            Codec::Identity => Ok(block),
            Codec::Zlib(z) => z.decode(block),
            Codec::RawDeflate(d) => d.decode(block),
        }
    }
}

/// The codec registered under `id`; ids outside the registry have none, so that a block
/// tagged with one fails rather than falls back to another codec.
pub fn codec_for_id(id: u8) -> (r: Option<Codec>)
    ensures
        registry_entry(id, r),
{
    let level = default_level();
    if id == NONE_CODEC_ID {
        Some(Codec::Identity)
    } else if id == ZLIB_CODEC_ID {
        Some(Codec::Zlib(ZlibCompressor::new(level)))
    } else if id == RAW_DEFLATE_CODEC_ID {
        Some(Codec::RawDeflate(RawZlibCompressor::new(level)))
    } else {
        None
    }
}

/// The ids of the registry, in increasing order.
pub fn registry_ids() -> (r: Vec<u8>)
    ensures
        r@ == seq![NONE_CODEC_ID, ZLIB_CODEC_ID, RAW_DEFLATE_CODEC_ID],
        forall|id: u8|
            r@.contains(id) <==> (id == NONE_CODEC_ID || id == ZLIB_CODEC_ID || id
                == RAW_DEFLATE_CODEC_ID),
{
    let r = vec![NONE_CODEC_ID, ZLIB_CODEC_ID, RAW_DEFLATE_CODEC_ID];
    assert(r@[0] == NONE_CODEC_ID && r@[1] == ZLIB_CODEC_ID && r@[2] == RAW_DEFLATE_CODEC_ID);
    r
}

} // verus!
