//! Zstandard frames: the compressed form in which every batch body leaves.
use vstd::prelude::*;

verus! {

/// The error of the standard I/O traits, carried through unread.
#[verifier::external_type_specification]
#[verifier::external_body]
pub struct ExIoError(std::io::Error);

/// A Zstandard compression context, carried through unread.
#[verifier::external_type_specification]
#[verifier::external_body]
pub struct ExCCtx<'a>(zstd::zstd_safe::CCtx<'a>);

/// A reusable compression context with default parameters and no dictionary.
pub struct Compressor {
    ctx: zstd::zstd_safe::CCtx<'static>,
}

/// Whether a compression context has its default parameters and no dictionary, so that what it
/// compresses can be decompressed without knowing of it.
pub uninterp spec fn context_plain(ctx: zstd::zstd_safe::CCtx<'_>) -> bool;

/// An open frame that collects its bytes in memory.
///
/// It holds a `zstd::Encoder`, whose own declaration is bound by an I/O trait.
#[verifier::external_body]
pub struct FrameEncoder<'a> {
    inner: zstd::stream::write::Encoder<'a, Vec<u8>>,
}

/// The bytes written into an open frame so far.
pub uninterp spec fn frame_input(encoder: FrameEncoder<'_>) -> Seq<u8>;

/// Whether the context of an open frame remembers an error. Once compressing has failed, the
/// context refuses to go on with the frame.
pub uninterp spec fn frame_broken(encoder: FrameEncoder<'_>) -> bool;

/// What `zstd::stream::decode_all` returns for a frame: its content, or nothing where the
/// bytes are no complete frame.
pub uninterp spec fn zstd_decoded(frame: Seq<u8>) -> Option<Seq<u8>>;

/// Calls `zstd_safe::CCtx::try_create`, which gives nothing where zstd could not allocate a
/// context. A new context has its default parameters and no dictionary. When there is memory
/// for one is left unsaid.
#[verifier::external_body]
fn context_try_create() -> (r: Option<zstd::zstd_safe::CCtx<'static>>)
    ensures
        r matches Some(ctx) ==> context_plain(ctx),
{
    zstd::zstd_safe::CCtx::try_create()
}

impl Compressor {
    /// The context is plain.
    #[verifier::type_invariant]
    pub closed spec fn plain(self) -> bool {
        context_plain(self.ctx)
    }

    /// Allocates a plain context. Whether there is memory for one is up to the machine.
    pub fn try_create() -> (r: Option<Compressor>)
        ensures
            r matches Some(compressor) ==> compressor.plain(),
    {
        match context_try_create() {
            Some(ctx) => Some(Compressor { ctx }),
            None => None,
        }
    }
}

/// Calls `zstd::Encoder::with_context`, which resets the session of the context, so that
/// nothing of an unfinished earlier frame is left, not even an error: the new frame is empty and
/// not broken. Parameters and dictionary are kept, also while the frame is written.
#[verifier::external_body]
fn encoder_with_context<'a>(compressor: &'a mut Compressor) -> (r: FrameEncoder<'a>)
    requires
        old(compressor).plain(),
    ensures
        final(compressor).plain(),
        frame_input(r) == Seq::<u8>::empty(),
        !frame_broken(r),
{
    FrameEncoder {
        inner: zstd::stream::write::Encoder::with_context(Vec::new(), &mut compressor.ctx),
    }
}

/// Calls `write_all` of `zstd::Encoder`: when it succeeds, all of `data` and nothing else has
/// been added to the frame. Without data, zstd is not even called. With data, it fails exactly
/// if the frame was broken already or compressing fails now, and then the frame stays broken.
/// When compressing fails is left unsaid, and so is how much was taken then.
#[verifier::external_body]
fn encoder_write_all(encoder: &mut FrameEncoder<'_>, data: &[u8]) -> (r: Result<
    (),
    std::io::Error,
>)
    ensures
        r is Ok ==> frame_input(*final(encoder)) == frame_input(*old(encoder)) + data@,
        r is Ok <==> data@.len() == 0 || !frame_broken(*final(encoder)),
        frame_broken(*final(encoder)) <==> frame_broken(*old(encoder)) || r is Err,
{
    std::io::Write::write_all(&mut encoder.inner, data)
}

/// Calls `zstd::Encoder::finish`: when it succeeds, the bytes it hands back are a frame that
/// decodes to exactly what was written. It fails on a broken frame. When else compressing the
/// rest fails is left unsaid, and so are the frame's own bytes.
#[verifier::external_body]
fn encoder_finish(encoder: FrameEncoder<'_>) -> (r: Result<Vec<u8>, std::io::Error>)
    ensures
        r matches Ok(frame) ==> zstd_decoded(frame@) == Some(frame_input(encoder)),
        frame_broken(encoder) ==> r is Err,
{
    encoder.inner.finish()
}

impl<'a> FrameEncoder<'a> {
    /// Opens an empty frame. Whatever an abandoned frame left in the context is discarded.
    pub fn begin(compressor: &'a mut Compressor) -> (r: Self)
        ensures
            frame_input(r) == Seq::<u8>::empty(),
            !frame_broken(r),
    {
        proof {
            use_type_invariant(&*compressor);
        }
        encoder_with_context(compressor)
    }

    /// Adds all of `data` to the frame, or fails and leaves the frame broken. Adding nothing
    /// always succeeds, and adding something to a broken frame never does.
    pub fn write_all(&mut self, data: &[u8]) -> (r: Result<(), std::io::Error>)
        ensures
            r is Ok ==> frame_input(*final(self)) == frame_input(*old(self)) + data@,
            r is Ok <==> data@.len() == 0 || !frame_broken(*final(self)),
            frame_broken(*final(self)) <==> frame_broken(*old(self)) || r is Err,
    {
        encoder_write_all(self, data)
    }

    /// Closes the frame, or fails, as it does on a broken one.
    pub fn finish(self) -> (r: Result<Vec<u8>, std::io::Error>)
        ensures
            r matches Ok(frame) ==> zstd_decoded(frame@) == Some(frame_input(self)),
            frame_broken(self) ==> r is Err,
    {
        encoder_finish(self)
    }
}

} // verus!
