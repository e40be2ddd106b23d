//! The client side of the DASH sidecar protocol: how a session is configured,
//! how requests and responses are framed on the wire, and which frames are
//! accepted.
//!
//! A request is a little-endian `u32` length followed by that many bytes of
//! JSON. A response is a little-endian `u32` length, that many bytes of JSON
//! metadata, a little-endian `u64` length and that many payload bytes. A frame's
//! payload holds `gaussian_count` records of `stride` bytes each.
use crate::bytes::{
    le_bytes, le_u64, le_uint, lemma_le_roundtrip, lemma_le_uint_bound, lemma_pow256_small, push_le,
};
use crate::text::{
    copy_range, parse_i32, parse_i32_spec, range_starts_with, starts_with, str_chars, trim,
    trim_range,
};
use vstd::prelude::*;
use vstd::slice::slice_to_vec;
use vstd::string::StringSliceAdditionalSpecFns;

verus! {

/// Size in bytes of one packed Gaussian record exchanged with the sidecar:
/// position (3 floats), opacity, scale (3 floats), a padding word, rotation
/// (4 floats) and 48 spherical-harmonics coefficients.
pub const GAUSSIAN3D_STRIDE: usize = 240;

/// Largest response metadata, in bytes, that the client accepts.
pub const MAX_META_LEN: u32 = 1_000_000;

/// How to launch and address a DASH sidecar. The three paths are held as the
/// bytes the operating system names them by, so any path can be held.
#[derive(Debug, Clone)]
pub struct DashSessionConfig {
    pub model_dir: Vec<u8>,
    pub dash_root: Vec<u8>,
    pub sidecar_script: Vec<u8>,
    pub python: String,
    pub iteration: i32,
    pub mask_mode: String,
    /// Expected per-Gaussian stride; checked against the sidecar's report.
    pub expected_stride: usize,
}

impl DashSessionConfig {
    /// Explicit paths, given as text, with `python3`, the latest iteration
    /// (`-1`), the `ply_dynamic` mask mode and the 240-byte stride.
    pub fn new(model_dir: &str, dash_root: &str, sidecar_script: &str) -> (c: Self)
        ensures
            c.model_dir@ == model_dir.spec_bytes(),
            c.dash_root@ == dash_root.spec_bytes(),
            c.sidecar_script@ == sidecar_script.spec_bytes(),
            c.python@ == "python3"@,
            c.iteration == -1,
            c.mask_mode@ == "ply_dynamic"@,
            c.expected_stride == GAUSSIAN3D_STRIDE,
    {
        Self::from_path_bytes(model_dir.as_bytes(), dash_root.as_bytes(), sidecar_script.as_bytes())
    }

    /// Explicit paths, given as the bytes the operating system names them by,
    /// with the same defaults as [`DashSessionConfig::new`].
    pub fn from_path_bytes(model_dir: &[u8], dash_root: &[u8], sidecar_script: &[u8]) -> (c: Self)
        ensures
            c.model_dir@ == model_dir@,
            c.dash_root@ == dash_root@,
            c.sidecar_script@ == sidecar_script@,
            c.python@ == "python3"@,
            c.iteration == -1,
            c.mask_mode@ == "ply_dynamic"@,
            c.expected_stride == GAUSSIAN3D_STRIDE,
    {
        DashSessionConfig {
            model_dir: slice_to_vec(model_dir),
            dash_root: slice_to_vec(dash_root),
            sidecar_script: slice_to_vec(sidecar_script),
            python: "python3".to_owned(),
            iteration: -1,
            mask_mode: "ply_dynamic".to_owned(),
            expected_stride: GAUSSIAN3D_STRIDE,
        }
    }
}

/// Why a configuration could not be built from the environment.
#[derive(Debug, Clone, Copy, PartialEq, Eq)]
pub enum ConfigError {
    /// `DASH_ROOT` is not set.
    MissingDashRoot,
    /// `DASH_SIDECAR_SCRIPT` is not set and the current directory is unknown.
    NoCurrentDir,
    /// `DASH_ITERATION` is not an `i32`.
    InvalidIteration,
}

impl DashSessionConfig {
    /// The configuration the environment describes. `dash_root`, `python`,
    /// `iteration` and `mask_mode` are the values of `DASH_ROOT`,
    /// `DASH_PYTHON`, `DASH_ITERATION` and `DASH_MASK_MODE`; `sidecar_script`
    /// is `DASH_SIDECAR_SCRIPT`, or when that is unset `sidecar/dash_sidecar.py`
    /// under the current directory, and `None` when neither is known.
    /// `DASH_ROOT` is required, then the script; the Python defaults to
    /// `python3`, the iteration to -1 and the mask mode to `ply_dynamic`.
    pub fn from_env_values(
        model_dir: &[u8],
        dash_root: Option<Vec<u8>>,
        python: Option<String>,
        sidecar_script: Option<Vec<u8>>,
        iteration: Option<String>,
        mask_mode: Option<String>,
    ) -> (r: Result<Self, ConfigError>)
        ensures
            match r {
                Ok(c) => {
                    &&& dash_root matches Some(d) && c.dash_root@ == d@
                    &&& sidecar_script matches Some(p) && c.sidecar_script@ == p@
                    &&& c.model_dir@ == model_dir@
                    &&& c.python@ == (match python {
                        Some(p) => p@,
                        None => "python3"@,
                    })
                    &&& c.iteration == (match iteration {
                        Some(t) => parse_i32_spec(t@)->Some_0,
                        None => -1i32,
                    })
                    &&& (iteration matches Some(t) ==> parse_i32_spec(t@) is Some)
                    &&& c.mask_mode@ == (match mask_mode {
                        Some(m) => m@,
                        None => "ply_dynamic"@,
                    })
                    &&& c.expected_stride == GAUSSIAN3D_STRIDE
                },
                Err(e) => if dash_root is None {
                    e == ConfigError::MissingDashRoot
                } else if sidecar_script is None {
                    e == ConfigError::NoCurrentDir
                } else {
                    &&& e == ConfigError::InvalidIteration
                    &&& iteration matches Some(t) && parse_i32_spec(t@) is None
                },
            },
    {
        let dash_root = match dash_root {
            Some(d) => d,
            None => {
                return Err(ConfigError::MissingDashRoot);
            },
        };
        let python = match python {
            Some(p) => p,
            None => "python3".to_owned(),
        };
        let sidecar_script = match sidecar_script {
            Some(p) => p,
            None => {
                return Err(ConfigError::NoCurrentDir);
            },
        };
        let iteration: i32 = match &iteration {
            Some(t) => {
                let c = str_chars(t.as_str());
                let n: usize = c.len();
                assert(c@.subrange(0, n as int) =~= t@);
                match parse_i32(&c, 0, n) {
                    Some(v) => v,
                    None => {
                        return Err(ConfigError::InvalidIteration);
                    },
                }
            },
            None => -1,
        };
        let mask_mode = match mask_mode {
            Some(m) => m,
            None => "ply_dynamic".to_owned(),
        };
        Ok(
            DashSessionConfig {
                model_dir: slice_to_vec(model_dir),
                dash_root,
                sidecar_script,
                python,
                iteration,
                mask_mode,
                expected_stride: GAUSSIAN3D_STRIDE,
            },
        )
    }
}

/// One decoded frame: raw packed bytes plus their shape.
#[derive(Debug, Clone)]
pub struct DashFrame {
    pub gaussian_count: usize,
    pub stride: usize,
    pub bytes: Vec<u8>,
}

/// The metadata of a sidecar response.
#[derive(Debug, Clone, Default)]
pub struct ResponseMeta {
    pub ok: bool,
    pub error: Option<String>,
    pub gaussian_count: Option<usize>,
    pub stride: Option<usize>,
    pub byte_len: Option<usize>,
}

/// Why a frame's shape was refused.
#[derive(Debug, Clone, Copy, PartialEq, Eq)]
pub enum FrameError {
    /// The frame's stride is not the session's.
    StrideMismatch { stride: usize, session_stride: usize },
    /// `count * stride` does not fit in `usize`.
    ByteLengthOverflow,
    /// The declared or received byte length is not `count * stride`.
    SizeMismatch { byte_len: usize, payload_len: usize, expected: usize },
    /// The Gaussian count is not the session's.
    CountChanged { session_count: usize, count: usize },
}

/// Why the client refused what the sidecar said.
#[derive(Debug, Clone, PartialEq, Eq)]
pub enum DashError {
    /// The sidecar answered `ok: false`, with this message.
    Sidecar(String),
    /// The `info` response has no `gaussian_count`.
    InfoMissingGaussianCount,
    /// The `info` response has no `stride`.
    InfoMissingStride,
    /// The sidecar's stride is not the configured one.
    StrideMismatch { sidecar: usize, expected: usize },
    /// A `frame` response has no `gaussian_count`.
    FrameMissingGaussianCount,
    /// A `frame` response has no `stride`.
    FrameMissingStride,
    /// A frame's shape is wrong.
    Frame(FrameError),
    /// A request body longer than `u32::MAX` bytes.
    RequestTooLarge,
    /// Response metadata longer than [`MAX_META_LEN`] bytes.
    MetadataTooLarge(u32),
}

/// The frame-shape check: the first failing condition is the error.
pub open spec fn validate_frame_spec(
    count: usize,
    stride: usize,
    byte_len: usize,
    payload_len: usize,
    session_stride: usize,
    session_count: usize,
) -> Result<(), FrameError> {
    if stride != session_stride {
        Err(FrameError::StrideMismatch { stride, session_stride })
    } else if count * stride > usize::MAX {
        Err(FrameError::ByteLengthOverflow)
    } else if byte_len != count * stride || payload_len != count * stride {
        Err(
            FrameError::SizeMismatch {
                byte_len,
                payload_len,
                expected: (count * stride) as usize,
            },
        )
    } else if count != session_count {
        Err(FrameError::CountChanged { session_count, count })
    } else {
        Ok(())
    }
}

/// Checks a frame's shape against the session (see [`validate_frame_spec`]).
pub fn validate_frame(
    count: usize,
    stride: usize,
    byte_len: usize,
    payload_len: usize,
    session_stride: usize,
    session_count: usize,
) -> (r: Result<(), FrameError>)
    ensures
        r == validate_frame_spec(count, stride, byte_len, payload_len, session_stride, session_count),
        r is Ok <==> stride == session_stride && count == session_count && count * stride <= usize::MAX
            && byte_len == count * stride && payload_len == count * stride,
{
    if stride != session_stride {
        return Err(FrameError::StrideMismatch { stride, session_stride });
    }
    let expected = match count.checked_mul(stride) {
        Some(e) => e,
        None => {
            return Err(FrameError::ByteLengthOverflow);
        },
    };
    if byte_len != expected || payload_len != expected {
        return Err(FrameError::SizeMismatch { byte_len, payload_len, expected });
    }
    if count != session_count {
        return Err(FrameError::CountChanged { session_count, count });
    }
    Ok(())
}

/// The message of a refused response: the sidecar's, or `unknown error`.
pub open spec fn error_message(meta: ResponseMeta) -> Seq<char> {
    match meta.error {
        Some(m) => m@,
        None => "unknown error"@,
    }
}

/// Accepts a response the sidecar marked `ok`; refuses any other with its message.
pub fn check_response(meta: &ResponseMeta) -> (r: Result<(), DashError>)
    ensures
        r is Ok <==> meta.ok,
        r matches Err(e) ==> e matches DashError::Sidecar(m) && m@ == error_message(*meta),
{
    if !meta.ok {
        let msg = match &meta.error {
            Some(m) => m.clone(),
            None => "unknown error".to_owned(),
        };
        return Err(DashError::Sidecar(msg));
    }
    Ok(())
}

/// The session's shape from the `info` response: its Gaussian count and
/// stride, which must be the configured one.
pub fn info_shape(meta: &ResponseMeta, expected_stride: usize) -> (r: Result<(usize, usize), DashError>)
    ensures
        match r {
            Ok((count, stride)) => meta.gaussian_count == Some(count) && meta.stride == Some(stride)
                && stride == expected_stride,
            Err(e) => match (meta.gaussian_count, meta.stride) {
                (None, _) => e == DashError::InfoMissingGaussianCount,
                (Some(_), None) => e == DashError::InfoMissingStride,
                (Some(_), Some(s)) => s != expected_stride && e == DashError::StrideMismatch {
                    sidecar: s,
                    expected: expected_stride,
                },
            },
        },
{
    let count = match meta.gaussian_count {
        Some(c) => c,
        None => {
            return Err(DashError::InfoMissingGaussianCount);
        },
    };
    let stride = match meta.stride {
        Some(s) => s,
        None => {
            return Err(DashError::InfoMissingStride);
        },
    };
    if stride != expected_stride {
        return Err(DashError::StrideMismatch { sidecar: stride, expected: expected_stride });
    }
    Ok((count, stride))
}

/// The frame a `frame` response carries, checked against the session: the
/// declared byte length defaults to the payload's.
pub fn frame_from_response(
    meta: &ResponseMeta,
    payload: Vec<u8>,
    session_stride: usize,
    session_count: usize,
) -> (r: Result<DashFrame, DashError>)
    ensures
        match r {
            Ok(f) => {
                &&& meta.gaussian_count == Some(f.gaussian_count)
                &&& meta.stride == Some(f.stride)
                &&& f.bytes@ == payload@
                &&& f.gaussian_count == session_count
                &&& f.stride == session_stride
                &&& f.bytes@.len() == f.gaussian_count * f.stride
                &&& (meta.byte_len matches Some(n) ==> n == payload@.len())
            },
            Err(e) => match (meta.gaussian_count, meta.stride) {
                (None, _) => e == DashError::FrameMissingGaussianCount,
                (Some(_), None) => e == DashError::FrameMissingStride,
                (Some(c), Some(s)) => {
                    let byte_len = match meta.byte_len {
                        Some(n) => n,
                        None => payload@.len() as usize,
                    };
                    validate_frame_spec(c, s, byte_len, payload@.len() as usize, session_stride, session_count)
                        == Err::<(), FrameError>(e->Frame_0) && e is Frame
                },
            },
        },
{
    let count = match meta.gaussian_count {
        Some(c) => c,
        None => {
            return Err(DashError::FrameMissingGaussianCount);
        },
    };
    let stride = match meta.stride {
        Some(s) => s,
        None => {
            return Err(DashError::FrameMissingStride);
        },
    };
    let payload_len: usize = payload.len();
    let byte_len: usize = match meta.byte_len {
        Some(n) => n,
        None => payload_len,
    };
    match validate_frame(count, stride, byte_len, payload_len, session_stride, session_count) {
        Ok(()) => {},
        Err(e) => {
            return Err(DashError::Frame(e));
        },
    }
    Ok(DashFrame { gaussian_count: count, stride, bytes: payload })
}

/// Appends a request to `out`: the body's length as a little-endian `u32`,
/// then the body. A body longer than `u32::MAX` bytes is refused and nothing
/// is written.
pub fn write_request(out: &mut Vec<u8>, body: &[u8]) -> (r: Result<(), DashError>)
    ensures
        match r {
            Ok(()) => body@.len() <= u32::MAX && final(out)@ == old(out)@ + le_bytes(
                body@.len(),
                4,
            ) + body@,
            Err(e) => body@.len() > u32::MAX && e == DashError::RequestTooLarge && final(out)@ == old(
                out,
            )@,
        },
{
    let n: usize = body.len();
    if n > 0xffff_ffff {
        return Err(DashError::RequestTooLarge);
    }
    push_le(out, n as u64, 4);
    let ghost prefixed = out@;
    let mut i: usize = 0;
    while i < n
        invariant
            n == body@.len(),
            i <= n,
            out@ == prefixed + body@.take(i as int),
        decreases n - i,
    {
        out.push(body[i]);
        i = i + 1;
        assert(out@ =~= prefixed + body@.take(i as int));
    }
    assert(body@.take(n as int) =~= body@);
    Ok(())
}

/// A little-endian `u32`.
pub fn read_u32(b: &[u8; 4]) -> (r: u32)
    ensures
        r == le_uint(b@),
{
    proof {
        lemma_le_uint_bound(b@);
        lemma_pow256_small();
    }
    le_u64(b.as_slice()) as u32
}

/// A little-endian `u64`.
pub fn read_u64(b: &[u8; 8]) -> (r: u64)
    ensures
        r == le_uint(b@),
{
    le_u64(b.as_slice())
}

/// The metadata length of a response, refused above [`MAX_META_LEN`].
pub fn response_meta_len(meta_len: u32) -> (r: Result<usize, DashError>)
    ensures
        match r {
            Ok(n) => meta_len <= MAX_META_LEN && n == meta_len,
            Err(e) => meta_len > MAX_META_LEN && e == DashError::MetadataTooLarge(meta_len),
        },
{
    if meta_len > MAX_META_LEN {
        return Err(DashError::MetadataTooLarge(meta_len));
    }
    Ok(meta_len as usize)
}

/// Where the reading of a response stands, as values.
pub ghost enum ReadView {
    MetaLen,
    Meta(nat),
    PayloadLen(Seq<u8>),
    Payload(Seq<u8>, nat),
    Done(Seq<u8>, Seq<u8>),
}

/// How many bytes a response read takes next.
pub open spec fn wanted_spec(s: ReadView) -> nat {
    match s {
        ReadView::MetaLen => 4,
        ReadView::Meta(n) => n,
        ReadView::PayloadLen(_) => 8,
        ReadView::Payload(_, n) => n,
        ReadView::Done(_, _) => 0,
    }
}

/// One read of a response: the metadata length, refused above
/// [`MAX_META_LEN`]; the metadata; the payload length, taken as a `usize`,
/// after which an empty payload is not read; the payload.
pub open spec fn read_step(s: ReadView, b: Seq<u8>) -> Result<ReadView, DashError> {
    match s {
        ReadView::MetaLen => {
            let n = le_uint(b);
            if n <= MAX_META_LEN {
                Ok(ReadView::Meta(n))
            } else {
                Err(DashError::MetadataTooLarge(n as u32))
            }
        },
        ReadView::Meta(_) => Ok(ReadView::PayloadLen(b)),
        ReadView::PayloadLen(m) => {
            let n = ((le_uint(b) as u64) as usize) as nat;
            if n == 0 {
                Ok(ReadView::Done(m, seq![]))
            } else {
                Ok(ReadView::Payload(m, n))
            }
        },
        ReadView::Payload(m, _) => Ok(ReadView::Done(m, b)),
        ReadView::Done(_, _) => Ok(s),
    }
}

/// Where the reading of a response from the sidecar stands. A response is a
/// little-endian `u32` metadata length, that much JSON metadata, a
/// little-endian `u64` payload length and that many payload bytes; the reader
/// says how many bytes it takes next and is fed exactly those.
#[derive(Debug, Clone, PartialEq, Eq)]
pub enum ResponseRead {
    /// Next: the metadata length.
    MetaLen,
    /// Next: `len` bytes of JSON metadata.
    Meta { len: usize },
    /// The metadata is read; next: the payload length.
    PayloadLen { meta: Vec<u8> },
    /// Next: `len` payload bytes.
    Payload { meta: Vec<u8>, len: usize },
    /// The whole response.
    Done { meta: Vec<u8>, payload: Vec<u8> },
}

impl ResponseRead {
    /// The values the reader holds.
    pub open spec fn view_of(self) -> ReadView {
        match self {
            ResponseRead::MetaLen => ReadView::MetaLen,
            ResponseRead::Meta { len } => ReadView::Meta(len as nat),
            ResponseRead::PayloadLen { meta } => ReadView::PayloadLen(meta@),
            ResponseRead::Payload { meta, len } => ReadView::Payload(meta@, len as nat),
            ResponseRead::Done { meta, payload } => ReadView::Done(meta@, payload@),
        }
    }

    /// A response not read yet.
    pub fn new() -> (r: Self)
        ensures
            r.view_of() == ReadView::MetaLen,
    {
        ResponseRead::MetaLen
    }

    /// How many bytes to read next; 0 once the response is whole, and for
    /// empty metadata.
    pub fn wanted(&self) -> (r: usize)
        ensures
            r == wanted_spec(self.view_of()),
    {
        match self {
            ResponseRead::MetaLen => 4,
            ResponseRead::Meta { len } => *len,
            ResponseRead::PayloadLen { .. } => 8,
            ResponseRead::Payload { len, .. } => *len,
            ResponseRead::Done { .. } => 0,
        }
    }

    /// Takes the bytes that were read (see [`read_step`]).
    pub fn feed(self, bytes: Vec<u8>) -> (r: Result<Self, DashError>)
        requires
            !(self is Done),
            bytes@.len() == wanted_spec(self.view_of()),
        ensures
            match r {
                Ok(next) => read_step(self.view_of(), bytes@) == Ok::<ReadView, DashError>(
                    next.view_of(),
                ),
                Err(e) => read_step(self.view_of(), bytes@) == Err::<ReadView, DashError>(e),
            },
    {
        match self {
            ResponseRead::MetaLen => {
                let n = le_u64(bytes.as_slice());
                proof {
                    lemma_le_uint_bound(bytes@);
                    lemma_pow256_small();
                }
                match response_meta_len(n as u32) {
                    Ok(len) => Ok(ResponseRead::Meta { len }),
                    Err(e) => Err(e),
                }
            },
            ResponseRead::Meta { .. } => Ok(ResponseRead::PayloadLen { meta: bytes }),
            ResponseRead::PayloadLen { meta } => {
                let n = le_u64(bytes.as_slice());
                let len = n as usize;
                if len == 0 {
                    Ok(ResponseRead::Done { meta, payload: Vec::new() })
                } else {
                    Ok(ResponseRead::Payload { meta, len })
                }
            },
            ResponseRead::Payload { meta, .. } => Ok(ResponseRead::Done { meta, payload: bytes }),
            ResponseRead::Done { .. } => Ok(self),
        }
    }
}

/// The bytes of a response: the metadata length, the metadata, the payload
/// length and the payload.
pub open spec fn response_bytes(meta: Seq<u8>, payload: Seq<u8>) -> Seq<u8> {
    le_bytes(meta.len(), 4) + meta + le_bytes(payload.len(), 8) + payload
}

/// A response whose metadata is within [`MAX_META_LEN`] and whose payload
/// length fits in `usize` reads back as its metadata and its payload: each
/// read takes the next piece of [`response_bytes`], and the payload is not
/// read when it is empty.
pub proof fn lemma_response_reads_back(meta: Seq<u8>, payload: Seq<u8>)
    requires
        meta.len() <= MAX_META_LEN,
        payload.len() <= usize::MAX,
    ensures
        ({
            let w = response_bytes(meta, payload);
            let a = 4int;
            let b = a + meta.len();
            let c = b + 8;
            &&& w.len() == c + payload.len()
            &&& wanted_spec(ReadView::MetaLen) == a
            &&& read_step(ReadView::MetaLen, w.subrange(0, a)) == Ok::<ReadView, DashError>(
                ReadView::Meta(meta.len()),
            )
            &&& wanted_spec(ReadView::Meta(meta.len())) == b - a
            &&& read_step(ReadView::Meta(meta.len()), w.subrange(a, b)) == Ok::<
                ReadView,
                DashError,
            >(ReadView::PayloadLen(meta))
            &&& wanted_spec(ReadView::PayloadLen(meta)) == c - b
            &&& read_step(ReadView::PayloadLen(meta), w.subrange(b, c)) == Ok::<ReadView, DashError>(
                if payload.len() == 0 {
                    ReadView::Done(meta, payload)
                } else {
                    ReadView::Payload(meta, payload.len())
                },
            )
            &&& payload.len() > 0 ==> wanted_spec(ReadView::Payload(meta, payload.len()))
                == w.len() - c
            &&& payload.len() > 0 ==> read_step(
                ReadView::Payload(meta, payload.len()),
                w.subrange(c, w.len() as int),
            ) == Ok::<ReadView, DashError>(ReadView::Done(meta, payload))
        }),
{
    lemma_pow256_small();
    lemma_le_roundtrip(meta.len(), 4);
    lemma_le_roundtrip(payload.len(), 8);
    let w = response_bytes(meta, payload);
    let a = 4int;
    let b = a + meta.len();
    let c = b + 8;
    assert(w.subrange(0, a) =~= le_bytes(meta.len(), 4));
    assert(w.subrange(a, b) =~= meta);
    assert(w.subrange(b, c) =~= le_bytes(payload.len(), 8));
    assert(w.subrange(c, w.len() as int) =~= payload);
    assert(((payload.len() as u64) as usize) as nat == payload.len());
    if payload.len() == 0 {
        assert(payload =~= seq![]);
    }
}

/// What the sidecar prints when it is ready to serve.
pub open spec fn ready_prefix() -> Seq<char> {
    "DASH_SIDECAR_READY "@
}

/// The JSON of a readiness line: the trimmed line must start with
/// `DASH_SIDECAR_READY `; the rest of it is the JSON.
pub fn ready_line_json(line: &str) -> (r: Option<Vec<char>>)
    ensures
        match r {
            Some(j) => starts_with(trim(line@), ready_prefix()) && j@ == trim(line@).skip(
                ready_prefix().len() as int,
            ),
            None => !starts_with(trim(line@), ready_prefix()),
        },
{
    let c = str_chars(line);
    let n: usize = c.len();
    let (a, e) = trim_range(&c, 0, n);
    assert(c@.subrange(0, n as int) =~= line@);
    let prefix = str_chars("DASH_SIDECAR_READY ");
    if !range_starts_with(&c, a, e, &prefix) {
        return None;
    }
    let j = copy_range(&c, a + prefix.len(), e);
    assert(j@ =~= c@.subrange(a as int, e as int).skip(prefix@.len() as int));
    Some(j)
}

/// What [`write_request`] appends reads back: the four bytes after what was
/// there before, read as a little-endian number (as [`read_u32`] does), give the
/// body's length, and the body follows them unchanged.
pub proof fn lemma_request_reads_back(prior: Seq<u8>, body: Seq<u8>)
    requires
        body.len() <= u32::MAX,
    ensures
        ({
            let w = prior + le_bytes(body.len(), 4) + body;
            &&& w.len() == prior.len() + 4 + body.len()
            &&& le_uint(w.subrange(prior.len() as int, prior.len() + 4int)) == body.len()
            &&& w.subrange(prior.len() + 4int, w.len() as int) == body
        }),
{
    lemma_pow256_small();
    lemma_le_roundtrip(body.len(), 4);
    let w = prior + le_bytes(body.len(), 4) + body;
    assert(w.subrange(prior.len() as int, prior.len() + 4int) =~= le_bytes(body.len(), 4));
    assert(w.subrange(prior.len() + 4int, w.len() as int) =~= body);
}

} // verus!
