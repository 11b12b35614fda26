//! Decoded frames and where they go.
use std::sync::Arc;
use vstd::prelude::*;

use crate::integrations::ffmpeg_bridge::FFmpegVideoDecoder;
use crate::integrations::AdapterError;
use crate::text;

verus! {

/// A frame: its pixels row by row, four bytes each.
#[derive(Debug)]
pub struct RgbaFrame {
    pub width: u32,
    pub height: u32,
    /// Shared, so that a frame is handed on without copying its pixels.
    pub rgba: Arc<Vec<u8>>,
}

/// The content of a frame.
pub struct FrameContent {
    pub width: u32,
    pub height: u32,
    pub rgba: Seq<u8>,
}

impl View for RgbaFrame {
    type V = FrameContent;

    open spec fn view(&self) -> FrameContent {
        FrameContent { width: self.width, height: self.height, rgba: self.rgba@ }
    }
}

impl Clone for RgbaFrame {
    fn clone(&self) -> (r: Self)
        ensures
            r@ == self@,
    {
        RgbaFrame { width: self.width, height: self.height, rgba: self.rgba.clone() }
    }
}

impl RgbaFrame {
    pub fn len_bytes(&self) -> (r: usize)
        ensures
            r == self@.rgba.len(),
    {
        self.rgba.len()
    }

    pub fn is_empty(&self) -> (r: bool)
        ensures
            r == (self@.rgba.len() == 0),
    {
        self.rgba.len() == 0
    }
}

/// What a sink is told.
pub enum SinkCall {
    Size { width: u32, height: u32 },
    Frame(FrameContent),
}

/// Something that shows frames.
pub trait FrameSink {
    /// Everything that the sink has been told, in order. Only proofs speak of it.
    open spec fn told(&self) -> Seq<SinkCall> {
        Seq::empty()
    }

    fn push(&mut self, frame: &RgbaFrame)
        ensures
            final(self).told() == old(self).told().push(SinkCall::Frame(frame@)),
    ;

    /// The size of the frames has changed.
    fn on_size(&mut self, width: u32, height: u32)
        ensures
            final(self).told() == old(self).told().push(SinkCall::Size { width, height }),
    ;

    /// A frame has been received on the other side.
    fn acknowledge(&mut self, sequence: u64)
        ensures
            final(self).told() == old(self).told(),
    ;
}

/// Whether a source can decode.
#[derive(Debug, Clone, Copy, PartialEq, Eq, Structural)]
pub enum DecodeStatus {
    /// Real video is decoded.
    Real,
    /// Only generated frames are shown.
    TestOnly,
    /// The source gives no frames.
    Unavailable,
}

/// A source of frames.
pub trait FrameSource {
    fn decode_status(&self) -> DecodeStatus;

    /// Whether frames are being produced.
    fn is_rendering(&self) -> bool {
        false
    }
}

/// The colour of a column of the test picture: eight bars in six colours.
pub open spec fn bar_color(x: int, width: int) -> (u8, u8, u8) {
    let bar = (x * 8 / width) % 6;
    if bar == 0 {
        (255, 0, 0)
    } else if bar == 1 {
        (0, 255, 0)
    } else if bar == 2 {
        (0, 0, 255)
    } else if bar == 3 {
        (255, 255, 0)
    } else if bar == 4 {
        (0, 255, 255)
    } else {
        (255, 0, 255)
    }
}

/// One byte of the test picture at time `t`: a colour of its bar, shifted by the time, or the
/// opacity.
pub open spec fn test_byte(i: int, width: int, t: int) -> u8 {
    let c = bar_color((i / 4) % width, width);
    let tint = t % 60;
    if i % 4 == 0 {
        ((c.0 + tint) % 256) as u8
    } else if i % 4 == 1 {
        ((c.1 + tint) % 256) as u8
    } else if i % 4 == 2 {
        ((c.2 + tint) % 256) as u8
    } else {
        255
    }
}

/// The test picture at time `t`.
pub open spec fn test_picture(width: int, height: int, t: int) -> Seq<u8> {
    Seq::new((width * height * 4) as nat, |i: int| test_byte(i, width, t))
}

/// A side of the test picture, at least one.
pub open spec fn at_least_one(n: u32) -> int {
    if n == 0 {
        1
    } else {
        n as int
    }
}

fn tinted(c: u8, tint: u8) -> (r: u8)
    requires
        tint < 60,
    ensures
        r == ((c + tint) % 256) as u8,
{
    let sum: u16 = c as u16 + tint as u16;
    (sum % 256) as u8
}

/// A picture of coloured bars whose hue changes with `t`, to try out the way to the screen. A
/// side of zero counts as one. The picture has to fit in memory.
pub fn generate_test_frame(width: u32, height: u32, t: u32) -> (r: RgbaFrame)
    requires
        at_least_one(width) * at_least_one(height) * 4 <= isize::MAX,
        (at_least_one(width) - 1) * 8 <= u32::MAX,
    ensures
        r@ == (FrameContent {
            width: at_least_one(width) as u32,
            height: at_least_one(height) as u32,
            rgba: test_picture(at_least_one(width), at_least_one(height), t as int),
        }),
{
    let w: u32 = if width == 0 {
        1
    } else {
        width
    };
    let h: u32 = if height == 0 {
        1
    } else {
        height
    };
    let tint: u8 = (t % 60) as u8;
    let ghost all = test_picture(w as int, h as int, t as int);
    let mut rgba: Vec<u8> = Vec::new();
    let mut y: u32 = 0;
    assert(0 * w * 4 == 0) by (nonlinear_arith);
    while y < h
        invariant
            1 <= w,
            (w - 1) * 8 <= u32::MAX,
            y <= h,
            tint == t % 60,
            all == test_picture(w as int, h as int, t as int),
            w * h * 4 <= isize::MAX,
            rgba@ =~= all.take(y * w * 4),
            0 <= y * w * 4 <= all.len(),
        decreases h - y,
    {
        let mut x: u32 = 0;
        while x < w
            invariant
                x <= w,
                1 <= w,
                y < h,
                (w - 1) * 8 <= u32::MAX,
                tint == t % 60,
                all == test_picture(w as int, h as int, t as int),
                rgba@ =~= all.take((y * w + x) * 4),
                0 <= (y * w + x) * 4 <= all.len(),
            decreases w - x,
        {
            let bar: u32 = (x * 8 / w) % 6;
            let color: (u8, u8, u8) = if bar == 0 {
                (255, 0, 0)
            } else if bar == 1 {
                (0, 255, 0)
            } else if bar == 2 {
                (0, 0, 255)
            } else if bar == 3 {
                (255, 255, 0)
            } else if bar == 4 {
                (0, 255, 255)
            } else {
                (255, 0, 255)
            };
            let ghost at = (y * w + x) * 4;
            proof {
                assert(at + 4 <= w * h * 4) by (nonlinear_arith)
                    requires
                        at == (y * w + x) * 4,
                        x < w,
                        y < h,
                        0 <= x,
                        0 <= y,
                ;
                assert((y * w + x) % (w as int) == x && (y * w + x) >= 0) by (nonlinear_arith)
                    requires
                        0 <= x < w,
                        0 <= y,
                ;
                let m = y * w + x;
                assert(at == 4 * m);
                assert((at + 1) / 4 == m && (at + 2) / 4 == m && (at + 3) / 4 == m && at / 4 == m);
            }
            rgba.push(tinted(color.0, tint));
            rgba.push(tinted(color.1, tint));
            rgba.push(tinted(color.2, tint));
            rgba.push(255);
            proof {
                assert(all[at] == test_byte(at, w as int, t as int));
                assert(all[at + 1] == test_byte(at + 1, w as int, t as int));
                assert(all[at + 2] == test_byte(at + 2, w as int, t as int));
                assert(all[at + 3] == test_byte(at + 3, w as int, t as int));
                assert(color == bar_color(x as int, w as int));
                assert((y * w + (x + 1)) * 4 == at + 4) by (nonlinear_arith)
                    requires
                        at == (y * w + x) * 4,
                ;
                assert(rgba@ =~= all.take(at + 4));
            }
            x = x + 1;
        }
        proof {
            assert((y * w + w) * 4 == (y + 1) * w * 4) by (nonlinear_arith);
            assert((y + 1) * w * 4 <= w * h * 4) by (nonlinear_arith)
                requires
                    y < h,
                    0 <= w,
            ;
        }
        y = y + 1;
    }
    proof {
        assert(y * w * 4 == w * h * 4) by (nonlinear_arith)
            requires
                y == h,
        ;
        assert(all.take(all.len() as int) =~= all);
    }
    RgbaFrame { width: w, height: h, rgba: Arc::new(rgba) }
}

/// The test picture has four bytes for each of its pixels, every pixel is opaque, all rows are
/// alike, and the picture of a time is that of the beginning with every colour raised by the time
/// within its minute.
pub proof fn test_pictures_change_with_time_only(
    width: int,
    height: int,
    t: int,
    x: int,
    y: int,
    k: int,
)
    requires
        0 <= x < width,
        0 <= y < height,
        0 <= k < 4,
        0 <= t,
    ensures
        test_picture(width, height, t).len() == width * height * 4,
        0 <= (y * width + x) * 4 + k < width * height * 4,
        ({
            let at = (y * width + x) * 4 + k;
            let b = test_picture(width, height, t)[at];
            &&& k == 3 ==> b == 255
            &&& b == test_picture(width, height, t)[x * 4 + k]
            &&& k < 3 ==> b == (test_picture(width, height, 0)[at] + t % 60) % 256
            &&& b == test_picture(width, height, t + 60)[at]
        }),
{
    let at: int = (y * width + x) * 4 + k;
    lemma_pixel(width, height, x, y, k);
    lemma_pixel(width, height, x, 0, k);
    assert((0 * width + x) * 4 + k == x * 4 + k) by (nonlinear_arith);
    assert((t + 60) % 60 == t % 60);
    assert(test_picture(width, height, t)[at] == test_byte(at, width, t));
    assert(test_picture(width, height, 0)[at] == test_byte(at, width, 0));
}

proof fn lemma_pixel(width: int, height: int, x: int, y: int, k: int)
    requires
        0 <= x < width,
        0 <= y < height,
        0 <= k < 4,
    ensures
        0 <= (y * width + x) * 4 + k < width * height * 4,
        ((y * width + x) * 4 + k) % 4 == k,
        (((y * width + x) * 4 + k) / 4) % width == x,
        test_picture(width, height, 0).len() == width * height * 4,
{
    let m: int = y * width + x;
    assert(0 <= m && m + 1 <= width * height) by (nonlinear_arith)
        requires
            m == y * width + x,
            0 <= x < width,
            0 <= y < height,
    ;
    assert(width * height * 4 == 4 * (width * height)) by (nonlinear_arith);
    assert(m % width == x) by (nonlinear_arith)
        requires
            m == y * width + x,
            0 <= x < width,
            0 <= y,
    ;
}

/// At the beginning the eighths of the test picture are, from left to right, red, green, blue,
/// yellow, cyan, magenta, red and green.
pub proof fn test_pictures_show_eight_bars(width: int, height: int, x: int, y: int, bar: int)
    requires
        0 <= x < width,
        0 <= y < height,
        0 <= bar < 8,
        bar * width <= x * 8 < (bar + 1) * width,
    ensures
        ({
            let p = test_picture(width, height, 0);
            let at = (y * width + x) * 4;
            let (r, g, b) = (p[at], p[at + 1], p[at + 2]);
            &&& bar == 0 || bar == 6 ==> r == 255 && g == 0 && b == 0
            &&& bar == 1 || bar == 7 ==> r == 0 && g == 255 && b == 0
            &&& bar == 2 ==> r == 0 && g == 0 && b == 255
            &&& bar == 3 ==> r == 255 && g == 255 && b == 0
            &&& bar == 4 ==> r == 0 && g == 255 && b == 255
            &&& bar == 5 ==> r == 255 && g == 0 && b == 255
        }),
{
    let at: int = (y * width + x) * 4;
    lemma_pixel(width, height, x, y, 0);
    lemma_pixel(width, height, x, y, 1);
    lemma_pixel(width, height, x, y, 2);
    let rem: int = x * 8 - bar * width;
    assert((bar + 1) * width == bar * width + width) by (nonlinear_arith);
    vstd::arithmetic::div_mod::lemma_fundamental_div_mod_converse(x * 8, width, bar, rem);
    let p = test_picture(width, height, 0);
    assert(p[at] == test_byte(at, width, 0));
    assert(p[at + 1] == test_byte(at + 1, width, 0));
    assert(p[at + 2] == test_byte(at + 2, width, 0));
}

/// The decoder of this build, where it has one.
#[derive(Debug)]
pub enum VideoDecoderInner {
    Disabled,
    Ffmpeg(FFmpegVideoDecoder),
}

/// A decoder of video.
#[derive(Debug)]
pub struct VideoDecoder {
    pub inner: VideoDecoderInner,
}

impl VideoDecoder {
    /// Creates a decoder. `enabled` says whether the build decodes video at all, `available`
    /// whether `ffmpeg` can be called.
    pub fn try_create(enabled: bool, available: bool, width: u32, height: u32) -> (r: Result<
        Self,
        AdapterError,
    >)
        ensures
            r is Ok <==> enabled && available,
            r matches Ok(d) ==> d.inner == VideoDecoderInner::Ffmpeg(
                (FFmpegVideoDecoder { width, height }),
            ),
            r matches Err(e) ==> e@ == (if enabled {
                AdapterError::DependencyMissing(
                    "启用 video-decode 需要系统 ffmpeg 可执行文件（PATH 中）。"@,
                )
            } else {
                AdapterError::PendingRealDeviceValidation(
                    "视频解码（FFmpeg）未启用：默认构建不含 FFmpeg 依赖。用 --features video-decode 启用后即可把镜像流解码为画面。"@,
                )
            }),
    {
        if !enabled {
            return Err(
                AdapterError::PendingRealDeviceValidation(
                    text::own(
                        "视频解码（FFmpeg）未启用：默认构建不含 FFmpeg 依赖。用 --features video-decode 启用后即可把镜像流解码为画面。",
                    ),
                ),
            );
        }
        match FFmpegVideoDecoder::new(available, width, height) {
            Ok(d) => Ok(VideoDecoder { inner: VideoDecoderInner::Ffmpeg(d) }),
            Err(e) => Err(e),
        }
    }

    /// What is decoded of a piece of H.264: nothing where decoding is disabled, else what
    /// `ffmpeg` made of it.
    pub fn decode(
        &self,
        h264: &[u8],
        w: u32,
        h: u32,
        output: Result<Vec<u8>, AdapterError>,
    ) -> (r: Result<Option<RgbaFrame>, AdapterError>)
        requires
            self.inner matches VideoDecoderInner::Ffmpeg(d) ==> h264@.len() > 0 ==> d.side(
                w,
                d.width,
            ) * d.side(h, d.height) * 4 <= u32::MAX,
        ensures
            match self.inner {
                VideoDecoderInner::Disabled => r matches Ok(None),
                VideoDecoderInner::Ffmpeg(d) => d.decoded(h264@, w, h, output, r),
            },
    {
        match &self.inner {
            VideoDecoderInner::Disabled => Ok(None),
            VideoDecoderInner::Ffmpeg(d) => d.decode_h264(h264, w, h, output),
        }
    }
}

/// A sink and whether frames are decoded for it.
pub struct FrameHub<S> {
    pub sink: Option<S>,
    pub decode: DecodeStatus,
}

impl<S> FrameHub<S> {
    pub fn new(sink: Option<S>) -> (r: Self)
        ensures
            r.sink == sink,
            r.decode == DecodeStatus::Unavailable,
    {
        FrameHub { sink, decode: DecodeStatus::Unavailable }
    }
}

} // verus!
