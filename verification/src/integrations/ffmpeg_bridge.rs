//! Decoding with the `ffmpeg` command: what it is called with and what is made of its output.
use std::sync::Arc;
use vstd::prelude::*;

use crate::integrations::frame_bridge::{FrameContent, RgbaFrame};
use crate::integrations::AdapterError;
use crate::text;

verus! {

/// A decoder that calls `ffmpeg`, with the size to use where none is given.
#[derive(Debug)]
pub struct FFmpegVideoDecoder {
    pub width: u32,
    pub height: u32,
}

impl FFmpegVideoDecoder {
    /// Whether `ffmpeg` can be called.
    pub fn ensure_available(available: bool) -> (r: Result<(), AdapterError>)
        ensures
            r is Ok <==> available,
            r matches Err(e) ==> e@ == AdapterError::DependencyMissing(
                "启用 video-decode 需要系统 ffmpeg 可执行文件（PATH 中）。"@,
            ),
    {
        if available {
            Ok(())
        } else {
            Err(
                AdapterError::DependencyMissing(
                    text::own("启用 video-decode 需要系统 ffmpeg 可执行文件（PATH 中）。"),
                ),
            )
        }
    }

    pub fn new(available: bool, width: u32, height: u32) -> (r: Result<Self, AdapterError>)
        ensures
            r is Ok <==> available,
            r matches Ok(d) ==> d == (FFmpegVideoDecoder { width, height }),
            r matches Err(e) ==> e@ == AdapterError::DependencyMissing(
                "启用 video-decode 需要系统 ffmpeg 可执行文件（PATH 中）。"@,
            ),
    {
        match FFmpegVideoDecoder::ensure_available(available) {
            Ok(()) => Ok(FFmpegVideoDecoder { width, height }),
            Err(e) => Err(e),
        }
    }

    /// A side of the picture: the given one, or the decoder's where none is given.
    pub open spec fn side(&self, given: u32, own: u32) -> u32 {
        if given > 0 {
            given
        } else {
            own
        }
    }

    /// The size to decode to; `None` where nothing is decoded.
    pub open spec fn target(&self, h264: Seq<u8>, w: u32, h: u32) -> Option<(u32, u32)> {
        let width = self.side(w, self.width);
        let height = self.side(h, self.height);
        if h264.len() == 0 || width == 0 || height == 0 {
            None
        } else {
            Some((width, height))
        }
    }

    /// The size to decode a piece of H.264 to; `None` where there is nothing to decode.
    pub fn decode_target(&self, h264: &[u8], w: u32, h: u32) -> (r: Option<(u32, u32)>)
        ensures
            r == self.target(h264@, w, h),
    {
        let width = if w > 0 {
            w
        } else {
            self.width
        };
        let height = if h > 0 {
            h
        } else {
            self.height
        };
        if h264.len() == 0 || width == 0 || height == 0 {
            None
        } else {
            Some((width, height))
        }
    }

    /// The arguments with which `ffmpeg` decodes H.264 from its input to pixels of the given
    /// size on its output.
    pub fn arguments(width: u32, height: u32) -> (r: Vec<String>)
        ensures
            text::texts(r@) == decode_words(width, height),
    {
        let scale = text::cat4(
            "scale=",
            text::decimal(width as u64).as_str(),
            ":",
            text::decimal(height as u64).as_str(),
        );
        text::own_all(
            &[
                "-loglevel",
                "error",
                "-f",
                "h264",
                "-i",
                "pipe:0",
                "-f",
                "rawvideo",
                "-pix_fmt",
                "rgba",
                "-vf",
                scale.as_str(),
                "pipe:1",
            ],
        )
    }

    /// What is made of a piece of H.264 and of the output of `ffmpeg`: nothing where there is
    /// nothing to decode, else the first picture of the output, if it is whole.
    pub open spec fn decoded(
        &self,
        h264: Seq<u8>,
        w: u32,
        h: u32,
        output: Result<Vec<u8>, AdapterError>,
        r: Result<Option<RgbaFrame>, AdapterError>,
    ) -> bool {
        match self.target(h264, w, h) {
            None => r matches Ok(None),
            Some((width, height)) => match output {
                Err(e) => r == Err::<Option<RgbaFrame>, AdapterError>(e),
                Ok(bytes) => if bytes@.len() < width * height * 4 {
                    r matches Ok(None)
                } else {
                    r matches Ok(Some(frame)) && frame@ == (FrameContent {
                        width,
                        height,
                        rgba: bytes@.take(width * height * 4),
                    })
                },
            },
        }
    }

    /// Makes a frame of the output of `ffmpeg`; a picture that is not whole is dropped.
    pub fn decode_h264(
        &self,
        h264: &[u8],
        w: u32,
        h: u32,
        output: Result<Vec<u8>, AdapterError>,
    ) -> (r: Result<Option<RgbaFrame>, AdapterError>)
        requires
            h264@.len() > 0 ==> self.side(w, self.width) * self.side(h, self.height) * 4
                <= u32::MAX,
        ensures
            self.decoded(h264@, w, h, output, r),
    {
        let (width, height) = match self.decode_target(h264, w, h) {
            None => {
                return Ok(None);
            },
            Some(size) => size,
        };
        let mut bytes = match output {
            Err(e) => {
                return Err(e);
            },
            Ok(bytes) => bytes,
        };
        assert(width * height <= width * height * 4);
        let expected: usize = (width * height * 4) as usize;
        if bytes.len() < expected {
            return Ok(None);
        }
        let ghost all = bytes@;
        bytes.truncate(expected);
        assert(bytes@ =~= all.take(width * height * 4));
        Ok(Some(RgbaFrame { width, height, rgba: Arc::new(bytes) }))
    }
}

/// The arguments with which `ffmpeg` decodes H.264 to pixels of the given size.
pub open spec fn decode_words(width: u32, height: u32) -> Seq<Seq<char>> {
    seq![
        "-loglevel"@,
        "error"@,
        "-f"@,
        "h264"@,
        "-i"@,
        "pipe:0"@,
        "-f"@,
        "rawvideo"@,
        "-pix_fmt"@,
        "rgba"@,
        "-vf"@,
        "scale="@ + text::dec(width as nat) + ":"@ + text::dec(height as nat),
        "pipe:1"@,
    ]
}

/// A picture is decoded to the size that is given, each side by itself, and where a side is not
/// given to that of the decoder; without data or without a size nothing is decoded.
pub proof fn given_sizes_come_first(d: FFmpegVideoDecoder, h264: Seq<u8>, w: u32, h: u32)
    ensures
        h264.len() == 0 ==> d.target(h264, w, h) is None,
        d.target(h264, w, h) matches Some((a, b)) ==> a > 0 && b > 0 && (w > 0 ==> a == w) && (h > 0
            ==> b == h) && (w == 0 ==> a == d.width) && (h == 0 ==> b == d.height),
        h264.len() > 0 && (w > 0 || d.width > 0) && (h > 0 || d.height > 0) ==> d.target(h264, w, h)
            is Some,
{
}

/// The size that a scaling filter names: across before down.
pub open spec fn filter_size(filter: Seq<char>) -> Option<(nat, nat)> {
    match text::behind(filter, "scale="@) {
        Some(rest) => match text::parted(rest, ':') {
            Some((w, h)) => match (
                text::parsed(w, u32::MAX as nat),
                text::parsed(h, u32::MAX as nat),
            ) {
                (Some(a), Some(b)) => Some((a, b)),
                _ => None,
            },
            None => None,
        },
        None => None,
    }
}

/// `ffmpeg` reads the stream from its input and writes pixels of four bytes to its output, in the
/// size that it is given, across before down.
pub proof fn pictures_are_scaled_to_their_size(width: u32, height: u32)
    ensures
        ({
            let all = decode_words(width, height);
            let n = all.len() as int;
            &&& all[n - 1] == "pipe:1"@
            &&& all[n - 3] == "-vf"@ && filter_size(all[n - 2]) == Some(
                (width as nat, height as nat),
            )
            &&& all.contains("rgba"@) && all.contains("pipe:0"@)
        }),
{
    let all = decode_words(width, height);
    assert(all[9] == "rgba"@);
    assert(all[5] == "pipe:0"@);
    reveal_strlit("scale=");
    reveal_strlit(":");
    let a = text::dec(width as nat);
    let b = text::dec(height as nat);
    text::decimal_numbers_read_back(width as nat, u32::MAX as nat);
    text::decimal_numbers_read_back(height as nat, u32::MAX as nat);
    let f = "scale="@ + a + ":"@ + b;
    let rest = a + ":"@ + b;
    assert(f.subrange(0, 6) =~= "scale="@);
    assert(f.skip(6) =~= rest);
    let g = text::is_char(':');
    assert forall|j: int| 0 <= j < a.len() implies !g(#[trigger] rest[j]) by {
        assert(rest[j] == a[j]);
        assert(text::is_digit(a[j]));
    }
    assert(rest[a.len() as int] == ':');
    text::lemma_find_from_is(rest, g, 0, a.len() as int);
    assert(rest.take(a.len() as int) =~= a);
    assert(rest.skip(a.len() as int + 1) =~= b);
}

/// Whether `ffmpeg` is there, and the first line that it says about itself.
#[derive(Debug)]
pub struct FfmpegInfo {
    pub available: bool,
    pub version: Option<String>,
}

/// The first line of the version text.
pub open spec fn version_line(output: Seq<char>) -> Option<Seq<char>> {
    let lines = text::lines_of(text::trimmed(output));
    if lines.len() == 0 {
        None
    } else {
        Some(lines[0])
    }
}

/// What is known of `ffmpeg`: `output` is what `ffmpeg -version` printed, where it succeeded.
pub fn ffmpeg_info(output: Option<String>) -> (r: FfmpegInfo)
    ensures
        r.available == (output is Some),
        text::opt_text(r.version) == (match output {
            Some(o) => version_line(o@),
            None => None,
        }),
{
    match output {
        None => FfmpegInfo { available: false, version: None },
        Some(o) => {
            let trimmed = text::trim(o.as_str());
            let lines = text::lines(trimmed.as_str());
            assert(text::texts(lines@).len() == lines@.len());
            if lines.len() == 0 {
                FfmpegInfo { available: true, version: None }
            } else {
                assert(text::texts(lines@)[0] == lines@[0]@);
                FfmpegInfo { available: true, version: Some(text::own(lines[0].as_str())) }
            }
        },
    }
}

/// A picture that was decoded has as many bytes as its size asks for, and they are the first that
/// came; where fewer came, there is no picture.
pub proof fn pictures_hold_the_first_bytes(
    d: FFmpegVideoDecoder,
    h264: Seq<u8>,
    w: u32,
    h: u32,
    output: Vec<u8>,
    r: Result<Option<RgbaFrame>, AdapterError>,
)
    requires
        d.decoded(h264, w, h, Ok(output), r),
    ensures
        r is Ok,
        r->Ok_0 matches Some(frame) ==> {
            &&& d.target(h264, w, h) == Some((frame@.width, frame@.height))
            &&& frame@.rgba.len() == frame@.width * frame@.height * 4
            &&& frame@.rgba.is_prefix_of(output@)
        },
        r->Ok_0 is None ==> (d.target(h264, w, h) matches Some(size) ==> output@.len() < size.0
            * size.1 * 4),
{
    match d.target(h264, w, h) {
        Some((width, height)) => {
            assert(width * height * 4 >= 0) by (nonlinear_arith)
                requires
                    width >= 0,
                    height >= 0,
            ;
        },
        None => {},
    }
}

/// The version is the first line that is not blank.
pub proof fn versions_stand_on_the_first_line(gap: Seq<char>, line: Seq<char>, rest: Seq<char>)
    requires
        forall|i: int| 0 <= i < gap.len() ==> text::is_space(#[trigger] gap[i]),
        line.len() > 0,
        !text::is_space(line[0]),
        !text::is_space(line.last()),
        forall|i: int| 0 <= i < line.len() ==> #[trigger] line[i] != '\n',
        rest.len() > 0,
        !text::is_space(rest.last()),
    ensures
        version_line(gap + (line + seq!['\n'] + rest)) == Some(line),
{
    let s = line + seq!['\n'] + rest;
    let none = Seq::<char>::empty();
    assert(s[0] == line[0] && s.last() == rest.last());
    text::white_space_around_a_text_is_trimmed(gap, s, none);
    assert(gap + s + none =~= gap + s);
    text::lines_are_read_one_by_one(line, rest);
    assert(line.last() != '\r');
}

} // verus!
