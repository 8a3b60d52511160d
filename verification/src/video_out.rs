//! Writing what the screen shows to a video file, by handing the frames to
//! `ffmpeg`.
//!
//! What is decided here is what the encoder is asked for, where its working
//! files go, and which frames are handed to it. Starting the encoder, and the
//! pipe and files it writes through, belong to the program around the
//! library.
use vstd::prelude::*;
use crate::paths::{file_stem_of, path_file_stem, path_with_file_name, with_file_name};
use crate::text::{decimal, digit_char, push_char, push_decimal, push_str};

verus! {

/// What to call the encoder.
pub const FFMPEG: &'static str = "ffmpeg";

/// What every file is written at, whatever the picture came in as: 1080p,
/// with the picture scaled up to fit and the rest left black.
pub const OUT_W: usize = 1920;

pub const OUT_H: usize = 1080;

/// The text of each string in a list.
pub open spec fn strings(v: Seq<String>) -> Seq<Seq<char>> {
    v.map_values(|s: String| s@)
}

/// A number of thousandths written with three places after the point: what
/// `{:.3}` writes for it.
pub open spec fn thousandths(m: nat) -> Seq<char> {
    decimal(m / 1000) + seq!['.', digit_char((m / 100) % 10), digit_char((m / 10) % 10), digit_char(m % 10)]
}

/// The filter that scales the picture to `w` by `h` and centres it on the
/// black 1080p frame.
pub open spec fn scale_filter(w: nat, h: nat, smooth: bool) -> Seq<char> {
    "scale="@ + decimal(w) + seq![':'] + decimal(h) + ":flags="@ + (if smooth {
        "lanczos"@
    } else {
        "neighbor"@
    }) + ",pad="@ + decimal(OUT_W as nat) + seq![':'] + decimal(OUT_H as nat) + seq![':']
        + decimal(((OUT_W - w) / 2) as nat) + seq![':'] + decimal(((OUT_H - h) / 2) as nat)
        + ":black"@
}

/// The arguments that turn a stream of RGBA frames `width` by `height` into
/// an H.264 file at `to`, the picture drawn `w` by `h` inside the frame.
pub open spec fn encoder_args(
    width: nat,
    height: nat,
    w: nat,
    h: nat,
    fps_millis: nat,
    smooth: bool,
    to: Seq<char>,
) -> Seq<Seq<char>> {
    seq![
        "-y"@,
        "-f"@,
        "rawvideo"@,
        "-pixel_format"@,
        "rgba"@,
        "-video_size"@,
        decimal(width) + seq!['x'] + decimal(height),
        "-framerate"@,
        thousandths(fps_millis),
        "-i"@,
        "-"@,
        "-vf"@,
        scale_filter(w, h, smooth),
        "-c:v"@,
        "libx264"@,
        "-preset"@,
        "veryfast"@,
        "-crf"@,
        "18"@,
        "-pix_fmt"@,
        "yuv420p"@,
        to,
    ]
}

/// The arguments that put the sound, `rate` samples a second, and the picture
/// together into `to`.
pub open spec fn mux_args(video: Seq<char>, audio: Seq<char>, rate: nat, to: Seq<char>) -> Seq<
    Seq<char>,
> {
    seq![
        "-y"@,
        "-i"@,
        video,
        "-f"@,
        "f32le"@,
        "-ar"@,
        decimal(rate),
        "-ac"@,
        "1"@,
        "-i"@,
        audio,
        "-c:v"@,
        "copy"@,
        "-c:a"@,
        "aac"@,
        "-b:a"@,
        "192k"@,
        "-shortest"@,
        to,
    ]
}

fn push_arg(v: &mut Vec<String>, s: String)
    ensures
        strings(final(v)@) == strings(old(v)@).push(s@),
{
    let ghost text = s@;
    v.push(s);
    assert(strings(v@) =~= strings(old(v)@).push(text));
}

fn push_text(v: &mut Vec<String>, s: &str)
    ensures
        strings(final(v)@) == strings(old(v)@).push(s@),
{
    push_arg(v, s.to_owned());
}

fn thousandths_text(m: u64) -> (r: String)
    ensures
        r@ == thousandths(m as nat),
{
    let mut s = String::new();
    push_decimal(&mut s, m / 1000);
    push_char(&mut s, '.');
    push_decimal(&mut s, (m / 100) % 10);
    push_decimal(&mut s, (m / 10) % 10);
    push_decimal(&mut s, m % 10);
    proof {
        assert(decimal(((m / 100) % 10) as nat) == seq![digit_char(((m / 100) % 10) as nat)]);
        assert(decimal(((m / 10) % 10) as nat) == seq![digit_char(((m / 10) % 10) as nat)]);
        assert(decimal((m % 10) as nat) == seq![digit_char((m % 10) as nat)]);
    }
    assert(s@ =~= thousandths(m as nat));
    s
}

fn scale_filter_text(w: usize, h: usize, smooth: bool) -> (r: String)
    requires
        w <= OUT_W,
        h <= OUT_H,
    ensures
        r@ == scale_filter(w as nat, h as nat, smooth),
{
    let mut s = String::new();
    push_str(&mut s, "scale=");
    push_decimal(&mut s, w as u64);
    push_char(&mut s, ':');
    push_decimal(&mut s, h as u64);
    push_str(&mut s, ":flags=");
    if smooth {
        push_str(&mut s, "lanczos");
    } else {
        push_str(&mut s, "neighbor");
    }
    push_str(&mut s, ",pad=");
    push_decimal(&mut s, OUT_W as u64);
    push_char(&mut s, ':');
    push_decimal(&mut s, OUT_H as u64);
    push_char(&mut s, ':');
    push_decimal(&mut s, ((OUT_W - w) / 2) as u64);
    push_char(&mut s, ':');
    push_decimal(&mut s, ((OUT_H - h) / 2) as u64);
    push_str(&mut s, ":black");
    assert(s@ =~= scale_filter(w as nat, h as nat, smooth));
    s
}

/// The arguments that turn a stream of RGBA frames into an H.264 file.
///
/// `fit` is how big the picture is drawn inside the 1080p frame, `fps_millis`
/// the frame rate in thousandths of a frame a second. `smooth` picks how the
/// scaling is done: the machine's own pixels are kept square, and a televised
/// picture is softened.
pub fn arguments(
    width: usize,
    height: usize,
    fit: (usize, usize),
    fps_millis: u64,
    smooth: bool,
    to: &str,
) -> (r: Vec<String>)
    requires
        fit.0 <= OUT_W,
        fit.1 <= OUT_H,
    ensures
        strings(r@) == encoder_args(
            width as nat,
            height as nat,
            fit.0 as nat,
            fit.1 as nat,
            fps_millis as nat,
            smooth,
            to@,
        ),
{
    let (w, h) = fit;
    let mut size = String::new();
    push_decimal(&mut size, width as u64);
    push_char(&mut size, 'x');
    push_decimal(&mut size, height as u64);
    assert(size@ =~= decimal(width as nat) + seq!['x'] + decimal(height as nat));
    let mut v: Vec<String> = Vec::new();
    push_text(&mut v, "-y");
    push_text(&mut v, "-f");
    push_text(&mut v, "rawvideo");
    push_text(&mut v, "-pixel_format");
    push_text(&mut v, "rgba");
    push_text(&mut v, "-video_size");
    push_arg(&mut v, size);
    push_text(&mut v, "-framerate");
    push_arg(&mut v, thousandths_text(fps_millis));
    push_text(&mut v, "-i");
    push_text(&mut v, "-");
    push_text(&mut v, "-vf");
    push_arg(&mut v, scale_filter_text(w, h, smooth));
    push_text(&mut v, "-c:v");
    push_text(&mut v, "libx264");
    push_text(&mut v, "-preset");
    push_text(&mut v, "veryfast");
    push_text(&mut v, "-crf");
    push_text(&mut v, "18");
    push_text(&mut v, "-pix_fmt");
    push_text(&mut v, "yuv420p");
    push_text(&mut v, to);
    assert(strings(v@) =~= encoder_args(
        width as nat,
        height as nat,
        w as nat,
        h as nat,
        fps_millis as nat,
        smooth,
        to@,
    ));
    v
}

/// The arguments that put the sound and the picture together at the end.
///
/// The sound is written beside the picture as raw samples while the
/// recording runs, `rate` of them a second, and the two are joined when it
/// stops.
pub fn mux_arguments(video: &str, audio: &str, rate: u64, to: &str) -> (r: Vec<String>)
    ensures
        strings(r@) == mux_args(video@, audio@, rate as nat, to@),
{
    let mut hz = String::new();
    push_decimal(&mut hz, rate);
    let mut v: Vec<String> = Vec::new();
    push_text(&mut v, "-y");
    push_text(&mut v, "-i");
    push_text(&mut v, video);
    push_text(&mut v, "-f");
    push_text(&mut v, "f32le");
    push_text(&mut v, "-ar");
    push_arg(&mut v, hz);
    push_text(&mut v, "-ac");
    push_text(&mut v, "1");
    push_text(&mut v, "-i");
    push_text(&mut v, audio);
    push_text(&mut v, "-c:v");
    push_text(&mut v, "copy");
    push_text(&mut v, "-c:a");
    push_text(&mut v, "aac");
    push_text(&mut v, "-b:a");
    push_text(&mut v, "192k");
    push_text(&mut v, "-shortest");
    push_text(&mut v, to);
    assert(strings(v@) =~= mux_args(video@, audio@, rate as nat, to@));
    v
}

/// The name of a working file beside `path`: `.stem.what`, with the stem of
/// `path`, or `recording` where it has none.
pub open spec fn beside_name(path: Seq<char>, what: Seq<char>) -> Seq<char> {
    seq!['.'] + (match path_file_stem(path) {
        Some(stem) => stem,
        None => "recording"@,
    }) + seq!['.'] + what
}

/// A working file beside the one being written, with the same stem.
pub fn beside(path: &str, what: &str) -> (r: String)
    ensures
        r@ == path_with_file_name(path@, beside_name(path@, what@)),
{
    let stem = match file_stem_of(path) {
        Some(s) => s,
        None => "recording".to_owned(),
    };
    let mut name = String::new();
    push_char(&mut name, '.');
    push_str(&mut name, stem.as_str());
    push_char(&mut name, '.');
    push_str(&mut name, what);
    assert(name@ =~= beside_name(path@, what@));
    with_file_name(path, name.as_str())
}

/// Where a recording is and what has gone into it so far.
///
/// A recording is one size throughout: the encoder is told the size once, and
/// a frame of another size cannot be put into the same file. What went wrong,
/// if anything has, is kept rather than thrown, so the window can say so.
pub struct RecordingState {
    pub width: usize,
    pub height: usize,
    pub frames: u64,
    pub samples: u64,
    pub failed: Option<String>,
}

/// The text of what went wrong, if anything has.
pub open spec fn failure(f: Option<String>) -> Option<Seq<char>> {
    match f {
        Some(s) => Some(s@),
        None => None,
    }
}

/// What is said when the picture changes size under a recording.
pub open spec fn resized_text(w: nat, h: nat, width: nat, height: nat) -> Seq<char> {
    "the picture changed size ("@ + decimal(w) + seq!['x'] + decimal(h) + " to "@ + decimal(width)
        + seq!['x'] + decimal(height) + seq![')']
}

/// How many bytes a frame of the recording's size takes.
pub open spec fn frame_bytes(width: nat, height: nat) -> nat {
    width * height * 4
}

impl RecordingState {
    /// A recording of frames `width` by `height` that nothing has gone into.
    pub fn new(width: usize, height: usize) -> (r: RecordingState)
        ensures
            r.width == width,
            r.height == height,
            r.frames == 0,
            r.samples == 0,
            r.failed is None,
    {
        RecordingState { width, height, frames: 0, samples: 0, failed: None }
    }

    /// Whether a frame of `len` bytes, `width` by `height`, goes to the
    /// encoder, and how many of its bytes if it does.
    ///
    /// Nothing goes once something has failed. A frame of the wrong size is
    /// refused rather than written, since giving the encoder a different size
    /// would shear the picture from there on; so is one shorter than its size
    /// says. A refusal is kept as the recording's failure.
    pub fn frame(&mut self, len: usize, width: usize, height: usize) -> (r: Option<usize>)
        requires
            old(self).failed is None && width == old(self).width && height == old(self).height
                ==> frame_bytes(old(self).width as nat, old(self).height as nat) <= usize::MAX,
        ensures
            final(self).width == old(self).width,
            final(self).height == old(self).height,
            final(self).frames == old(self).frames,
            final(self).samples == old(self).samples,
            old(self).failed is Some ==> r is None && failure(final(self).failed) == failure(
                old(self).failed,
            ),
            old(self).failed is None && (width != old(self).width || height != old(self).height)
                ==> r is None && failure(final(self).failed) == Some(
                resized_text(
                    old(self).width as nat,
                    old(self).height as nat,
                    width as nat,
                    height as nat,
                ),
            ),
            old(self).failed is None && width == old(self).width && height == old(self).height
                && len < frame_bytes(width as nat, height as nat) ==> r is None && failure(
                final(self).failed,
            ) == Some("the picture was short"@),
            old(self).failed is None && width == old(self).width && height == old(self).height
                && len >= frame_bytes(width as nat, height as nat) ==> r == Some(
                frame_bytes(width as nat, height as nat) as usize,
            ) && final(self).failed is None,
    {
        if self.failed.is_some() {
            return None;
        }
        if width != self.width || height != self.height {
            let mut s = String::new();
            push_str(&mut s, "the picture changed size (");
            push_decimal(&mut s, self.width as u64);
            push_char(&mut s, 'x');
            push_decimal(&mut s, self.height as u64);
            push_str(&mut s, " to ");
            push_decimal(&mut s, width as u64);
            push_char(&mut s, 'x');
            push_decimal(&mut s, height as u64);
            push_char(&mut s, ')');
            assert(s@ =~= resized_text(
                self.width as nat,
                self.height as nat,
                width as nat,
                height as nat,
            ));
            self.failed = Some(s);
            return None;
        }
        assert(self.width * self.height * 4 <= usize::MAX) by (nonlinear_arith)
            requires
                frame_bytes(self.width as nat, self.height as nat) <= usize::MAX,
        ;
        assert(self.width * self.height <= usize::MAX) by (nonlinear_arith)
            requires
                self.width * self.height * 4 <= usize::MAX,
        ;
        let wanted = self.width * self.height * 4;
        if len < wanted {
            self.failed = Some("the picture was short".to_owned());
            return None;
        }
        Some(wanted)
    }

    /// A frame went to the encoder.
    pub fn wrote_frame(&mut self)
        requires
            old(self).frames < u64::MAX,
        ensures
            final(self).frames == old(self).frames + 1,
            final(self).width == old(self).width,
            final(self).height == old(self).height,
            final(self).samples == old(self).samples,
            failure(final(self).failed) == failure(old(self).failed),
    {
        self.frames = self.frames + 1;
    }

    /// `n` samples of sound went into the sound file.
    pub fn wrote_sound(&mut self, n: u64)
        requires
            old(self).samples + n <= u64::MAX,
        ensures
            final(self).samples == old(self).samples + n,
            final(self).width == old(self).width,
            final(self).height == old(self).height,
            final(self).frames == old(self).frames,
            failure(final(self).failed) == failure(old(self).failed),
    {
        self.samples = self.samples + n;
    }

    /// Something went wrong with the encoder: the recording stops taking
    /// frames, and says why when it is finished.
    pub fn fail(&mut self, why: String)
        ensures
            failure(final(self).failed) == Some(why@),
            final(self).width == old(self).width,
            final(self).height == old(self).height,
            final(self).frames == old(self).frames,
            final(self).samples == old(self).samples,
    {
        self.failed = Some(why);
    }
}

/// How waiting for the encoder to end went: it could not be waited for, with
/// why; or it ended, successfully or not, with what it said of itself.
pub enum EncoderEnded {
    Unwaited(String),
    Exited { success: bool, status: String },
}

/// What is done next in finishing a recording.
#[derive(Debug, PartialEq, Eq)]
pub enum FinishStep {
    /// Give up, leaving the working files as they are.
    Fail(String),
    /// Throw the working files away, and give up.
    TidyAndFail(String),
    /// Put the sound with the picture into the finished file, and say how
    /// that went.
    Mux,
    /// Keep the picture on its own as the finished file, throw the working
    /// files away, and give up: the sound could not be put with it.
    KeepPictureAndFail(String),
    /// Keep the picture on its own as the finished file and throw the
    /// working files away: done, with this many frames.
    KeepPictureAndFinish(u64),
    /// Throw the working files away: done, with this many frames.
    TidyAndFinish(u64),
}

/// The steps as text and numbers.
pub enum FinishStepView {
    Fail(Seq<char>),
    TidyAndFail(Seq<char>),
    Mux,
    KeepPictureAndFail(Seq<char>),
    KeepPictureAndFinish(u64),
    TidyAndFinish(u64),
}

impl View for FinishStep {
    type V = FinishStepView;

    open spec fn view(&self) -> FinishStepView {
        match self {
            FinishStep::Fail(s) => FinishStepView::Fail(s@),
            FinishStep::TidyAndFail(s) => FinishStepView::TidyAndFail(s@),
            FinishStep::Mux => FinishStepView::Mux,
            FinishStep::KeepPictureAndFail(s) => FinishStepView::KeepPictureAndFail(s@),
            FinishStep::KeepPictureAndFinish(n) => FinishStepView::KeepPictureAndFinish(*n),
            FinishStep::TidyAndFinish(n) => FinishStepView::TidyAndFinish(*n),
        }
    }
}

/// What follows the encoder's end: a recording that went wrong says why; an
/// encoder that failed says so; sound is put with the picture if there is any;
/// otherwise the picture is the file.
pub open spec fn after_encoder_step(r: RecordingState, ended: EncoderEnded) -> FinishStepView {
    match ended {
        EncoderEnded::Unwaited(why) => FinishStepView::Fail("waiting for ffmpeg: "@ + why@),
        EncoderEnded::Exited { success, status } => match r.failed {
            Some(why) => FinishStepView::TidyAndFail(why@),
            None => if !success {
                FinishStepView::TidyAndFail("ffmpeg gave up ("@ + status@ + ")"@)
            } else if r.samples > 0 {
                FinishStepView::Mux
            } else {
                FinishStepView::KeepPictureAndFinish(r.frames)
            },
        },
    }
}

/// What follows putting the sound with the picture.
pub open spec fn after_mux_step(r: RecordingState, muxed: bool) -> FinishStepView {
    if muxed {
        FinishStepView::TidyAndFinish(r.frames)
    } else {
        FinishStepView::KeepPictureAndFail("the sound could not be put with the picture"@)
    }
}

impl RecordingState {
    /// The step after the encoder has been told the picture is over and has
    /// been waited for.
    pub fn after_encoder(&self, ended: EncoderEnded) -> (r: FinishStep)
        ensures
            r@ == after_encoder_step(*self, ended),
    {
        match ended {
            EncoderEnded::Unwaited(why) => {
                let mut s = String::new();
                push_str(&mut s, "waiting for ffmpeg: ");
                push_str(&mut s, why.as_str());
                proof {
                    reveal_strlit("waiting for ffmpeg: ");
                }
                assert(s@ =~= "waiting for ffmpeg: "@ + why@);
                FinishStep::Fail(s)
            },
            EncoderEnded::Exited { success, status } => {
                match &self.failed {
                    Some(why) => FinishStep::TidyAndFail(why.clone()),
                    None => {
                        if !success {
                            let mut s = String::new();
                            push_str(&mut s, "ffmpeg gave up (");
                            push_str(&mut s, status.as_str());
                            push_str(&mut s, ")");
                            proof {
                                reveal_strlit("ffmpeg gave up (");
                                reveal_strlit(")");
                            }
                            assert(s@ =~= "ffmpeg gave up ("@ + status@ + ")"@);
                            FinishStep::TidyAndFail(s)
                        } else if self.samples > 0 {
                            FinishStep::Mux
                        } else {
                            FinishStep::KeepPictureAndFinish(self.frames)
                        }
                    },
                }
            },
        }
    }

    /// The step after the sound has been put with the picture, or has failed
    /// to be.
    pub fn after_mux(&self, muxed: bool) -> (r: FinishStep)
        ensures
            r@ == after_mux_step(*self, muxed),
    {
        if muxed {
            FinishStep::TidyAndFinish(self.frames)
        } else {
            FinishStep::KeepPictureAndFail("the sound could not be put with the picture".to_owned())
        }
    }
}

} // verus!
