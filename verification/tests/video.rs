use zx_rustrum::video_out::{
    arguments, beside, mux_arguments, EncoderEnded, FinishStep, RecordingState, FFMPEG, OUT_H,
    OUT_W,
};

#[test]
fn encoder_arguments() {
    let args = arguments(352, 296, (1284, 1080), 50_080, false, "out/video.mp4");
    assert_eq!(
        args,
        vec![
            "-y", "-f", "rawvideo", "-pixel_format", "rgba", "-video_size", "352x296",
            "-framerate", "50.080", "-i", "-", "-vf",
            "scale=1284:1080:flags=neighbor,pad=1920:1080:318:0:black",
            "-c:v", "libx264", "-preset", "veryfast", "-crf", "18", "-pix_fmt", "yuv420p",
            "out/video.mp4",
        ]
    );
}

#[test]
fn smooth_scaling_and_small_frame_rates() {
    let args = arguments(320, 240, (1440, 1080), 7, true, "v.mp4");
    assert_eq!(args[8], "0.007");
    assert_eq!(args[12], "scale=1440:1080:flags=lanczos,pad=1920:1080:240:0:black");
}

#[test]
fn mux_arguments_join_sound_and_picture() {
    let args = mux_arguments("a/.x.video.mp4", "a/.x.audio.f32", 44100, "a/x.mp4");
    assert_eq!(
        args,
        vec![
            "-y", "-i", "a/.x.video.mp4", "-f", "f32le", "-ar", "44100", "-ac", "1", "-i",
            "a/.x.audio.f32", "-c:v", "copy", "-c:a", "aac", "-b:a", "192k", "-shortest",
            "a/x.mp4",
        ]
    );
}

#[test]
fn working_files_go_beside() {
    assert_eq!(beside("films/jetpac.mp4", "video.mp4"), "films/.jetpac.video.mp4");
    assert_eq!(beside("jetpac.mp4", "audio.f32"), ".jetpac.audio.f32");
    assert_eq!(beside("/", "audio.f32"), "/.recording.audio.f32");
}

#[test]
fn constants() {
    assert_eq!(FFMPEG, "ffmpeg");
    assert_eq!((OUT_W, OUT_H), (1920, 1080));
}

#[test]
fn frames_of_the_right_size_are_written() {
    let mut r = RecordingState::new(2, 2);
    assert_eq!(r.frame(20, 2, 2), Some(16));
    r.wrote_frame();
    assert_eq!(r.frames, 1);
    assert!(r.failed.is_none());
}

#[test]
fn a_frame_of_another_size_stops_the_recording() {
    let mut r = RecordingState::new(352, 296);
    assert_eq!(r.frame(1_000_000, 320, 240), None);
    assert_eq!(r.failed.as_deref(), Some("the picture changed size (352x296 to 320x240)"));
    // Nothing goes in once something has failed, even the right size.
    assert_eq!(r.frame(1_000_000, 352, 296), None);
    assert_eq!(r.failed.as_deref(), Some("the picture changed size (352x296 to 320x240)"));
}

#[test]
fn a_short_frame_is_refused() {
    let mut r = RecordingState::new(4, 4);
    assert_eq!(r.frame(63, 4, 4), None);
    assert_eq!(r.failed.as_deref(), Some("the picture was short"));
}

#[test]
fn sound_and_failures_are_counted() {
    let mut r = RecordingState::new(1, 1);
    r.wrote_sound(480);
    r.wrote_sound(20);
    assert_eq!(r.samples, 500);
    r.fail("the encoder is not listening".to_string());
    assert_eq!(r.frame(4, 1, 1), None);
    assert_eq!(r.failed.as_deref(), Some("the encoder is not listening"));
}

#[test]
fn finishing_a_recording() {
    let mut r = RecordingState::new(4, 2);
    r.wrote_frame();
    assert_eq!(
        r.after_encoder(EncoderEnded::Unwaited("gone".to_string())),
        FinishStep::Fail("waiting for ffmpeg: gone".to_string())
    );
    let ok = || EncoderEnded::Exited { success: true, status: "exit status: 0".to_string() };
    assert_eq!(r.after_encoder(ok()), FinishStep::KeepPictureAndFinish(1));
    assert_eq!(
        r.after_encoder(EncoderEnded::Exited { success: false, status: "exit status: 1".to_string() }),
        FinishStep::TidyAndFail("ffmpeg gave up (exit status: 1)".to_string())
    );
    r.wrote_sound(10);
    assert_eq!(r.after_encoder(ok()), FinishStep::Mux);
    assert_eq!(r.after_mux(true), FinishStep::TidyAndFinish(1));
    assert_eq!(
        r.after_mux(false),
        FinishStep::KeepPictureAndFail("the sound could not be put with the picture".to_string())
    );
    r.fail("could not write a frame".to_string());
    assert_eq!(
        r.after_encoder(ok()),
        FinishStep::TidyAndFail("could not write a frame".to_string())
    );
}
