use std::io::Cursor;
use webp_converter::codec::{
    after_decoding, after_encoding, conversion_error, convert_one, recode, CodecFailure, Picture,
};
use webp_converter::error::{ConversionError, ConversionErrorKind, ConversionOutcome};
use webp_converter::format::SourceFormat;
use webp_converter::job::{Action, Event, Job, Reply};
use webp_converter::path::FilePath;
use webp_converter::plan::{Plan, Step};
use webp_converter::runner::RunState;

fn path(parts: &[&str]) -> FilePath {
    FilePath::from_parts(parts.iter().map(|s| s.to_string()).collect())
}

fn sample(format: image::ImageFormat) -> Vec<u8> {
    let picture = image::RgbImage::from_fn(5, 3, |x, y| image::Rgb([(x * 40) as u8, (y * 70) as u8, 200]));
    let mut out = Cursor::new(Vec::new());
    image::DynamicImage::ImageRgb8(picture).write_to(&mut out, format).unwrap();
    out.into_inner()
}

fn two_step_plan() -> Plan {
    Plan {
        steps: vec![
            Step::EnsureDir { dir: path(&["out"]) },
            Step::Convert { source: path(&["in", "a.png"]), format: SourceFormat::Png, target: path(&["out", "a.webp"]) },
        ],
        verdict: Ok(()),
    }
}

fn is_webp(bytes: &[u8]) -> bool {
    bytes.len() >= 12 && &bytes[0..4] == b"RIFF" && &bytes[8..12] == b"WEBP"
}

#[test]
fn recode_turns_each_source_format_into_webp() {
    for (format, source) in [
        (SourceFormat::Png, image::ImageFormat::Png),
        (SourceFormat::Jpeg, image::ImageFormat::Jpeg),
        (SourceFormat::Bmp, image::ImageFormat::Bmp),
    ] {
        let bytes = sample(source);
        assert!(!is_webp(&bytes));
        let out = recode(&bytes, format).unwrap();
        assert!(is_webp(&out));
        assert_ne!(out, bytes);
        let back = image::load_from_memory_with_format(&out, image::ImageFormat::WebP).unwrap();
        assert_eq!((back.width(), back.height()), (5, 3));
    }
}

#[test]
fn recode_keeps_the_pixels_of_a_lossless_source() {
    let bytes = sample(image::ImageFormat::Png);
    let out = recode(&bytes, SourceFormat::Png).unwrap();
    let before = image::load_from_memory_with_format(&bytes, image::ImageFormat::Png).unwrap().to_rgb8();
    let after = image::load_from_memory_with_format(&out, image::ImageFormat::WebP).unwrap().to_rgb8();
    assert_eq!(before, after);
}

#[test]
fn recode_reports_bytes_that_are_no_image() {
    for bytes in [Vec::new(), b"not an image at all".to_vec()] {
        match recode(&bytes, SourceFormat::Png) {
            Err(CodecFailure::Decode { detail }) => assert!(!detail.is_empty()),
            other => panic!("expected a decode failure, got {:?}", other),
        }
    }
}

#[test]
fn recode_reads_by_the_stated_format_not_by_content() {
    let bytes = sample(image::ImageFormat::Png);
    assert!(matches!(recode(&bytes, SourceFormat::Jpeg), Err(CodecFailure::Decode { .. })));
    assert!(matches!(recode(&bytes, SourceFormat::Bmp), Err(CodecFailure::Decode { .. })));
}

#[test]
fn recode_reports_an_image_too_large_for_webp() {
    let wide = image::RgbImage::new(16385, 1);
    let mut out = Cursor::new(Vec::new());
    image::DynamicImage::ImageRgb8(wide).write_to(&mut out, image::ImageFormat::Bmp).unwrap();
    assert!(matches!(recode(&out.into_inner(), SourceFormat::Bmp), Err(CodecFailure::Encode { .. })));
}

#[test]
fn codec_failures_name_source_or_target() {
    let source = path(&["in", "a.png"]);
    let target = path(&["out", "a.webp"]);
    let decode = conversion_error(&CodecFailure::Decode { detail: "truncated".to_string() }, &source, &target);
    assert_eq!(decode, ConversionError::new(ConversionErrorKind::DecodeFailure, &source, "truncated"));
    let encode = conversion_error(&CodecFailure::Encode { detail: "too large".to_string() }, &source, &target);
    assert_eq!(encode, ConversionError::new(ConversionErrorKind::EncodeFailure, &target, "too large"));
}

#[test]
fn a_job_asks_for_each_step_in_turn() {
    let mut job = Job::new(two_step_plan());
    assert!(!job.is_finished());
    assert_eq!(job.outcome(), None);
    assert_eq!(job.next_action(), Action::MakeDir { dir: path(&["out"]) });
    job.handle(Reply::Done);
    assert_eq!(job.next_action(), Action::ReadFile { source: path(&["in", "a.png"]) });
    job.handle(Reply::Data { bytes: sample(image::ImageFormat::Png) });
    match job.next_action() {
        Action::WriteFile { target, bytes } => {
            assert_eq!(target, path(&["out", "a.webp"]));
            assert!(is_webp(&bytes));
        }
        other => panic!("expected a write, got {:?}", other),
    }
    job.handle(Reply::Done);
    assert!(job.is_finished());
    assert_eq!(job.next_action(), Action::Stop);
    assert_eq!(job.outcome(), Some(Ok(())));
}

#[test]
fn a_job_without_steps_is_finished_at_once() {
    let refusal = ConversionError::new(ConversionErrorKind::UnsupportedExtension, &path(&["a.gif"]), "no");
    let job = Job::new(Plan { steps: vec![], verdict: Err(refusal.clone()) });
    assert!(job.is_finished());
    assert_eq!(job.next_action(), Action::Stop);
    assert_eq!(job.outcome(), Some(Err(refusal)));
}

#[test]
fn a_job_ends_with_the_verdict_of_its_plan() {
    let refusal = ConversionError::new(ConversionErrorKind::InvalidFileName, &path(&[".."]), "no name");
    let mut plan = two_step_plan();
    plan.verdict = Err(refusal.clone());
    let mut job = Job::new(plan);
    job.advance(Event::Done);
    job.advance(Event::Encoded { bytes: vec![1, 2, 3] });
    assert_eq!(job.next_action(), Action::WriteFile { target: path(&["out", "a.webp"]), bytes: vec![1, 2, 3] });
    job.advance(Event::Done);
    assert_eq!(job.outcome(), Some(Err(refusal)));
}

#[test]
fn a_failed_directory_ends_the_job() {
    let mut job = Job::new(two_step_plan());
    job.handle(Reply::Failed { detail: "read-only disk".to_string() });
    assert_eq!(job.next_action(), Action::Stop);
    assert_eq!(
        job.outcome(),
        Some(Err(ConversionError::new(ConversionErrorKind::DirectoryCreationFailure, &path(&["out"]), "read-only disk")))
    );
    job.handle(Reply::Done);
    job.advance(Event::Encoded { bytes: vec![9] });
    assert_eq!(job.next_action(), Action::Stop);
    assert_eq!(job.outcome().unwrap().unwrap_err().kind, ConversionErrorKind::DirectoryCreationFailure);
}

#[test]
fn a_failed_read_is_a_decode_failure_of_the_source() {
    let mut job = Job::new(two_step_plan());
    job.handle(Reply::Done);
    job.handle(Reply::Failed { detail: "no such file".to_string() });
    assert_eq!(
        job.outcome(),
        Some(Err(ConversionError::new(ConversionErrorKind::DecodeFailure, &path(&["in", "a.png"]), "no such file")))
    );
}

#[test]
fn undecodable_bytes_are_a_decode_failure_of_the_source() {
    let mut job = Job::new(two_step_plan());
    job.handle(Reply::Done);
    job.handle(Reply::Data { bytes: b"garbage".to_vec() });
    let error = job.outcome().unwrap().unwrap_err();
    assert_eq!(error.kind, ConversionErrorKind::DecodeFailure);
    assert_eq!(error.path, path(&["in", "a.png"]));
}

#[test]
fn an_unencodable_image_is_an_encode_failure_of_the_target() {
    let mut job = Job::new(two_step_plan());
    job.advance(Event::Done);
    job.advance(Event::Unconvertible { failure: CodecFailure::Encode { detail: "too wide".to_string() } });
    assert_eq!(
        job.outcome(),
        Some(Err(ConversionError::new(ConversionErrorKind::EncodeFailure, &path(&["out", "a.webp"]), "too wide")))
    );
}

#[test]
fn a_failed_write_is_an_encode_failure_of_the_target() {
    let mut job = Job::new(two_step_plan());
    job.handle(Reply::Done);
    job.handle(Reply::Data { bytes: sample(image::ImageFormat::Png) });
    job.handle(Reply::Failed { detail: "disk full".to_string() });
    assert_eq!(
        job.outcome(),
        Some(Err(ConversionError::new(ConversionErrorKind::EncodeFailure, &path(&["out", "a.webp"]), "disk full")))
    );
}

#[test]
fn replies_that_answer_nothing_are_ignored() {
    let mut job = Job::new(two_step_plan());
    job.handle(Reply::Data { bytes: vec![1, 2, 3] });
    assert_eq!(job.next_action(), Action::MakeDir { dir: path(&["out"]) });
    job.advance(Event::Unconvertible { failure: CodecFailure::Decode { detail: "x".to_string() } });
    assert_eq!(job.next_action(), Action::MakeDir { dir: path(&["out"]) });
    job.handle(Reply::Done);
    job.handle(Reply::Done);
    assert_eq!(job.next_action(), Action::ReadFile { source: path(&["in", "a.png"]) });
    job.advance(Event::Encoded { bytes: vec![7] });
    job.advance(Event::Encoded { bytes: vec![8] });
    job.handle(Reply::Data { bytes: vec![9] });
    assert_eq!(job.next_action(), Action::WriteFile { target: path(&["out", "a.webp"]), bytes: vec![7] });
}

#[test]
fn an_outcome_is_taken_exactly_once() {
    let mut slot = RunState::new();
    assert!(!slot.is_running());
    assert_eq!(slot.poll(), None);
    assert!(slot.begin());
    assert!(slot.is_running());
    assert_eq!(slot.poll(), None);
    assert!(slot.publish(Ok(())));
    assert!(slot.is_running());
    assert_eq!(slot.poll(), Some(Ok(())));
    assert!(!slot.is_running());
    assert_eq!(slot.poll(), None);
    assert_eq!(slot.poll(), None);
}

#[test]
fn the_slot_refuses_what_is_out_of_turn() {
    let failure: ConversionOutcome =
        Err(ConversionError::new(ConversionErrorKind::DecodeFailure, &path(&["a.png"]), "bad"));
    let mut slot = RunState::new();
    assert!(!slot.publish(Ok(())));
    assert_eq!(slot.poll(), None);
    assert!(slot.begin());
    assert!(!slot.begin());
    assert!(slot.publish(failure));
    assert!(!slot.publish(Ok(())));
    assert!(!slot.begin());
    let taken = slot.poll().unwrap();
    assert_eq!(taken.unwrap_err().kind, ConversionErrorKind::DecodeFailure);
    assert!(slot.begin());
    assert!(slot.publish(Ok(())));
    assert_eq!(slot.poll(), Some(Ok(())));
}

#[test]
fn convert_one_refuses_an_unsupported_extension_before_reading() {
    let bytes = sample(image::ImageFormat::Png);
    for name in ["a.gif", "a.txt", "a", ".."] {
        let error = convert_one(&path(&["in", name]), &path(&["out", "a.webp"]), &bytes).unwrap_err();
        assert_eq!(error.kind, ConversionErrorKind::UnsupportedExtension);
        assert_eq!(error.path, path(&["in", name]));
        assert_eq!(error.detail, "seuls les fichiers png, jpg, jpeg et bmp peuvent être convertis");
    }
}

#[test]
fn convert_one_converts_by_the_extension() {
    let out = convert_one(&path(&["in", "a.PNG"]), &path(&["out", "a.webp"]), &sample(image::ImageFormat::Png)).unwrap();
    assert!(is_webp(&out));
    let out = convert_one(&path(&["in", "a.jpeg"]), &path(&["out", "a.webp"]), &sample(image::ImageFormat::Jpeg)).unwrap();
    assert!(is_webp(&out));
    let error = convert_one(&path(&["in", "a.bmp"]), &path(&["out", "a.webp"]), &sample(image::ImageFormat::Png)).unwrap_err();
    assert_eq!(error.kind, ConversionErrorKind::DecodeFailure);
    assert_eq!(error.path, path(&["in", "a.bmp"]));
}

fn broken(text: &str) -> image::ImageError {
    image::ImageError::IoError(std::io::Error::new(std::io::ErrorKind::Other, text.to_string()))
}

#[test]
fn the_result_of_the_encoder_is_handed_on() {
    assert_eq!(after_encoding(Ok(vec![1, 2, 3])), Ok(vec![1, 2, 3]));
    assert_eq!(after_encoding(Ok(Vec::new())), Ok(Vec::new()));
    assert_eq!(
        after_encoding(Err(broken("no room"))),
        Err(CodecFailure::Encode { detail: "no room".to_string() })
    );
}

#[test]
fn the_result_of_the_decoder_decides_the_failure() {
    assert_eq!(
        after_decoding(Err(broken("cut short"))),
        Err(CodecFailure::Decode { detail: "cut short".to_string() })
    );
    let png = sample(image::ImageFormat::Png);
    let out = after_decoding(Picture::decode(&png, SourceFormat::Png)).unwrap();
    assert!(is_webp(&out));
    assert_eq!(Ok(out), recode(&png, SourceFormat::Png));
    assert!(matches!(
        after_decoding(Picture::decode(b"cut short", SourceFormat::Png)),
        Err(CodecFailure::Decode { .. })
    ));
    let mut wide = Cursor::new(Vec::new());
    image::DynamicImage::new_rgb8(16385, 1).write_to(&mut wide, image::ImageFormat::Bmp).unwrap();
    assert!(matches!(
        after_decoding(Picture::decode(&wide.into_inner(), SourceFormat::Bmp)),
        Err(CodecFailure::Encode { .. })
    ));
}

#[test]
fn a_picture_comes_only_from_bytes_that_decode() {
    assert!(Picture::decode(&sample(image::ImageFormat::Jpeg), SourceFormat::Jpeg).is_ok());
    assert!(Picture::decode(&sample(image::ImageFormat::Jpeg), SourceFormat::Png).is_err());
    assert!(Picture::decode(&[], SourceFormat::Bmp).is_err());
}

#[test]
fn the_same_source_gives_the_same_bytes() {
    for (format, source) in [
        (SourceFormat::Png, image::ImageFormat::Png),
        (SourceFormat::Jpeg, image::ImageFormat::Jpeg),
        (SourceFormat::Bmp, image::ImageFormat::Bmp),
    ] {
        let bytes = sample(source);
        assert_eq!(recode(&bytes, format), recode(&bytes.clone(), format));
    }
    assert_eq!(recode(b"nothing", SourceFormat::Png), recode(b"nothing", SourceFormat::Png));
}

#[test]
fn a_job_writes_what_recode_gives() {
    let bytes = sample(image::ImageFormat::Png);
    let mut job = Job::new(two_step_plan());
    job.handle(Reply::Done);
    job.handle(Reply::Data { bytes: bytes.clone() });
    assert_eq!(
        job.next_action(),
        Action::WriteFile { target: path(&["out", "a.webp"]), bytes: recode(&bytes, SourceFormat::Png).unwrap() }
    );
    assert_eq!(
        convert_one(&path(&["in", "a.png"]), &path(&["out", "a.webp"]), &bytes).unwrap(),
        recode(&bytes, SourceFormat::Png).unwrap()
    );
}
