use std::hash::{DefaultHasher, Hash, Hasher};
use std::path::Path;

use rav1an::batch::{encode_job, job_outcome, BatchDriver, FileOutcome, JobError};
use rav1an::config::{get_encode_args, video_params, Cli, ConfigError, Encoder};
use rav1an::digits::{decimal_of, hex_token_of};
use rav1an::discovery::{file_name_of, is_video_file, select_videos};
use rav1an::hash::hash_path;
use rav1an::paths::{get_output_path, split_parts, MappingError};

fn expected_token(p: &str) -> String {
    let mut s = DefaultHasher::new();
    Path::new(p).hash(&mut s);
    let hex = format!("{:x}", s.finish());
    if hex.len() >= 7 {
        hex[..7].to_string()
    } else {
        format!("{:0>7}", hex)
    }
}

fn cli(input: &str, output: &str) -> Cli {
    let mut c = Cli::default();
    c.input = input.to_string();
    c.output = output.to_string();
    c
}

#[test]
fn hash_is_seven_lowercase_hex_digits() {
    for p in ["/videos/a.mkv", "/", "/a/b/c/d.mp4", "/ünïcode/ファイル.mkv"] {
        let h = hash_path(p);
        assert_eq!(h.len(), 7);
        assert!(h.chars().all(|c| c.is_ascii_digit() || ('a'..='f').contains(&c)));
    }
}

#[test]
fn hash_is_deterministic() {
    assert_eq!(hash_path("/videos/a.mkv"), hash_path("/videos/a.mkv"));
    assert_eq!(hash_path("/videos/sub/b.mp4"), hash_path(&String::from("/videos/sub/b.mp4")));
}

#[test]
fn hash_matches_default_hasher_of_path() {
    for p in ["/videos/a.mkv", "/videos/sub/b.mp4", "/x"] {
        assert_eq!(hash_path(p), expected_token(p));
    }
    assert_ne!(hash_path("/videos/a.mkv"), hash_path("/videos/b.mkv"));
}

#[test]
fn hex_token_takes_leading_digits() {
    assert_eq!(hex_token_of(0x1234_5678_9abc_def0), "1234567");
    assert_eq!(hex_token_of(0xfedc_ba98), "fedcba9");
    assert_eq!(hex_token_of(0x0abc_def1), "abcdef1");
    assert_eq!(hex_token_of(u64::MAX), "fffffff");
}

#[test]
fn hex_token_pads_short_values() {
    assert_eq!(hex_token_of(0), "0000000");
    assert_eq!(hex_token_of(0xabc), "0000abc");
}

#[test]
fn decimal_text_of_numbers() {
    assert_eq!(decimal_of(0), "0");
    assert_eq!(decimal_of(7), "7");
    assert_eq!(decimal_of(30), "30");
    assert_eq!(decimal_of(1_000_203), "1000203");
    assert_eq!(decimal_of(u64::MAX), u64::MAX.to_string());
}

#[test]
fn output_path_rerooted() {
    assert_eq!(get_output_path("/videos", "/out", "/videos/a.mkv"), Ok("/out/a.mkv".to_string()));
    assert_eq!(
        get_output_path("/videos", "/out", "/videos/sub/b.mp4"),
        Ok("/out/sub/b.mp4".to_string())
    );
    assert_eq!(
        get_output_path("./input", "./output", "./input/x/y/z.mkv"),
        Ok("./output/x/y/z.mkv".to_string())
    );
}

#[test]
fn output_path_trailing_separators() {
    assert_eq!(get_output_path("/videos/", "/out", "/videos/a.mkv"), Ok("/out/a.mkv".to_string()));
    assert_eq!(get_output_path("/videos", "/out/", "/videos/a.mkv"), Ok("/out/a.mkv".to_string()));
    assert_eq!(get_output_path("/videos", "/out", "/videos//a.mkv"), Ok("/out/a.mkv".to_string()));
}

#[test]
fn output_path_of_root_itself() {
    assert_eq!(get_output_path("/videos", "/out", "/videos"), Ok("/out".to_string()));
    assert_eq!(get_output_path("/videos/", "/out", "/videos"), Ok("/out".to_string()));
    assert_eq!(get_output_path("/videos", "/out", "/videos/"), Ok("/out".to_string()));
    assert_eq!(get_output_path("/videos/.", "/out", "/videos"), Ok("/out".to_string()));
}

#[test]
fn output_path_compares_components() {
    assert_eq!(get_output_path("/videos//sub", "/out", "/videos/sub/a.mkv"), Ok("/out/a.mkv".to_string()));
    assert_eq!(get_output_path("/videos/.", "/out", "/videos/a.mkv"), Ok("/out/a.mkv".to_string()));
    assert_eq!(get_output_path("/videos", "/out", "/videos/./sub//b.mp4"), Ok("/out/sub/b.mp4".to_string()));
    assert_eq!(get_output_path("/videos", "/out", "videos/a.mkv"), Err(MappingError::NotUnderRoot));
    assert_eq!(get_output_path("./input", "/out", "input/a.mkv"), Err(MappingError::NotUnderRoot));
    assert_eq!(get_output_path("input", "out", "input/a.mkv"), Ok("out/a.mkv".to_string()));
}

#[test]
fn path_components() {
    assert_eq!(split_parts("/videos//sub/./a.mkv/"), vec!["videos", "sub", "a.mkv"]);
    assert_eq!(split_parts("./x/../y"), vec!["x", "..", "y"]);
    assert!(split_parts("/").is_empty());
    assert!(split_parts("").is_empty());
}

#[test]
fn output_path_not_under_root() {
    assert_eq!(get_output_path("/videos", "/out", "/other/a.mkv"), Err(MappingError::NotUnderRoot));
    assert_eq!(get_output_path("/videos", "/out", "/videos2/a.mkv"), Err(MappingError::NotUnderRoot));
    assert_eq!(get_output_path("/videos/sub", "/out", "/videos"), Err(MappingError::NotUnderRoot));
}

#[test]
fn file_name_is_last_component() {
    assert_eq!(file_name_of("/videos/sub/b.mp4"), "b.mp4");
    assert_eq!(file_name_of("a.mkv"), "a.mkv");
    assert_eq!(file_name_of("/videos/sub/"), "");
}

#[test]
fn video_extension_matching_is_case_sensitive() {
    assert!(is_video_file("/t/a.mkv"));
    assert!(is_video_file("/t/sub/b.mp4"));
    assert!(!is_video_file("/t/sub/c.txt"));
    assert!(!is_video_file("/t/sub/d.MKV"));
    assert!(!is_video_file("/t/a.mkv/"));
    assert!(!is_video_file("/t/mkv"));
}

#[test]
fn discovery_keeps_only_videos() {
    let entries: Vec<String> = ["/t", "/t/a.mkv", "/t/sub", "/t/sub/b.mp4", "/t/sub/c.txt", "/t/sub/d.MKV"]
        .iter()
        .map(|s| s.to_string())
        .collect();
    assert_eq!(select_videos(&entries), vec!["/t/a.mkv".to_string(), "/t/sub/b.mp4".to_string()]);
    let other: Vec<String> = ["/media/x", "/media/x/a.mkv", "/media/x/sub/b.mp4", "/media/x/sub/c.txt", "/media/x/sub/d.MKV"]
        .iter()
        .map(|s| s.to_string())
        .collect();
    assert_eq!(select_videos(&other), vec!["/media/x/a.mkv".to_string(), "/media/x/sub/b.mp4".to_string()]);
    assert!(select_videos(&Vec::new()).is_empty());
}

#[test]
fn default_settings() {
    let c = Cli::default();
    assert_eq!(c.input, "./input");
    assert_eq!(c.output, "./output");
    assert_eq!((c.crf, c.preset, c.tune), (23, 3, 3));
    assert_eq!(c.ph, None);
    assert!(!c.chroma_noise);
    assert_eq!(c.fg, None);
    assert!(!c.fgd);
}

#[test]
fn crf_reaches_rate_control() {
    let mut c = cli("/videos", "/out");
    c.crf = 30;
    let args = get_encode_args(&c, "/videos/a.mkv", "/out/a.mkv".to_string(), Some("yuv420p".to_string()))
        .unwrap();
    let at = args.video_params.iter().position(|p| p == "--crf").unwrap();
    assert_eq!(args.video_params[at + 1], "30");
}

#[test]
fn video_params_follow_settings() {
    let mut c = cli("/videos", "/out");
    c.preset = 6;
    c.tune = 0;
    assert_eq!(video_params(&c), vec!["--preset", "6", "--tune", "0", "--crf", "23", "--lp", "2"]);
    c.fg = Some(12);
    c.fgd = true;
    assert_eq!(
        video_params(&c),
        vec!["--preset", "6", "--tune", "0", "--crf", "23", "--lp", "2", "--film-grain", "12", "--film-grain-denoise", "1"]
    );
    c.fgd = false;
    assert_eq!(video_params(&c)[11], "0");
}

#[test]
fn denoise_without_grain_amount() {
    let mut c = cli("/videos", "/out");
    c.fgd = true;
    assert_eq!(
        video_params(&c),
        vec!["--preset", "3", "--tune", "3", "--crf", "23", "--lp", "2", "--film-grain-denoise", "1"]
    );
    let args = get_encode_args(&c, "/videos/a.mkv", "/out/a.mkv".to_string(), Some("yuv420p".to_string()))
        .unwrap();
    let at = args.video_params.iter().position(|p| p == "--film-grain-denoise").unwrap();
    assert_eq!(args.video_params[at + 1], "1");
    c.fgd = false;
    assert!(!video_params(&c).iter().any(|p| p.starts_with("--film-grain")));
}

#[test]
fn configuration_fields() {
    let mut c = cli("/videos", "/out");
    c.ph = Some(8);
    c.chroma_noise = true;
    let a = get_encode_args(&c, "/videos/a.mkv", "/out/a.mkv".to_string(), Some("yuv420p".to_string()))
        .unwrap();
    let work = format!(".{}", hash_path("/videos/a.mkv"));
    assert_eq!(a.input, "/videos/a.mkv");
    assert_eq!(a.output_file, "/out/a.mkv");
    assert_eq!(a.temp, work);
    assert_eq!(a.log_file, format!("{}/log.log", work));
    assert_eq!(a.photon_noise, Some(8));
    assert!(a.chroma_noise);
    assert_eq!(a.input_pix_format, "yuv420p");
    assert_eq!(a.output_pix_format, "yuv420p10le");
    assert_eq!(a.output_bit_depth, 10);
    assert_eq!(a.encoder, Encoder::SvtAv1);
    assert_eq!(a.passes, 1);
    assert_eq!(a.sc_downscale_height, Some(480));
    assert_eq!(a.extra_splits_len, Some(240));
    assert_eq!(a.min_scene_len, 240);
    assert_eq!(a.audio_params, vec!["-c:a libopus -b:a 128k"]);
    assert_eq!(a.scaler, "bicubic+accurate_rnd+full_chroma_int+full_chroma_inp+bitexact");
    assert!(a.resume && !a.keep && !a.force);
    assert!(!a.target_quality);
    assert_eq!(a.scenes, None);
    assert_eq!(a.zones, None);
    assert!(a.force_keyframes.is_empty());
    assert!(a.ffmpeg_filter_args.is_empty());
}

#[test]
fn missing_pixel_format_fails() {
    let c = cli("/videos", "/out");
    let r = get_encode_args(&c, "/videos/a.mkv", "/out/a.mkv".to_string(), None);
    assert_eq!(r.err(), Some(ConfigError::PixelFormatUnavailable));
}

#[test]
fn job_errors() {
    let c = cli("/videos", "/out");
    assert_eq!(encode_job(&c, "/elsewhere/a.mkv", Some("yuv420p".to_string())).err(), Some(JobError::NotUnderRoot));
    assert_eq!(encode_job(&c, "/elsewhere/a.mkv", None).err(), Some(JobError::NotUnderRoot));
    assert_eq!(encode_job(&c, "/videos/a.mkv", None).err(), Some(JobError::PixelFormatUnavailable));
    assert_eq!(job_outcome(JobError::NotUnderRoot), FileOutcome::NotUnderRoot);
    assert_eq!(job_outcome(JobError::PixelFormatUnavailable), FileOutcome::PixelFormatUnavailable);
}

fn run_batch(c: &Cli, files: Vec<String>) -> Vec<(String, String)> {
    let mut driver = BatchDriver::new(files, false);
    let mut out = Vec::new();
    while let Some(f) = driver.current().cloned() {
        let job = encode_job(c, &f, Some("yuv420p".to_string())).unwrap();
        out.push((job.output_file, job.temp));
        driver.record(FileOutcome::Encoded);
    }
    assert!(driver.is_finished());
    assert!(!driver.any_failed());
    out
}

#[test]
fn end_to_end_batch() {
    let c = cli("/videos", "/out");
    let entries: Vec<String> = ["/videos", "/videos/a.mkv", "/videos/sub", "/videos/sub/b.mp4"]
        .iter()
        .map(|s| s.to_string())
        .collect();
    let jobs = run_batch(&c, select_videos(&entries));
    assert_eq!(
        jobs,
        vec![
            ("/out/a.mkv".to_string(), format!(".{}", hash_path("/videos/a.mkv"))),
            ("/out/sub/b.mp4".to_string(), format!(".{}", hash_path("/videos/sub/b.mp4"))),
        ]
    );
}

#[test]
fn second_run_repeats_the_first() {
    let c = cli("/videos", "/out");
    let files = vec!["/videos/a.mkv".to_string(), "/videos/sub/b.mp4".to_string()];
    assert_eq!(run_batch(&c, files.clone()), run_batch(&c, files));
}

#[test]
fn strict_batch_stops_at_first_failure() {
    let files = vec!["/v/a.mkv".to_string(), "/v/b.mkv".to_string(), "/v/c.mkv".to_string()];
    let mut d = BatchDriver::new(files, false);
    assert_eq!(d.current().map(|s| s.as_str()), Some("/v/a.mkv"));
    d.record(FileOutcome::Encoded);
    assert_eq!(d.current().map(|s| s.as_str()), Some("/v/b.mkv"));
    d.record(FileOutcome::EngineFailed);
    assert!(d.current().is_none());
    assert!(d.is_finished());
    assert!(d.any_failed());
    let s = d.summary();
    assert_eq!((s.succeeded, s.engine_failed, s.skipped), (1, 1, 1));
}

#[test]
fn lenient_batch_counts_each_failure() {
    let files = vec!["/v/a.mkv".to_string(), "/v/b.mkv".to_string(), "/v/c.mkv".to_string(), "/v/d.mkv".to_string(), "/v/e.mkv".to_string()];
    let mut d = BatchDriver::new(files, true);
    d.record(FileOutcome::NotUnderRoot);
    d.record(FileOutcome::PixelFormatUnavailable);
    d.record(FileOutcome::ConfigAssemblyFailed);
    assert!(!d.is_finished());
    d.record(FileOutcome::EngineFailed);
    assert!(!d.is_finished());
    d.record(FileOutcome::Encoded);
    assert!(d.is_finished());
    let s = d.summary();
    assert_eq!(
        (s.succeeded, s.not_under_root, s.pixel_format_unavailable, s.config_assembly_failed, s.engine_failed, s.skipped),
        (1, 1, 1, 1, 1, 0)
    );
}

#[test]
fn empty_batch_is_finished() {
    let d = BatchDriver::new(Vec::new(), false);
    assert!(d.is_finished());
    assert!(!d.any_failed());
    assert_eq!(d.summary().skipped, 0);
}
