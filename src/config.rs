use vstd::prelude::*;

use crate::digits::decimal_of;
use crate::digits::decimal_text;
use crate::hash::{hash_path, path_token};

verus! {

/// The batch-wide settings of one run.
pub struct Cli {
    /// Folder whose videos are encoded.
    pub input: String,
    /// Folder that receives the encoded videos, in the same layout.
    pub output: String,
    /// Constant rate factor.
    pub crf: usize,
    /// Encoder speed preset.
    pub preset: usize,
    /// Encoder tune.
    pub tune: usize,
    /// Photon noise amount.
    pub ph: Option<u8>,
    /// Photon noise on the chroma planes too.
    pub chroma_noise: bool,
    /// Film grain amount.
    pub fg: Option<usize>,
    /// Film grain denoising.
    pub fgd: bool,
}

impl Default for Cli {
    fn default() -> (r: Cli)
        ensures
            r.input@ == "./input"@,
            r.output@ == "./output"@,
            r.crf == 23,
            r.preset == 3,
            r.tune == 3,
            r.ph is None,
            !r.chroma_noise,
            r.fg is None,
            !r.fgd,
    {
        Cli {
            input: String::from_str("./input"),
            output: String::from_str("./output"),
            crf: 23,
            preset: 3,
            tune: 3,
            ph: None,
            chroma_noise: false,
            fg: None,
            fgd: false,
        }
    }
}

/// How the engine reads chunks of the source.
#[derive(Debug, Clone, Copy, PartialEq, Eq, Structural)]
pub enum ChunkMethod {
    Select,
    Hybrid,
    Segment,
    Ffms2,
    Lsmash,
    DgDecNv,
    BestSource,
}

/// In which order the engine encodes chunks.
#[derive(Debug, Clone, Copy, PartialEq, Eq, Structural)]
pub enum ChunkOrdering {
    LongestFirst,
    ShortestFirst,
    Sequential,
    Random,
}

/// How the source is split into scenes.
#[derive(Debug, Clone, Copy, PartialEq, Eq, Structural)]
pub enum SplitMethod {
    AvScenechange,
    NoSplit,
}

/// How thoroughly scene changes are searched for.
#[derive(Debug, Clone, Copy, PartialEq, Eq, Structural)]
pub enum ScenecutMethod {
    Fast,
    Standard,
}

/// The encoder the engine runs.
#[derive(Debug, Clone, Copy, PartialEq, Eq, Structural)]
pub enum Encoder {
    Aom,
    Rav1e,
    Vpx,
    SvtAv1,
    X264,
    X265,
}

/// How encoded chunks are joined.
#[derive(Debug, Clone, Copy, PartialEq, Eq, Structural)]
pub enum ConcatMethod {
    MkvMerge,
    FFmpeg,
    Ivf,
}

/// How much the engine reports.
#[derive(Debug, Clone, Copy, PartialEq, Eq, Structural)]
pub enum Verbosity {
    Verbose,
    Normal,
    Quiet,
}

/// The number of passes an encoder makes by default.
pub open spec fn default_passes(e: Encoder) -> u8 {
    match e {
        Encoder::Aom | Encoder::Vpx => 2,
        _ => 1,
    }
}

/// Why a file's configuration could not be built.
#[derive(Debug, Clone, Copy, PartialEq, Eq, Structural)]
pub enum ConfigError {
    /// The input's pixel format could not be read from the media.
    PixelFormatUnavailable,
}

/// Everything the encoding engine needs for one file.
pub struct EncodeConfiguration {
    pub input: String,
    pub temp: String,
    pub output_file: String,
    pub chunk_method: ChunkMethod,
    pub chunk_order: ChunkOrdering,
    pub scaler: String,
    /// A file of scene boundaries to use in place of detection.
    pub scenes: Option<String>,
    pub split_method: SplitMethod,
    pub sc_method: ScenecutMethod,
    pub sc_only: bool,
    pub sc_downscale_height: Option<usize>,
    pub extra_splits_len: Option<usize>,
    pub min_scene_len: usize,
    /// Frames that must start a scene.
    pub force_keyframes: Vec<usize>,
    pub ignore_frame_mismatch: bool,
    pub max_tries: usize,
    pub passes: u8,
    pub video_params: Vec<String>,
    pub encoder: Encoder,
    pub workers: usize,
    pub set_thread_affinity: Option<usize>,
    pub photon_noise: Option<u8>,
    pub chroma_noise: bool,
    /// A file of per-range encoder settings.
    pub zones: Option<String>,
    /// Filter arguments handed to ffmpeg when it decodes the input.
    pub ffmpeg_filter_args: Vec<String>,
    pub audio_params: Vec<String>,
    /// Name of the input's pixel format, as the media reports it.
    pub input_pix_format: String,
    /// Name of the pixel format that is encoded.
    pub output_pix_format: String,
    pub output_bit_depth: usize,
    pub verbosity: Verbosity,
    pub log_file: String,
    pub resume: bool,
    pub keep: bool,
    pub force: bool,
    pub concat: ConcatMethod,
    /// Whether the engine searches for the quantizer that meets a quality
    /// target; when off, the crf among the encoder arguments rules.
    pub target_quality: bool,
}

/// The hidden work directory of the file `input`: `.` and its token.
pub open spec fn work_dir(input: Seq<char>) -> Seq<char> {
    seq!['.'] + path_token(input)
}

/// The encoder arguments for the settings `cli`, in this order: preset, tune,
/// crf, two threads per worker, then the film grain amount when one is set,
/// then film grain denoising (`1` on, `0` off) when it is on or a grain
/// amount is set.
pub open spec fn video_params_of(cli: Cli) -> Seq<Seq<char>> {
    let base = seq![
        "--preset"@,
        decimal_text(cli.preset as nat),
        "--tune"@,
        decimal_text(cli.tune as nat),
        "--crf"@,
        decimal_text(cli.crf as nat),
        "--lp"@,
        "2"@,
    ];
    let grain = match cli.fg {
        Some(g) => seq!["--film-grain"@, decimal_text(g as nat)],
        None => Seq::empty(),
    };
    let denoise = if cli.fgd {
        seq!["--film-grain-denoise"@, "1"@]
    } else if cli.fg is Some {
        seq!["--film-grain-denoise"@, "0"@]
    } else {
        Seq::empty()
    };
    base + grain + denoise
}

/// `c` is the configuration for the file `input`, written to `output`, whose
/// pixel format is `pix`, under the settings `cli`.
pub open spec fn is_config_for(
    c: EncodeConfiguration,
    cli: Cli,
    input: Seq<char>,
    output: Seq<char>,
    pix: Seq<char>,
) -> bool {
    &&& c.input@ == input
    &&& c.temp@ == work_dir(input)
    &&& c.output_file@ == output
    &&& c.chunk_method == ChunkMethod::Lsmash
    &&& c.chunk_order == ChunkOrdering::LongestFirst
    &&& c.scaler@ == "bicubic+accurate_rnd+full_chroma_int+full_chroma_inp+bitexact"@
    &&& c.scenes is None
    &&& c.split_method == SplitMethod::AvScenechange
    &&& c.sc_method == ScenecutMethod::Standard
    &&& !c.sc_only
    &&& c.sc_downscale_height == Some(480usize)
    &&& c.extra_splits_len == Some(240usize)
    &&& c.min_scene_len == 240
    &&& c.force_keyframes@.len() == 0
    &&& !c.ignore_frame_mismatch
    &&& c.max_tries == 3
    &&& c.passes == default_passes(Encoder::SvtAv1)
    &&& c.video_params.deep_view() == video_params_of(cli)
    &&& c.encoder == Encoder::SvtAv1
    &&& c.workers == 6
    &&& c.set_thread_affinity == Some(2usize)
    &&& c.photon_noise == cli.ph
    &&& c.chroma_noise == cli.chroma_noise
    &&& c.zones is None
    &&& c.ffmpeg_filter_args@.len() == 0
    &&& c.audio_params.deep_view() == seq!["-c:a libopus -b:a 128k"@]
    &&& c.input_pix_format@ == pix
    &&& c.output_pix_format@ == "yuv420p10le"@
    &&& c.output_bit_depth == 10
    &&& c.verbosity == Verbosity::Verbose
    &&& c.log_file@ == work_dir(input) + "/log.log"@
    &&& c.resume
    &&& !c.keep
    &&& !c.force
    &&& c.concat == ConcatMethod::MkvMerge
    &&& !c.target_quality
}

/// Two configurations that hold the same values.
pub open spec fn same_config(a: EncodeConfiguration, b: EncodeConfiguration) -> bool {
    &&& a.input@ == b.input@
    &&& a.temp@ == b.temp@
    &&& a.output_file@ == b.output_file@
    &&& a.chunk_method == b.chunk_method
    &&& a.chunk_order == b.chunk_order
    &&& a.scaler@ == b.scaler@
    &&& a.scenes == b.scenes
    &&& a.split_method == b.split_method
    &&& a.sc_method == b.sc_method
    &&& a.sc_only == b.sc_only
    &&& a.sc_downscale_height == b.sc_downscale_height
    &&& a.extra_splits_len == b.extra_splits_len
    &&& a.min_scene_len == b.min_scene_len
    &&& a.force_keyframes@ == b.force_keyframes@
    &&& a.ignore_frame_mismatch == b.ignore_frame_mismatch
    &&& a.max_tries == b.max_tries
    &&& a.passes == b.passes
    &&& a.video_params.deep_view() == b.video_params.deep_view()
    &&& a.encoder == b.encoder
    &&& a.workers == b.workers
    &&& a.set_thread_affinity == b.set_thread_affinity
    &&& a.photon_noise == b.photon_noise
    &&& a.chroma_noise == b.chroma_noise
    &&& a.zones == b.zones
    &&& a.ffmpeg_filter_args.deep_view() == b.ffmpeg_filter_args.deep_view()
    &&& a.audio_params.deep_view() == b.audio_params.deep_view()
    &&& a.input_pix_format@ == b.input_pix_format@
    &&& a.output_pix_format@ == b.output_pix_format@
    &&& a.output_bit_depth == b.output_bit_depth
    &&& a.verbosity == b.verbosity
    &&& a.log_file@ == b.log_file@
    &&& a.resume == b.resume
    &&& a.keep == b.keep
    &&& a.force == b.force
    &&& a.concat == b.concat
    &&& a.target_quality == b.target_quality
}

/// Appends the decimal text of `v` to `params`.
fn push_number(params: &mut Vec<String>, v: usize)
    ensures
        final(params).deep_view() == old(params).deep_view().push(decimal_text(v as nat)),
{
    let s = decimal_of(v as u64);
    params.push(s);
    assert(final(params).deep_view() =~= old(params).deep_view().push(decimal_text(v as nat)));
}

/// Appends the text `s` to `params`.
fn push_text(params: &mut Vec<String>, s: &str)
    ensures
        final(params).deep_view() == old(params).deep_view().push(s@),
{
    params.push(String::from_str(s));
    assert(final(params).deep_view() =~= old(params).deep_view().push(s@));
}

/// The encoder arguments for `cli`.
pub fn video_params(cli: &Cli) -> (r: Vec<String>)
    ensures
        r.deep_view() == video_params_of(*cli),
{
    let mut p: Vec<String> = Vec::new();
    push_text(&mut p, "--preset");
    push_number(&mut p, cli.preset);
    push_text(&mut p, "--tune");
    push_number(&mut p, cli.tune);
    push_text(&mut p, "--crf");
    push_number(&mut p, cli.crf);
    push_text(&mut p, "--lp");
    push_text(&mut p, "2");
    if let Some(g) = cli.fg {
        push_text(&mut p, "--film-grain");
        push_number(&mut p, g);
    }
    if cli.fgd {
        push_text(&mut p, "--film-grain-denoise");
        push_text(&mut p, "1");
    } else if cli.fg.is_some() {
        push_text(&mut p, "--film-grain-denoise");
        push_text(&mut p, "0");
    }
    assert(p.deep_view() =~= video_params_of(*cli));
    p
}

/// Builds the configuration of the file `input`, to be written to `output`.
/// `input_pix_format` is the pixel format read from the media, or `None`
/// where it could not be read.
pub fn get_encode_args(
    cli: &Cli,
    input: &str,
    output: String,
    input_pix_format: Option<String>,
) -> (r: Result<EncodeConfiguration, ConfigError>)
    ensures
        r is Err <==> input_pix_format is None,
        r matches Err(e) ==> e == ConfigError::PixelFormatUnavailable,
        r matches Ok(c) ==> is_config_for(c, *cli, input@, output@, input_pix_format->0@),
{
    let pix = match input_pix_format {
        Some(p) => p,
        None => return Err(ConfigError::PixelFormatUnavailable),
    };
    let temp = String::from_str(".").concat(hash_path(input).as_str());
    proof {
        reveal_strlit(".");
        assert(temp@ =~= work_dir(input@));
    }
    let log_file = temp.clone().concat("/log.log");
    let mut audio_params: Vec<String> = Vec::new();
    push_text(&mut audio_params, "-c:a libopus -b:a 128k");
    assert(audio_params.deep_view() =~= seq!["-c:a libopus -b:a 128k"@]);
    Ok(
        EncodeConfiguration {
            input: String::from_str(input),
            temp,
            output_file: output,
            chunk_method: ChunkMethod::Lsmash,
            chunk_order: ChunkOrdering::LongestFirst,
            scaler: String::from_str("bicubic+accurate_rnd+full_chroma_int+full_chroma_inp+bitexact"),
            scenes: None,
            split_method: SplitMethod::AvScenechange,
            sc_method: ScenecutMethod::Standard,
            sc_only: false,
            sc_downscale_height: Some(480),
            extra_splits_len: Some(240),
            min_scene_len: 240,
            force_keyframes: Vec::new(),
            ignore_frame_mismatch: false,
            max_tries: 3,
            passes: 1,
            video_params: video_params(cli),
            encoder: Encoder::SvtAv1,
            workers: 6,
            set_thread_affinity: Some(2),
            photon_noise: cli.ph,
            chroma_noise: cli.chroma_noise,
            zones: None,
            ffmpeg_filter_args: Vec::new(),
            audio_params,
            input_pix_format: pix,
            output_pix_format: String::from_str("yuv420p10le"),
            output_bit_depth: 10,
            verbosity: Verbosity::Verbose,
            log_file,
            resume: true,
            keep: false,
            force: false,
            concat: ConcatMethod::MkvMerge,
            target_quality: false,
        },
    )
}

/// The rate-control arguments carry the configured crf, right after `--crf`.
pub proof fn lemma_crf_in_video_params(cli: Cli)
    ensures
        video_params_of(cli).len() >= 6,
        video_params_of(cli)[4] == "--crf"@,
        video_params_of(cli)[5] == decimal_text(cli.crf as nat),
{
}

/// Film grain denoising reaches the encoder arguments whenever it is on,
/// with or without a grain amount, and the grain amount whenever one is set.
pub proof fn lemma_film_grain_in_video_params(cli: Cli)
    ensures
        cli.fgd ==> video_params_of(cli).last() == "1"@ && video_params_of(cli)[video_params_of(
            cli,
        ).len() - 2] == "--film-grain-denoise"@,
        cli.fg matches Some(g) ==> video_params_of(cli)[8] == "--film-grain"@
            && video_params_of(cli)[9] == decimal_text(g as nat),
        (cli.fg is None && !cli.fgd) ==> video_params_of(cli).len() == 8,
{
}

/// The same settings, file, output and pixel format always give the same
/// configuration: building it again, as a resumed run does, changes nothing,
/// the work directory included.
pub proof fn lemma_config_deterministic(
    a: EncodeConfiguration,
    b: EncodeConfiguration,
    cli: Cli,
    input: Seq<char>,
    output: Seq<char>,
    pix: Seq<char>,
)
    requires
        is_config_for(a, cli, input, output, pix),
        is_config_for(b, cli, input, output, pix),
    ensures
        same_config(a, b),
        a.temp@ == work_dir(input),
{
    assert(a.force_keyframes@ =~= b.force_keyframes@);
    assert(a.ffmpeg_filter_args.deep_view() =~= b.ffmpeg_filter_args.deep_view());
}

} // verus!
