use vstd::prelude::*;

use crate::config::{get_encode_args, is_config_for, work_dir, Cli, ConfigError, EncodeConfiguration};
use crate::hash::path_token;
use crate::paths::{get_output_path, is_under, join, join_parts, output_path, relative, MappingError};

verus! {

/// Why one file of a batch could not be configured.
#[derive(Debug, Clone, Copy, PartialEq, Eq, Structural)]
pub enum JobError {
    /// The file does not lie under the input root.
    NotUnderRoot,
    /// The input's pixel format could not be read from the media.
    PixelFormatUnavailable,
}

/// Maps the file `input` into the output tree and builds its configuration.
/// `input_pix_format` is what reading the media gave, `None` where it failed.
pub fn encode_job(cli: &Cli, input: &str, input_pix_format: Option<String>) -> (r: Result<
    EncodeConfiguration,
    JobError,
>)
    ensures
        r is Ok <==> (is_under(cli.input@, input@) && input_pix_format is Some),
        r == Err::<EncodeConfiguration, JobError>(JobError::NotUnderRoot) <==> !is_under(
            cli.input@,
            input@,
        ),
        r == Err::<EncodeConfiguration, JobError>(JobError::PixelFormatUnavailable) <==> (is_under(
            cli.input@,
            input@,
        ) && input_pix_format is None),
        r matches Ok(c) ==> is_config_for(
            c,
            *cli,
            input@,
            join(cli.output@, join_parts(relative(cli.input@, input@))),
            input_pix_format->0@,
        ),
{
    let output = match get_output_path(cli.input.as_str(), cli.output.as_str(), input) {
        Ok(o) => o,
        Err(MappingError::NotUnderRoot) => return Err(JobError::NotUnderRoot),
    };
    match get_encode_args(cli, input, output, input_pix_format) {
        Ok(c) => Ok(c),
        Err(ConfigError::PixelFormatUnavailable) => Err(JobError::PixelFormatUnavailable),
    }
}

/// The record built for a file under the input root goes to that file's
/// place in the output tree, and its work directory is `.` followed by the
/// token of the file's path: each file of a batch gets its own record so.
pub proof fn lemma_job_record(
    cli: Cli,
    input: Seq<char>,
    pix: Seq<char>,
    c: EncodeConfiguration,
)
    requires
        is_under(cli.input@, input),
        is_config_for(c, cli, input, join(cli.output@, join_parts(relative(cli.input@, input))), pix),
    ensures
        output_path(cli.input@, cli.output@, input) == Ok::<Seq<char>, MappingError>(
            c.output_file@,
        ),
        c.temp@ == seq!['.'] + path_token(input),
        c.temp@ == work_dir(input),
        c.input@ == input,
{
}

/// What became of one file of a batch.
#[derive(Debug, Clone, Copy, PartialEq, Eq, Structural)]
pub enum FileOutcome {
    /// The engine encoded it.
    Encoded,
    /// It does not lie under the input root.
    NotUnderRoot,
    /// Its pixel format could not be read.
    PixelFormatUnavailable,
    /// Its configuration could not be turned into the engine's arguments.
    ConfigAssemblyFailed,
    /// The engine reported a failure.
    EngineFailed,
}

/// Counts of what became of the files of a batch.
#[derive(Debug, Clone, Copy, PartialEq, Eq, Structural)]
pub struct BatchSummary {
    pub succeeded: usize,
    pub not_under_root: usize,
    pub pixel_format_unavailable: usize,
    pub config_assembly_failed: usize,
    pub engine_failed: usize,
    /// Files never tried, because the batch stopped early.
    pub skipped: usize,
}

/// Runs the files of a batch one at a time, in the order given, and keeps
/// count of their outcomes. Under the strict policy the first failure stops
/// the batch; otherwise each failure is counted and the batch goes on.
pub struct BatchDriver {
    files: Vec<String>,
    next: usize,
    keep_going: bool,
    stopped: bool,
    succeeded: usize,
    not_under_root: usize,
    pixel_format_unavailable: usize,
    config_assembly_failed: usize,
    engine_failed: usize,
}

/// The state of a batch: its files, how many were handled, whether it goes on
/// after a failure and whether it stopped, and the counts of the outcomes in
/// the order of `FileOutcome`.
pub struct BatchState {
    pub files: Seq<Seq<char>>,
    pub next: nat,
    pub keep_going: bool,
    pub stopped: bool,
    pub counts: (nat, nat, nat, nat, nat),
}

/// The counts after one more file with the outcome `o`.
pub open spec fn counted(c: (nat, nat, nat, nat, nat), o: FileOutcome) -> (
    nat,
    nat,
    nat,
    nat,
    nat,
) {
    match o {
        FileOutcome::Encoded => (c.0 + 1, c.1, c.2, c.3, c.4),
        FileOutcome::NotUnderRoot => (c.0, c.1 + 1, c.2, c.3, c.4),
        FileOutcome::PixelFormatUnavailable => (c.0, c.1, c.2 + 1, c.3, c.4),
        FileOutcome::ConfigAssemblyFailed => (c.0, c.1, c.2, c.3 + 1, c.4),
        FileOutcome::EngineFailed => (c.0, c.1, c.2, c.3, c.4 + 1),
    }
}

impl View for BatchDriver {
    type V = BatchState;

    closed spec fn view(&self) -> BatchState {
        BatchState {
            files: self.files.deep_view(),
            next: self.next as nat,
            keep_going: self.keep_going,
            stopped: self.stopped,
            counts: (
                self.succeeded as nat,
                self.not_under_root as nat,
                self.pixel_format_unavailable as nat,
                self.config_assembly_failed as nat,
                self.engine_failed as nat,
            ),
        }
    }
}

impl BatchDriver {
    /// The driver's fields agree: no more files handled than given, and each
    /// handled file counted once.
    pub closed spec fn wf(&self) -> bool {
        &&& self.next <= self.files.len()
        &&& self.succeeded + self.not_under_root + self.pixel_format_unavailable
            + self.config_assembly_failed + self.engine_failed == self.next
    }

    /// Whether some file remains to be handled.
    pub open spec fn has_next(&self) -> bool {
        self@.next < self@.files.len() && !self@.stopped
    }

    /// A batch over `files`; with `keep_going` a failure does not stop it.
    pub fn new(files: Vec<String>, keep_going: bool) -> (r: BatchDriver)
        ensures
            r.wf(),
            r@.files == files.deep_view(),
            r@.next == 0,
            r@.keep_going == keep_going,
            !r@.stopped,
            r@.counts == (0nat, 0nat, 0nat, 0nat, 0nat),
    {
        BatchDriver {
            files,
            next: 0,
            keep_going,
            stopped: false,
            succeeded: 0,
            not_under_root: 0,
            pixel_format_unavailable: 0,
            config_assembly_failed: 0,
            engine_failed: 0,
        }
    }

    /// The file to handle now, or `None` once the batch is over.
    pub fn current(&self) -> (r: Option<&String>)
        requires
            self.wf(),
        ensures
            r is Some <==> self.has_next(),
            r matches Some(f) ==> f@ == self@.files[self@.next as int],
    {
        if self.stopped || self.next >= self.files.len() {
            None
        } else {
            let f = &self.files[self.next];
            assert(f@ == self.files.deep_view()[self.next as int]);
            Some(f)
        }
    }

    /// Records what became of the current file and moves to the next one.
    /// The batch stops at a failure unless it keeps going.
    pub fn record(&mut self, outcome: FileOutcome)
        requires
            old(self).wf(),
            old(self).has_next(),
        ensures
            final(self).wf(),
            final(self)@.files == old(self)@.files,
            final(self)@.keep_going == old(self)@.keep_going,
            final(self)@.next == old(self)@.next + 1,
            final(self)@.counts == counted(old(self)@.counts, outcome),
            final(self)@.stopped == (!old(self)@.keep_going && outcome != FileOutcome::Encoded),
    {
        match outcome {
            FileOutcome::Encoded => self.succeeded = self.succeeded + 1,
            FileOutcome::NotUnderRoot => self.not_under_root = self.not_under_root + 1,
            FileOutcome::PixelFormatUnavailable => self.pixel_format_unavailable
                = self.pixel_format_unavailable + 1,
            FileOutcome::ConfigAssemblyFailed => self.config_assembly_failed
                = self.config_assembly_failed + 1,
            FileOutcome::EngineFailed => self.engine_failed = self.engine_failed + 1,
        }
        self.next = self.next + 1;
        self.stopped = !self.keep_going && !matches!(outcome, FileOutcome::Encoded);
    }

    /// Whether every file was handled or the batch stopped.
    pub fn is_finished(&self) -> (r: bool)
        requires
            self.wf(),
        ensures
            r == !self.has_next(),
    {
        self.stopped || self.next >= self.files.len()
    }

    /// Whether some file failed, which the process reports in its exit code.
    pub fn any_failed(&self) -> (r: bool)
        requires
            self.wf(),
        ensures
            r == (self@.counts.1 + self@.counts.2 + self@.counts.3 + self@.counts.4 > 0),
    {
        self.not_under_root > 0 || self.pixel_format_unavailable > 0 || self.config_assembly_failed
            > 0 || self.engine_failed > 0
    }

    /// The counts so far; the files not handled count as skipped.
    pub fn summary(&self) -> (r: BatchSummary)
        requires
            self.wf(),
        ensures
            r.succeeded == self@.counts.0,
            r.not_under_root == self@.counts.1,
            r.pixel_format_unavailable == self@.counts.2,
            r.config_assembly_failed == self@.counts.3,
            r.engine_failed == self@.counts.4,
            r.skipped == self@.files.len() - self@.next,
    {
        BatchSummary {
            succeeded: self.succeeded,
            not_under_root: self.not_under_root,
            pixel_format_unavailable: self.pixel_format_unavailable,
            config_assembly_failed: self.config_assembly_failed,
            engine_failed: self.engine_failed,
            skipped: self.files.len() - self.next,
        }
    }
}

/// What `FileOutcome` a failed job stands for.
pub fn job_outcome(e: JobError) -> (r: FileOutcome)
    ensures
        e == JobError::NotUnderRoot ==> r == FileOutcome::NotUnderRoot,
        e == JobError::PixelFormatUnavailable ==> r == FileOutcome::PixelFormatUnavailable,
{
    match e {
        JobError::NotUnderRoot => FileOutcome::NotUnderRoot,
        JobError::PixelFormatUnavailable => FileOutcome::PixelFormatUnavailable,
    }
}

} // verus!
