//! Progress tracking for indexing operations.
//!
//! The tracker decides what progress line to show and when: on a terminal a
//! line that overwrites itself, elsewhere a line every ten percent; updates
//! are throttled to one per 200 ms.

use vstd::prelude::*;
use std::time::Instant;
use crate::text::{decimal, string_push_str, u64_to_decimal};

verus! {

/// `std::time::Instant`, a point on the monotonic clock.
#[verifier::external_type_specification]
#[verifier::external_body]
pub struct ExInstant(Instant);

/// Calls `atty::is(atty::Stream::Stdout)`: whether standard output is a
/// terminal. That depends on how the process was started; nothing is stated.
#[verifier::external_body]
fn stdout_is_tty() -> (b: bool) {
    atty::is(atty::Stream::Stdout)
}

/// Calls `Instant::now`. The clock's reading is not stated.
#[verifier::external_body]
fn instant_now() -> (t: Instant) {
    Instant::now()
}

/// Calls `Instant::duration_since` and `Duration::as_nanos`: nanoseconds
/// from `earlier` to `later`. Readings of the clock are not stated, so
/// neither is the result.
#[verifier::external_body]
fn nanos_between(earlier: &Instant, later: &Instant) -> (n: u128) {
    later.duration_since(*earlier).as_nanos()
}

/// Minimum time between two progress updates, in nanoseconds.
pub const THROTTLE_NANOS: u128 = 200_000_000;

/// Whether enough time has passed since the last update to print again:
/// strictly more than 200 ms.
pub fn throttle_allows(elapsed_nanos: u128) -> (b: bool)
    ensures
        b == (elapsed_nanos > THROTTLE_NANOS),
{
    elapsed_nanos > THROTTLE_NANOS
}

/// Output mode for progress tracking.
#[derive(Debug, Clone, Copy, PartialEq, Eq, Structural)]
pub enum OutputMode {
    /// Minimal, compact output (default).
    Minimal,
    /// Detailed, verbose output.
    Verbose,
}

/// The state of a progress tracker.
pub struct ProgressView {
    pub mode: OutputMode,
    pub is_tty: bool,
    pub total_files: Option<usize>,
    pub total_chunks: Option<usize>,
    pub processed_files: usize,
    pub processed_chunks: usize,
    pub last_percentage: usize,
    /// When progress was last printed, if ever.
    pub last_print: Option<Instant>,
}

/// Percentage of work done, rounded down; zero without a positive total.
pub open spec fn percentage(processed: usize, total: Option<usize>) -> int {
    match total {
        Some(t) => if t > 0 {
            processed * 100 / (t as int)
        } else {
            0
        },
        None => 0,
    }
}

/// A positive total.
pub open spec fn positive(total: Option<usize>) -> bool {
    match total {
        Some(t) => t > 0,
        None => false,
    }
}

/// The file part of the terminal line.
pub open spec fn files_part(v: ProgressView) -> Seq<char> {
    if positive(v.total_files) {
        "Processing: "@ + decimal(v.processed_files as nat) + "/"@ + decimal(
            v.total_files->0 as nat,
        ) + " files ("@ + decimal(percentage(v.processed_files, v.total_files) as nat) + "%)"@
    } else {
        Seq::empty()
    }
}

/// The embedding part of the terminal line.
pub open spec fn chunks_part(v: ProgressView) -> Seq<char> {
    if positive(v.total_chunks) {
        "Embeddings: "@ + decimal(v.processed_chunks as nat) + "/"@ + decimal(
            v.total_chunks->0 as nat,
        ) + " ("@ + decimal(percentage(v.processed_chunks, v.total_chunks) as nat) + "%)"@
    } else {
        Seq::empty()
    }
}

/// The terminal line: the file and embedding parts, separated by ` | ` when
/// both are there.
pub open spec fn terminal_line(v: ProgressView) -> Seq<char> {
    let f = files_part(v);
    let c = chunks_part(v);
    if f.len() > 0 && c.len() > 0 {
        f + " | "@ + c
    } else {
        f + c
    }
}

/// The progress output and the state after it: on a terminal the line is
/// rewritten in place; elsewhere a line is written each time the file
/// percentage has grown by ten points since the last one.
pub open spec fn progress_step(v: ProgressView) -> (Option<Seq<char>>, ProgressView) {
    if v.is_tty {
        let line = terminal_line(v);
        (if line.len() > 0 {
            Some("\r"@ + line)
        } else {
            None
        }, v)
    } else {
        let current = percentage(v.processed_files, v.total_files);
        if current >= v.last_percentage + 10 {
            let next = ProgressView { last_percentage: current as usize, ..v };
            (if positive(v.total_files) {
                Some(
                    "Progress: "@ + decimal(current as nat) + "% complete ("@ + decimal(
                        v.processed_files as nat,
                    ) + "/"@ + decimal(v.total_files->0 as nat) + " files)\n"@,
                )
            } else {
                None
            }, next)
        } else {
            (None, v)
        }
    }
}

/// Counts small enough for percentages to be computed.
pub open spec fn counts_fit(v: ProgressView) -> bool {
    v.processed_files * 100 <= usize::MAX && v.processed_chunks * 100 <= usize::MAX
}

/// Tracks and reports progress for indexing operations.
pub struct ProgressTracker {
    mode: OutputMode,
    is_tty: bool,
    start_time: Instant,
    total_files: Option<usize>,
    total_chunks: Option<usize>,
    processed_files: usize,
    processed_chunks: usize,
    last_update: Option<Instant>,
    last_percentage: usize,
}

impl View for ProgressTracker {
    type V = ProgressView;

    closed spec fn view(&self) -> ProgressView {
        ProgressView {
            mode: self.mode,
            is_tty: self.is_tty,
            total_files: self.total_files,
            total_chunks: self.total_chunks,
            processed_files: self.processed_files,
            processed_chunks: self.processed_chunks,
            last_percentage: self.last_percentage,
            last_print: self.last_update,
        }
    }
}

/// Percentage of `processed` out of `total`, zero without a positive total.
fn percent(processed: usize, total: Option<usize>) -> (p: usize)
    requires
        processed * 100 <= usize::MAX,
    ensures
        p == percentage(processed, total),
{
    match total {
        Some(t) => if t > 0 {
            (processed * 100) / t
        } else {
            0
        },
        None => 0,
    }
}

impl ProgressTracker {
    /// A new tracker: nothing processed, no totals, nothing printed yet;
    /// whether output goes to a terminal is detected.
    pub fn new(mode: OutputMode) -> (t: Self)
        ensures
            t@.mode == mode,
            t@.total_files is None,
            t@.total_chunks is None,
            t@.processed_files == 0,
            t@.processed_chunks == 0,
            t@.last_percentage == 0,
            t@.last_print is None,
    {
        ProgressTracker {
            mode,
            is_tty: stdout_is_tty(),
            start_time: instant_now(),
            total_files: None,
            total_chunks: None,
            processed_files: 0,
            processed_chunks: 0,
            last_update: None,
            last_percentage: 0,
        }
    }

    /// The output mode.
    pub fn mode(&self) -> (m: OutputMode)
        ensures
            m == self@.mode,
    {
        self.mode
    }

    /// Whether output goes to a terminal.
    pub fn is_tty(&self) -> (b: bool)
        ensures
            b == self@.is_tty,
    {
        self.is_tty
    }

    /// The total number of files, once set.
    pub fn total_files(&self) -> (n: Option<usize>)
        ensures
            n == self@.total_files,
    {
        self.total_files
    }

    /// The total number of chunks, if known.
    pub fn total_chunks(&self) -> (n: Option<usize>)
        ensures
            n == self@.total_chunks,
    {
        self.total_chunks
    }

    /// The number of files processed.
    pub fn processed_files(&self) -> (n: usize)
        ensures
            n == self@.processed_files,
    {
        self.processed_files
    }

    /// The number of chunks processed.
    pub fn processed_chunks(&self) -> (n: usize)
        ensures
            n == self@.processed_chunks,
    {
        self.processed_chunks
    }

    /// The instant tracking started.
    pub closed spec fn started_at(&self) -> Instant {
        self.start_time
    }

    /// When tracking started.
    pub fn start_time(&self) -> (t: Instant)
        ensures
            t == self.started_at(),
    {
        self.start_time
    }

    /// Set the total file and chunk counts.
    pub fn set_totals(&mut self, files: usize, chunks: Option<usize>)
        ensures
            final(self)@ == (ProgressView {
                total_files: Some(files),
                total_chunks: chunks,
                ..old(self)@
            }),
    {
        self.total_files = Some(files);
        self.total_chunks = chunks;
    }

    /// Set the count of processed files.
    pub fn update_files(&mut self, count: usize)
        ensures
            final(self)@ == (ProgressView { processed_files: count, ..old(self)@ }),
    {
        self.processed_files = count;
    }

    /// Set the count of processed chunks.
    pub fn update_chunks(&mut self, count: usize)
        ensures
            final(self)@ == (ProgressView { processed_chunks: count, ..old(self)@ }),
    {
        self.processed_chunks = count;
    }

    /// Decides, at instant `now`, whether progress is printed: always when
    /// nothing was printed yet, and otherwise when `elapsed_nanos`, the time
    /// since the last print, is more than 200 ms. A yes records `now` as the
    /// time of the last print.
    pub fn throttle_step(&mut self, now: Instant, elapsed_nanos: u128) -> (b: bool)
        ensures
            b == (old(self)@.last_print is None || elapsed_nanos > THROTTLE_NANOS),
            final(self)@ == (ProgressView {
                last_print: if b {
                    Some(now)
                } else {
                    old(self)@.last_print
                },
                ..old(self)@
            }),
    {
        let allowed = match &self.last_update {
            None => true,
            Some(_) => throttle_allows(elapsed_nanos),
        };
        if allowed {
            self.last_update = Some(now);
        }
        allowed
    }

    /// Whether progress should be printed now: the first call says yes, and
    /// later calls say yes when more than 200 ms have passed since the last
    /// yes, which becomes the new time of the last print. The clock's
    /// readings are not stated, so neither is the answer after the first
    /// call; a no changes nothing, a yes records a print.
    pub fn should_print(&mut self) -> (b: bool)
        ensures
            old(self)@.last_print is None ==> b,
            !b ==> final(self)@ == old(self)@,
            b ==> final(self)@.last_print is Some,
            final(self)@ == (ProgressView { last_print: final(self)@.last_print, ..old(self)@ }),
    {
        let now = instant_now();
        let elapsed = match &self.last_update {
            None => 0,
            Some(last) => nanos_between(last, &now),
        };
        self.throttle_step(now, elapsed)
    }

    /// Percentage of files processed, rounded down.
    pub fn percentage_files(&self) -> (p: usize)
        requires
            self@.processed_files * 100 <= usize::MAX,
        ensures
            p == percentage(self@.processed_files, self@.total_files),
    {
        percent(self.processed_files, self.total_files)
    }

    /// Percentage of chunks processed, rounded down.
    pub fn percentage_chunks(&self) -> (p: usize)
        requires
            self@.processed_chunks * 100 <= usize::MAX,
        ensures
            p == percentage(self@.processed_chunks, self@.total_chunks),
    {
        percent(self.processed_chunks, self.total_chunks)
    }

    /// The progress output due now, if any, recording a non-terminal
    /// line's percentage.
    pub fn progress_output(&mut self) -> (r: Option<String>)
        requires
            counts_fit(old(self)@),
        ensures
            (match r {
                Some(s) => Some(s@),
                None => None,
            }) == progress_step(old(self)@).0,
            final(self)@ == progress_step(old(self)@).1,
    {
        if self.is_tty {
            let mut out = String::new();
            let has_files = match self.total_files {
                Some(t) => t > 0,
                None => false,
            };
            if has_files {
                let total = match self.total_files {
                    Some(t) => t,
                    None => 0,
                };
                let pct = self.percentage_files();
                let a = u64_to_decimal(self.processed_files as u64);
                let b = u64_to_decimal(total as u64);
                let c = u64_to_decimal(pct as u64);
                string_push_str(&mut out, "Processing: ");
                string_push_str(&mut out, a.as_str());
                string_push_str(&mut out, "/");
                string_push_str(&mut out, b.as_str());
                string_push_str(&mut out, " files (");
                string_push_str(&mut out, c.as_str());
                string_push_str(&mut out, "%)");
            }
            assert(out@ =~= files_part(self@));
            let has_chunks = match self.total_chunks {
                Some(t) => t > 0,
                None => false,
            };
            if has_chunks {
                let total = match self.total_chunks {
                    Some(t) => t,
                    None => 0,
                };
                let pct = self.percentage_chunks();
                let a = u64_to_decimal(self.processed_chunks as u64);
                let b = u64_to_decimal(total as u64);
                let c = u64_to_decimal(pct as u64);
                if has_files {
                    string_push_str(&mut out, " | ");
                }
                string_push_str(&mut out, "Embeddings: ");
                string_push_str(&mut out, a.as_str());
                string_push_str(&mut out, "/");
                string_push_str(&mut out, b.as_str());
                string_push_str(&mut out, " (");
                string_push_str(&mut out, c.as_str());
                string_push_str(&mut out, "%)");
            }
            proof {
                let f = files_part(self@);
                let ch = chunks_part(self@);
                assert(f.len() > 0 <==> has_files);
                assert(ch.len() > 0 <==> has_chunks);
            }
            assert(out@ =~= terminal_line(self@));
            if out.as_str().is_empty() {
                None
            } else {
                let mut line = String::new();
                string_push_str(&mut line, "\r");
                string_push_str(&mut line, out.as_str());
                assert(line@ =~= "\r"@ + terminal_line(self@));
                Some(line)
            }
        } else {
            let current = self.percentage_files();
            let last = self.last_percentage;
            if current as u128 >= last as u128 + 10 {
                self.last_percentage = current;
                match self.total_files {
                    Some(total) => if total > 0 {
                        let a = u64_to_decimal(current as u64);
                        let b = u64_to_decimal(self.processed_files as u64);
                        let c = u64_to_decimal(total as u64);
                        let mut line = String::new();
                        string_push_str(&mut line, "Progress: ");
                        string_push_str(&mut line, a.as_str());
                        string_push_str(&mut line, "% complete (");
                        string_push_str(&mut line, b.as_str());
                        string_push_str(&mut line, "/");
                        string_push_str(&mut line, c.as_str());
                        string_push_str(&mut line, " files)\n");
                        Some(line)
                    } else {
                        None
                    },
                    None => None,
                }
            } else {
                None
            }
        }
    }
}

/// Law: a percentage never exceeds 100 while no more has been processed
/// than the total, and reaches 100 exactly when all of it has.
pub proof fn lemma_percentage_bounded(processed: usize, total: usize)
    requires
        processed <= total,
        total > 0,
    ensures
        percentage(processed, Some(total)) <= 100,
        percentage(processed, Some(total)) == 100 <==> processed == total,
{
    let p = processed as int;
    let t = total as int;
    assert(p * 100 <= t * 100) by (nonlinear_arith)
        requires
            p <= t,
    ;
    assert(p * 100 / t <= 100) by (nonlinear_arith)
        requires
            p * 100 <= t * 100,
            t > 0,
    ;
    assert(p == t ==> p * 100 / t == 100) by (nonlinear_arith)
        requires
            t > 0,
    ;
    assert(p < t ==> p * 100 / t < 100) by (nonlinear_arith)
        requires
            t > 0,
            p >= 0,
    ;
}

} // verus!
