//! Where a download is written, how failures are retried, and how the
//! outcomes of many downloads are reported.

use crate::error::{retryable, should_retry, Error};
use crate::scraper::VideoDescriptor;
use crate::text::chars_of;
use std::path::PathBuf;
use vstd::arithmetic::power2::{
    lemma2_to64, lemma_pow2_pos, lemma_pow2_strictly_increases, lemma_pow2_unfold, pow2,
};
use vstd::prelude::*;
use vstd::string::StringExecFns;

verus! {

broadcast use vstd::string::group_string_axioms;

/// The tunables of a run.
#[derive(Clone, Debug)]
pub struct DownloadConfig {
    /// How many times a URL is tried again after a failure that may pass.
    pub max_retries: usize,
    /// The delay before the first retry, in milliseconds; it doubles with
    /// each further one.
    pub initial_backoff_ms: u64,
    /// How many downloads may run at once.
    pub max_concurrent_downloads: usize,
}

impl Default for DownloadConfig {
    fn default() -> (config: DownloadConfig)
        ensures
            config.max_retries == 3,
            config.initial_backoff_ms == 500,
            config.max_concurrent_downloads == 4,
    {
        DownloadConfig { max_retries: 3, initial_backoff_ms: 500, max_concurrent_downloads: 4 }
    }
}

impl DownloadConfig {
    /// Whether the tunables are in their ranges: at least one download at a
    /// time, and a first delay of at least one millisecond.
    pub open spec fn wf(self) -> bool {
        self.initial_backoff_ms >= 1 && self.max_concurrent_downloads >= 1
    }

    /// The defaults, each replaced by the value given for it; a concurrency
    /// or a delay of 0 is raised to 1.
    pub fn with_overrides(
        max_concurrent: Option<usize>,
        max_retries: Option<usize>,
        backoff_ms: Option<u64>,
    ) -> (config: DownloadConfig)
        ensures
            config.wf(),
            config.max_concurrent_downloads == match max_concurrent {
                Some(n) => if n < 1 {
                    1
                } else {
                    n
                },
                None => 4,
            },
            config.max_retries == match max_retries {
                Some(n) => n,
                None => 3,
            },
            config.initial_backoff_ms == match backoff_ms {
                Some(n) => if n < 1 {
                    1
                } else {
                    n
                },
                None => 500,
            },
    {
        let mut config = DownloadConfig {
            max_retries: 3,
            initial_backoff_ms: 500,
            max_concurrent_downloads: 4,
        };
        if let Some(n) = max_concurrent {
            config.max_concurrent_downloads = if n < 1 {
                1
            } else {
                n
            };
        }
        if let Some(n) = max_retries {
            config.max_retries = n;
        }
        if let Some(n) = backoff_ms {
            config.initial_backoff_ms = if n < 1 {
                1
            } else {
                n
            };
        }
        config
    }
}

/// How the download of one URL ended.
#[derive(Debug)]
pub struct DownloadReport {
    /// The URL as it was given.
    pub url: String,
    /// The file that was written, or why none was.
    pub result: Result<PathBuf, Error>,
}

impl DownloadReport {
    /// The report of a download that wrote `path`.
    pub fn success(url: String, path: PathBuf) -> (report: DownloadReport)
        ensures
            report.url == url,
            report.result == Ok::<PathBuf, Error>(path),
    {
        DownloadReport { url, result: Ok(path) }
    }

    /// The report of a download that ended in `err`.
    pub fn failure(url: String, err: Error) -> (report: DownloadReport)
        ensures
            report.url == url,
            report.result == Err::<PathBuf, Error>(err),
    {
        DownloadReport { url, result: Err(err) }
    }

    /// Whether a file was written.
    pub fn is_success(&self) -> (r: bool)
        ensures
            r == self.result is Ok,
    {
        self.result.is_ok()
    }

    /// The file that was written, if one was.
    pub fn path(&self) -> (r: Option<&PathBuf>)
        ensures
            r is Some <==> self.result is Ok,
            r is Some ==> *r->0 == self.result->Ok_0,
    {
        match &self.result {
            Ok(path) => Some(path),
            Err(_) => None,
        }
    }

    /// Why no file was written, if none was.
    pub fn error(&self) -> (r: Option<&Error>)
        ensures
            r is Some <==> self.result is Err,
            r is Some ==> *r->0 == self.result->Err_0,
    {
        match &self.result {
            Ok(_) => None,
            Err(err) => Some(err),
        }
    }
}

/// Whether `c` may stand in a file name: an ASCII letter or digit, a
/// hyphen, an underscore or a dot.
pub open spec fn is_path_char(c: char) -> bool {
    ||| 'a' <= c <= 'z'
    ||| 'A' <= c <= 'Z'
    ||| '0' <= c <= '9'
    ||| c == '-'
    ||| c == '_'
    ||| c == '.'
}

/// `input` without the characters that may not stand in a file name.
pub open spec fn sanitized(input: Seq<char>) -> Seq<char> {
    input.filter(|c: char| is_path_char(c))
}

/// Whether `at` says where in `whole` each character of `part` stands, from
/// left to right.
pub open spec fn embeds(part: Seq<char>, whole: Seq<char>, at: Seq<int>) -> bool {
    &&& at.len() == part.len()
    &&& forall|i: int|
        0 <= i < at.len() ==> 0 <= #[trigger] at[i] < whole.len() && part[i] == whole[at[i]]
    &&& forall|i: int, j: int| 0 <= i < j < at.len() ==> at[i] < at[j]
}

/// Whether `part` is `whole` with some characters left out.
pub open spec fn is_subsequence(part: Seq<char>, whole: Seq<char>) -> bool {
    exists|at: Seq<int>| embeds(part, whole, at)
}

/// Filtering a text leaves a subsequence of it.
pub proof fn lemma_sanitized_is_subsequence(input: Seq<char>)
    ensures
        is_subsequence(sanitized(input), input),
        forall|i: int|
            0 <= i < sanitized(input).len() ==> is_path_char(#[trigger] sanitized(input)[i]),
    decreases input.len(),
{
    reveal(Seq::filter);
    if input.len() == 0 {
        assert(embeds(sanitized(input), input, Seq::<int>::empty()));
    } else {
        let shorter = input.drop_last();
        lemma_sanitized_is_subsequence(shorter);
        let at = choose|at: Seq<int>| embeds(sanitized(shorter), shorter, at);
        if is_path_char(input.last()) {
            let longer = at.push(input.len() - 1);
            assert(embeds(sanitized(input), input, longer));
        } else {
            assert(embeds(sanitized(input), input, at));
        }
    }
}

/// `input` without every character that is not an ASCII letter or digit, a
/// hyphen, an underscore or a dot. What is left stands in the order it had.
pub fn sanitize_component(input: &str) -> (out: String)
    ensures
        out@ == sanitized(input@),
        forall|i: int| 0 <= i < out@.len() ==> is_path_char(#[trigger] out@[i]),
        is_subsequence(out@, input@),
{
    let chars = chars_of(input);
    let mut out = String::new();
    let mut i: usize = 0;
    while i < chars.len()
        invariant
            i <= chars.len(),
            chars@ == input@,
            out@ == sanitized(chars@.subrange(0, i as int)),
        decreases chars.len() - i,
    {
        let c = chars[i];
        assert(chars@.subrange(0, i + 1).drop_last() =~= chars@.subrange(0, i as int));
        reveal(Seq::filter);
        if (c >= 'a' && c <= 'z') || (c >= 'A' && c <= 'Z') || (c >= '0' && c <= '9') || c == '-'
            || c == '_' || c == '.' {
            out.push(c);
        }
        i += 1;
    }
    assert(chars@.subrange(0, i as int) =~= chars@);
    proof {
        lemma_sanitized_is_subsequence(input@);
    }
    out
}

/// Where a download is written: a directory named after the author, and in
/// it a file named after the video.
#[derive(Debug, Clone)]
pub struct OutputPath {
    /// The directory's name.
    pub directory: String,
    /// The file's name in that directory.
    pub file_name: String,
}

impl OutputPath {
    /// The path as text: the directory, a slash, the file name.
    pub open spec fn layout(self) -> Seq<char> {
        self.directory@ + "/"@ + self.file_name@
    }

    /// The path as text, relative to where the program runs: the
    /// directory, a slash, the file name.
    pub fn to_text(&self) -> (out: String)
        ensures
            out@ == self.layout(),
    {
        let mut out = self.directory.clone();
        out.append("/");
        out.append(self.file_name.as_str());
        out
    }
}

/// The directory for an author's videos: the sanitized name, or `unknown`
/// where nothing of it is left.
pub open spec fn output_directory(author: Seq<char>) -> Seq<char> {
    if sanitized(author).len() == 0 {
        "unknown"@
    } else {
        sanitized(author)
    }
}

/// The file name for a video: the sanitized identifier, then `.mp4`.
pub open spec fn output_file_name(video_id: Seq<char>) -> Seq<char> {
    sanitized(video_id) + ".mp4"@
}

/// Where the video that `descriptor` describes is written: the file
/// `<author>/<id>.mp4`, author and identifier sanitized, with `unknown` for
/// an author of whom nothing is left. Fails with `InvalidUrl` exactly where
/// nothing is left of the identifier once it is sanitized.
pub fn build_output_path(descriptor: &VideoDescriptor) -> (r: Result<OutputPath, Error>)
    ensures
        match r {
            Ok(path) => {
                &&& sanitized(descriptor.video_id@).len() > 0
                &&& path.directory@ == output_directory(descriptor.author@)
                &&& path.file_name@ == output_file_name(descriptor.video_id@)
                &&& path.layout() == output_directory(descriptor.author@) + "/"@
                    + output_file_name(descriptor.video_id@)
            },
            Err(Error::InvalidUrl(message)) => {
                &&& sanitized(descriptor.video_id@).len() == 0
                &&& message@ == "missing video id"@
            },
            Err(_) => false,
        },
{
    let video = sanitize_component(descriptor.video_id.as_str());
    if video.as_str().is_empty() {
        return Err(Error::InvalidUrl(String::from_str("missing video id")));
    }
    let author = sanitize_component(descriptor.author.as_str());
    let directory = if author.as_str().is_empty() {
        String::from_str("unknown")
    } else {
        author
    };
    let mut file_name = video;
    file_name.append(".mp4");
    Ok(OutputPath { directory, file_name })
}

/// `n`, or the greatest 64-bit number where `n` is greater.
pub open spec fn saturated(n: nat) -> u64 {
    if n > u64::MAX {
        u64::MAX
    } else {
        n as u64
    }
}

/// The delay before the retry that follows the `attempt`-th failure: the
/// first delay, doubled for each failure after the first, and never more
/// than 64 bits hold.
pub open spec fn backoff_ms(initial_backoff_ms: u64, attempt: nat) -> u64 {
    let doublings = if attempt == 0 {
        0
    } else {
        (attempt - 1) as nat
    };
    saturated(initial_backoff_ms as nat * pow2(doublings))
}

proof fn lemma_double(initial: nat, k: nat)
    ensures
        initial * pow2(k + 1) == 2 * (initial * pow2(k)),
{
    lemma_pow2_unfold(k + 1);
    assert(initial * (2 * pow2(k)) == 2 * (initial * pow2(k))) by (nonlinear_arith);
}

proof fn lemma_scaled_grows(initial: nat, k: nat, e: nat)
    requires
        k <= e,
    ensures
        initial * pow2(k) <= initial * pow2(e),
{
    if k < e {
        lemma_pow2_strictly_increases(k, e);
    }
    assert(pow2(k) <= pow2(e) ==> initial * pow2(k) <= initial * pow2(e)) by (nonlinear_arith);
}

/// The delay, in milliseconds, before the retry that follows the
/// `attempt`-th failure.
pub fn backoff_delay(initial_backoff_ms: u64, attempt: usize) -> (delay: u64)
    ensures
        delay == backoff_ms(initial_backoff_ms, attempt as nat),
{
    let doublings: usize = if attempt == 0 {
        0
    } else {
        attempt - 1
    };
    let mut delay: u64 = initial_backoff_ms;
    let mut k: usize = 0;
    proof {
        lemma2_to64();
    }
    while k < doublings && delay != 0 && delay != u64::MAX
        invariant
            k <= doublings,
            delay == saturated(initial_backoff_ms as nat * pow2(k as nat)),
        decreases doublings - k,
    {
        proof {
            lemma_double(initial_backoff_ms as nat, k as nat);
        }
        delay = if delay > u64::MAX / 2 {
            u64::MAX
        } else {
            delay * 2
        };
        k += 1;
    }
    proof {
        let initial = initial_backoff_ms as nat;
        lemma_scaled_grows(initial, k as nat, doublings as nat);
        if k < doublings && delay == 0 {
            lemma_pow2_pos(k as nat);
            assert(initial * pow2(k as nat) == 0 && pow2(k as nat) > 0 ==> initial == 0)
                by (nonlinear_arith);
            assert(initial * pow2(doublings as nat) == 0) by (nonlinear_arith)
                requires
                    initial == 0,
            ;
        }
    }
    delay
}

/// Where the download of one URL stands.
#[derive(Debug)]
pub enum RetryState {
    /// The pipeline runs; `attempt` counts the failures before this run.
    Attempting { attempt: usize },
    /// The `attempt`-th failure may pass: the next run starts after
    /// `delay_ms` milliseconds.
    BackingOff { attempt: usize, delay_ms: u64 },
    /// The file was written.
    Succeeded(PathBuf),
    /// The download is given up.
    Failed(Error),
}

impl RetryState {
    /// Whether the state is one that the rules can reach under `config`: no
    /// run starts after more than `max_retries` failures, and a delay is the
    /// one that the failure count gives.
    pub open spec fn wf(self, config: DownloadConfig) -> bool {
        match self {
            RetryState::Attempting { attempt } => attempt <= config.max_retries,
            RetryState::BackingOff { attempt, delay_ms } => 1 <= attempt <= config.max_retries
                && delay_ms == backoff_ms(config.initial_backoff_ms, attempt as nat),
            _ => true,
        }
    }

    /// Whether nothing more happens.
    pub open spec fn terminal(self) -> bool {
        self is Succeeded || self is Failed
    }

    /// The state after a run of the pipeline ended in `outcome`. A success
    /// ends the download. A failure ends it where the error is fatal or
    /// `max_retries` failures came before; else the download backs off. Out
    /// of `Attempting` nothing changes.
    pub open spec fn after_outcome(
        self,
        config: DownloadConfig,
        outcome: Result<PathBuf, Error>,
    ) -> RetryState {
        match self {
            RetryState::Attempting { attempt } => match outcome {
                Ok(path) => RetryState::Succeeded(path),
                Err(err) => if attempt >= config.max_retries || !retryable(err) {
                    RetryState::Failed(err)
                } else {
                    RetryState::BackingOff {
                        attempt: (attempt + 1) as usize,
                        delay_ms: backoff_ms(config.initial_backoff_ms, (attempt + 1) as nat),
                    }
                },
            },
            _ => self,
        }
    }

    /// The state after the delay has passed: the next run, with the failure
    /// count kept. Out of `BackingOff` nothing changes.
    pub open spec fn after_backoff(self) -> RetryState {
        match self {
            RetryState::BackingOff { attempt, delay_ms } => RetryState::Attempting { attempt },
            _ => self,
        }
    }

    /// The state in which every download starts: the first run, no failure
    /// before it.
    pub fn start() -> (state: RetryState)
        ensures
            state == (RetryState::Attempting { attempt: 0 }),
            forall|config: DownloadConfig| state.wf(config),
    {
        RetryState::Attempting { attempt: 0 }
    }

    /// Whether nothing more happens.
    pub fn is_terminal(&self) -> (r: bool)
        ensures
            r == self.terminal(),
    {
        match self {
            RetryState::Succeeded(_) => true,
            RetryState::Failed(_) => true,
            _ => false,
        }
    }

    /// The state after a run of the pipeline ended in `outcome`.
    pub fn on_outcome(self, config: &DownloadConfig, outcome: Result<PathBuf, Error>) -> (next:
        RetryState)
        ensures
            next == self.after_outcome(*config, outcome),
            self.wf(*config) ==> next.wf(*config),
    {
        match self {
            RetryState::Attempting { attempt } => match outcome {
                Ok(path) => RetryState::Succeeded(path),
                Err(err) => {
                    if attempt >= config.max_retries || !should_retry(&err) {
                        RetryState::Failed(err)
                    } else {
                        let failures: usize = attempt + 1;
                        RetryState::BackingOff {
                            attempt: failures,
                            delay_ms: backoff_delay(config.initial_backoff_ms, failures),
                        }
                    }
                },
            },
            other => other,
        }
    }

    /// The state after the delay has passed.
    pub fn on_backoff_elapsed(self) -> (next: RetryState)
        ensures
            next == self.after_backoff(),
            forall|config: DownloadConfig| self.wf(config) ==> next.wf(config),
    {
        match self {
            RetryState::BackingOff { attempt, delay_ms } => RetryState::Attempting { attempt },
            other => other,
        }
    }
}

/// The first position at or after `from` whose key is not below `key`, or
/// the length.
pub open spec fn slot_for(keys: Seq<usize>, key: usize, from: int) -> int
    decreases keys.len() - from,
{
    if 0 <= from < keys.len() && keys[from] < key {
        slot_for(keys, key, from + 1)
    } else {
        from
    }
}

/// `done` sorted by the first component, ascending; entries with the same
/// first component keep the order they had.
pub open spec fn in_order(done: Seq<(usize, DownloadReport)>) -> Seq<(usize, DownloadReport)>
    decreases done.len(),
{
    if done.len() == 0 {
        Seq::empty()
    } else {
        let rest = in_order(done.drop_first());
        rest.insert(slot_for(keys_of(rest), done[0].0, 0), done[0])
    }
}

/// The first components of a list of pairs.
pub open spec fn keys_of(done: Seq<(usize, DownloadReport)>) -> Seq<usize> {
    Seq::new(done.len(), |i: int| done[i].0)
}

/// The second components of a list of pairs.
pub open spec fn reports_of(done: Seq<(usize, DownloadReport)>) -> Seq<DownloadReport> {
    Seq::new(done.len(), |i: int| done[i].1)
}

proof fn lemma_in_order_len(done: Seq<(usize, DownloadReport)>)
    ensures
        in_order(done).len() == done.len(),
    decreases done.len(),
{
    if done.len() > 0 {
        let rest = in_order(done.drop_first());
        lemma_in_order_len(done.drop_first());
        lemma_slot(keys_of(rest), done[0].0, 0);
    }
}

/// The reports of `results`, each of which carries the place of its URL in
/// the input, in the order of those places, whatever the order in which the
/// downloads ended.
pub fn order_reports(results: Vec<(usize, DownloadReport)>) -> (out: Vec<DownloadReport>)
    ensures
        out@ == reports_of(in_order(results@)),
        out@.len() == results@.len(),
{
    let mut results = results;
    let ghost all = results@;
    let mut keys: Vec<usize> = Vec::new();
    let mut out: Vec<DownloadReport> = Vec::new();
    while results.len() > 0
        invariant
            results@ == all.subrange(0, results@.len() as int),
            results@.len() <= all.len(),
            keys@ == keys_of(in_order(all.subrange(results@.len() as int, all.len() as int))),
            out@ == reports_of(in_order(all.subrange(results@.len() as int, all.len() as int))),
        decreases results.len(),
    {
        let ghost n = results@.len() as int;
        let ghost later = all.subrange(n, all.len() as int);
        let ghost now = all.subrange(n - 1, all.len() as int);
        let (key, report) = results.pop().unwrap();
        assert(now.drop_first() =~= later);
        let mut at: usize = 0;
        while at < keys.len() && keys[at] < key
            invariant
                at <= keys.len(),
                slot_for(keys@, key, at as int) == slot_for(keys@, key, 0),
            decreases keys.len() - at,
        {
            at += 1;
        }
        keys.insert(at, key);
        out.insert(at, report);
    }
    assert(all.subrange(0, all.len() as int) =~= all);
    proof {
        lemma_in_order_len(all);
    }
    out
}

/// Whether every entry of `part` is an entry of `whole`.
pub open spec fn all_among(
    part: Seq<(usize, DownloadReport)>,
    whole: Seq<(usize, DownloadReport)>,
) -> bool {
    forall|p: int| 0 <= p < part.len() ==> whole.contains(#[trigger] part[p])
}

/// Whether no place occurs twice as a first component.
pub open spec fn distinct_places(done: Seq<(usize, DownloadReport)>) -> bool {
    forall|i: int, j: int|
        0 <= i < j < done.len() ==> (#[trigger] done[i]).0 != (#[trigger] done[j]).0
}

/// Whether the first components grow from each entry to the next.
pub open spec fn ascending(done: Seq<(usize, DownloadReport)>) -> bool {
    forall|p: int, q: int|
        0 <= p < q < done.len() ==> (#[trigger] done[p]).0 < (#[trigger] done[q]).0
}

proof fn lemma_slot(keys: Seq<usize>, key: usize, from: int)
    requires
        0 <= from <= keys.len(),
    ensures
        from <= slot_for(keys, key, from) <= keys.len(),
        forall|p: int| from <= p < slot_for(keys, key, from) ==> keys[p] < key,
        slot_for(keys, key, from) < keys.len() ==> keys[slot_for(keys, key, from)] >= key,
    decreases keys.len() - from,
{
    if from < keys.len() && keys[from] < key {
        lemma_slot(keys, key, from + 1);
    }
}

proof fn lemma_insert_ascending(rest: Seq<(usize, DownloadReport)>, first: (usize, DownloadReport))
    requires
        ascending(rest),
        forall|p: int| 0 <= p < rest.len() ==> (#[trigger] rest[p]).0 != first.0,
    ensures
        ascending(rest.insert(slot_for(keys_of(rest), first.0, 0), first)),
{
    let keys = keys_of(rest);
    let slot = slot_for(keys, first.0, 0);
    let sorted = rest.insert(slot, first);
    lemma_slot(keys, first.0, 0);
    assert forall|p: int, q: int| 0 <= p < q < sorted.len() implies (#[trigger] sorted[p]).0 < (
    #[trigger] sorted[q]).0 by {
        if q == slot {
            assert(keys[p] == rest[p].0);
        }
    }
}

proof fn lemma_insert_among(
    done: Seq<(usize, DownloadReport)>,
    rest: Seq<(usize, DownloadReport)>,
    slot: int,
)
    requires
        done.len() > 0,
        0 <= slot <= rest.len(),
        all_among(rest, done.drop_first()),
        all_among(done.drop_first(), rest),
    ensures
        all_among(rest.insert(slot, done[0]), done),
        all_among(done, rest.insert(slot, done[0])),
{
    let tail = done.drop_first();
    let sorted = rest.insert(slot, done[0]);
    assert forall|p: int| 0 <= p < sorted.len() implies done.contains(#[trigger] sorted[p]) by {
        if p != slot {
            let from = if p < slot {
                p
            } else {
                p - 1
            };
            let i = choose|i: int| 0 <= i < tail.len() && tail[i] == rest[from];
        }
    }
    assert forall|i: int| 0 <= i < done.len() implies sorted.contains(#[trigger] done[i]) by {
        if i == 0 {
            assert(sorted[slot] == done[i]);
        } else {
            let from = choose|p: int| 0 <= p < rest.len() && rest[p] == tail[i - 1];
            let to = if from < slot {
                from
            } else {
                from + 1
            };
            assert(sorted[to] == done[i]);
        }
    }
}

proof fn lemma_in_order_distinct(done: Seq<(usize, DownloadReport)>)
    requires
        distinct_places(done),
    ensures
        in_order(done).len() == done.len(),
        ascending(in_order(done)),
        all_among(in_order(done), done),
        all_among(done, in_order(done)),
    decreases done.len(),
{
    if done.len() > 0 {
        let first = done[0];
        let tail = done.drop_first();
        let rest = in_order(tail);
        let slot = slot_for(keys_of(rest), first.0, 0);
        assert forall|i: int, j: int| 0 <= i < j < tail.len() implies (#[trigger] tail[i]).0 != (
        #[trigger] tail[j]).0 by {}
        lemma_in_order_distinct(tail);
        lemma_slot(keys_of(rest), first.0, 0);
        assert forall|p: int| 0 <= p < rest.len() implies (#[trigger] rest[p]).0 != first.0 by {
            let i = choose|i: int| 0 <= i < tail.len() && tail[i] == rest[p];
        }
        lemma_insert_ascending(rest, first);
        lemma_insert_among(done, rest, slot);
    }
}

proof fn lemma_ascending_floor(done: Seq<(usize, DownloadReport)>, p: int)
    requires
        ascending(done),
        0 <= p < done.len(),
    ensures
        done[p].0 >= p,
    decreases p,
{
    if p > 0 {
        lemma_ascending_floor(done, p - 1);
    }
}

proof fn lemma_ascending_ceiling(done: Seq<(usize, DownloadReport)>, p: int)
    requires
        ascending(done),
        0 <= p < done.len(),
        forall|q: int| 0 <= q < done.len() ==> done[q].0 < done.len(),
    ensures
        done[p].0 <= p,
    decreases done.len() - p,
{
    if p + 1 < done.len() {
        lemma_ascending_ceiling(done, p + 1);
    }
}

/// Whatever the order in which the downloads ended, the reports come back in
/// the order of the input: where `done` holds one entry for each place
/// below its length, the entry of place `k` stands at `k` once `done` is put
/// in order, so the `k`-th report is that of the `k`-th URL, with the outcome
/// that its download had.
pub proof fn lemma_input_order_restored(done: Seq<(usize, DownloadReport)>)
    requires
        distinct_places(done),
        forall|i: int| 0 <= i < done.len() ==> done[i].0 < done.len(),
    ensures
        reports_of(in_order(done)).len() == done.len(),
        forall|i: int|
            0 <= i < done.len() ==> reports_of(in_order(done))[(#[trigger] done[i]).0 as int]
                == done[i].1,
{
    let sorted = in_order(done);
    lemma_in_order_distinct(done);
    assert forall|q: int| 0 <= q < sorted.len() implies sorted[q].0 < sorted.len() by {
        let i = choose|i: int| 0 <= i < done.len() && done[i] == sorted[q];
    }
    assert forall|i: int| 0 <= i < done.len() implies reports_of(sorted)[(
    #[trigger] done[i]).0 as int] == done[i].1 by {
        let p = choose|p: int| 0 <= p < sorted.len() && sorted[p] == done[i];
        lemma_ascending_floor(sorted, p);
        lemma_ascending_ceiling(sorted, p);
    }
}

/// How many of the first `n` reports are successes.
pub open spec fn successes(reports: Seq<DownloadReport>, n: int) -> nat
    decreases n,
{
    if n <= 0 {
        0
    } else {
        successes(reports, n - 1) + if reports[n - 1].result is Ok {
            1nat
        } else {
            0nat
        }
    }
}

proof fn lemma_successes_bound(reports: Seq<DownloadReport>, n: int)
    requires
        0 <= n,
    ensures
        successes(reports, n) <= n,
    decreases n,
{
    if n > 0 {
        lemma_successes_bound(reports, n - 1);
    }
}

/// How many downloads wrote their file, and how many did not.
pub fn count_outcomes(reports: &Vec<DownloadReport>) -> (counts: (usize, usize))
    ensures
        counts.0 == successes(reports@, reports@.len() as int),
        counts.0 + counts.1 == reports@.len(),
{
    let mut succeeded: usize = 0;
    let mut failed: usize = 0;
    let mut i: usize = 0;
    while i < reports.len()
        invariant
            i <= reports.len(),
            succeeded == successes(reports@, i as int),
            succeeded + failed == i,
        decreases reports.len() - i,
    {
        if reports[i].is_success() {
            succeeded += 1;
        } else {
            failed += 1;
        }
        i += 1;
    }
    (succeeded, failed)
}

/// How a run ended as a whole: well where no download failed, else with the
/// counts as a `DownloadSummary`.
pub fn summary(succeeded: usize, failed: usize) -> (r: Result<(), Error>)
    ensures
        r is Ok <==> failed == 0,
        r is Err ==> r == Err::<(), Error>(Error::DownloadSummary { succeeded, failed }),
{
    if failed > 0 {
        Err(Error::DownloadSummary { succeeded, failed })
    } else {
        Ok(())
    }
}

} // verus!
