//! Download decisions: whether an existing file already satisfies a task,
//! how a fresh download is judged, and the bounded retry with linear
//! backoff. The transfers themselves are performed by the caller.

use vstd::prelude::*;
use crate::text::{chars_of, concat2, concat3, decimal_string, slice_string};

verus! {

/// One artifact to fetch: source URL, destination path, and what the
/// result must match.
#[derive(Clone, Debug)]
pub struct DownloadTask {
    pub url: String,
    pub path: String,
    pub size: Option<u64>,
    pub sha1: Option<String>,
    pub sha512: Option<String>,
}

/// A copy of an optional string.
pub fn clone_opt(o: &Option<String>) -> (r: Option<String>)
    ensures
        r == *o,
{
    match o {
        Some(s) => Some(s.clone()),
        None => None,
    }
}

impl DownloadTask {
    /// A copy of the task.
    pub fn clone_task(&self) -> (r: DownloadTask)
        ensures
            r.url@ == self.url@,
            r.path@ == self.path@,
            r.size == self.size,
            r.sha1 == self.sha1,
            r.sha512 == self.sha512,
    {
        DownloadTask {
            url: self.url.clone(),
            path: self.path.clone(),
            size: self.size,
            sha1: clone_opt(&self.sha1),
            sha512: clone_opt(&self.sha512),
        }
    }
}

/// Why a download failed.
#[derive(Clone, Debug)]
pub enum DownloadError {
    Http(String),
    Io(String),
    HashMismatch { expected: String, actual: String },
    RetryExhausted { attempts: u32, message: String },
}

/// The state of a download as it is reported to listeners.
#[derive(Clone, Debug)]
pub enum DownloadStatus {
    Pending,
    Downloading,
    Completed,
    Failed(String),
}

/// Progress of one download.
#[derive(Clone, Debug)]
pub struct DownloadProgress {
    pub id: String,
    pub name: String,
    pub current: u64,
    pub total: u64,
    pub status: DownloadStatus,
}

/// The attempts that one task gets before it is given up.
pub const MAX_ATTEMPTS: u32 = 3;

/// The backoff unit: the wait before attempt `n + 1` is `n` units.
pub const BACKOFF_UNIT_MS: u64 = 500;

/// ASCII lower case of one character.
pub open spec fn ascii_lower(c: char) -> char {
    if 'A' <= c && c <= 'Z' {
        (((c as u32) + 32) as u8) as char
    } else {
        c
    }
}

/// Equality up to ASCII case.
pub open spec fn eq_ignore_ascii_case_spec(a: Seq<char>, b: Seq<char>) -> bool {
    a.len() == b.len() && forall|i: int| 0 <= i < a.len() ==> ascii_lower(#[trigger] a[i]) == ascii_lower(b[i])
}

fn ascii_lower_exec(c: char) -> (r: char)
    ensures
        r == ascii_lower(c),
{
    if 'A' <= c && c <= 'Z' {
        (((c as u32) + 32) as u8) as char
    } else {
        c
    }
}

/// Compares a computed hex digest with an expected one, ignoring ASCII case.
pub fn digest_matches(actual: &str, expected: &str) -> (r: bool)
    ensures
        r == eq_ignore_ascii_case_spec(actual@, expected@),
{
    let a = chars_of(actual);
    let b = chars_of(expected);
    if a.len() != b.len() {
        return false;
    }
    let mut i: usize = 0;
    while i < a.len()
        invariant
            a@ == actual@,
            b@ == expected@,
            a.len() == b.len(),
            i <= a.len(),
            forall|k: int| 0 <= k < i ==> ascii_lower(#[trigger] a@[k]) == ascii_lower(b@[k]),
        decreases a.len() - i,
    {
        if ascii_lower_exec(a[i]) != ascii_lower_exec(b[i]) {
            return false;
        }
        i += 1;
    }
    true
}

/// What is known of a task's destination before downloading: it is
/// missing, or present with the digests the caller computed of it (only
/// those the task names) and its size.
#[derive(Clone, Debug)]
pub enum ExistingFile {
    Missing,
    Present { sha1_hex: Option<String>, sha512_hex: Option<String>, size: u64 },
}

/// Whether an existing destination already satisfies the task: checked by
/// its SHA-1 if the task names one, else by its SHA-512, else by its size;
/// a task that names none of them is always fetched.
pub open spec fn satisfied_spec(task: DownloadTask, existing: ExistingFile) -> bool {
    match existing {
        ExistingFile::Missing => false,
        ExistingFile::Present { sha1_hex, sha512_hex, size } => match task.sha1 {
            Some(e) => (sha1_hex matches Some(a) && eq_ignore_ascii_case_spec(a@, e@)),
            None => match task.sha512 {
                Some(e) => (sha512_hex matches Some(a) && eq_ignore_ascii_case_spec(a@, e@)),
                None => match task.size {
                    Some(n) => size == n,
                    None => false,
                },
            },
        },
    }
}

/// Decides whether a task is already satisfied by the file on disk, so that
/// no transfer is needed.
pub fn already_satisfied(task: &DownloadTask, existing: &ExistingFile) -> (r: bool)
    ensures
        r == satisfied_spec(*task, *existing),
{
    match existing {
        ExistingFile::Missing => false,
        ExistingFile::Present { sha1_hex, sha512_hex, size } => match &task.sha1 {
            Some(e) => match sha1_hex {
                Some(a) => digest_matches(a.as_str(), e.as_str()),
                None => false,
            },
            None => match &task.sha512 {
                Some(e) => match sha512_hex {
                    Some(a) => digest_matches(a.as_str(), e.as_str()),
                    None => false,
                },
                None => match task.size {
                    Some(n) => *size == n,
                    None => false,
                },
            },
        },
    }
}

/// A re-run over a fully populated store fetches nothing: a task with a
/// known digest whose file is present with that digest is satisfied.
pub proof fn lemma_populated_store_fetches_nothing(task: DownloadTask, existing: ExistingFile)
    requires
        task.sha1 is Some || task.sha512 is Some,
        (existing matches ExistingFile::Present { sha1_hex, sha512_hex, size } && (match task.sha1 {
            Some(e) => (sha1_hex matches Some(a) && a@ == e@),
            None => (sha512_hex matches Some(a) && a@ == task.sha512->0@),
        })),
    ensures
        satisfied_spec(task, existing),
{
}

/// How one download attempt ended.
#[derive(Clone, Debug)]
pub enum AttemptOutcome {
    /// Downloaded and matching every digest the task names.
    Verified,
    /// Downloaded, but a digest did not match.
    Mismatch(DownloadError),
    /// The transfer or a file operation failed.
    Failed(DownloadError),
}

/// The judgement of a fresh download from the digests the caller computed
/// of it: the SHA-1 first, then the SHA-512, when the task names them.
pub open spec fn judge_spec(task: DownloadTask, sha1_hex: Option<String>, sha512_hex: Option<String>) -> Option<(Seq<char>, Seq<char>)> {
    match task.sha1 {
        Some(e) if !(sha1_hex matches Some(a) && eq_ignore_ascii_case_spec(a@, e@)) =>
            Some((e@, match sha1_hex { Some(a) => a@, None => Seq::empty() })),
        _ => match task.sha512 {
            Some(e) if !(sha512_hex matches Some(a) && eq_ignore_ascii_case_spec(a@, e@)) =>
                Some((e@, "verification failed"@)),
            _ => None,
        },
    }
}

/// Judges a fresh download against the task's digests.
pub fn judge_download(task: &DownloadTask, sha1_hex: Option<String>, sha512_hex: Option<String>) -> (r: AttemptOutcome)
    ensures
        match judge_spec(*task, sha1_hex, sha512_hex) {
            None => r is Verified,
            Some((e, a)) => (r matches AttemptOutcome::Mismatch(DownloadError::HashMismatch { expected, actual })
                && expected@ == e && actual@ == a),
        },
{
    if let Some(e) = &task.sha1 {
        let ok = match &sha1_hex {
            Some(a) => digest_matches(a.as_str(), e.as_str()),
            None => false,
        };
        if !ok {
            let actual = match sha1_hex {
                Some(a) => a,
                None => String::new(),
            };
            return AttemptOutcome::Mismatch(DownloadError::HashMismatch { expected: e.clone(), actual });
        }
    }
    if let Some(e) = &task.sha512 {
        let ok = match &sha512_hex {
            Some(a) => digest_matches(a.as_str(), e.as_str()),
            None => false,
        };
        if !ok {
            return AttemptOutcome::Mismatch(
                DownloadError::HashMismatch { expected: e.clone(), actual: String::from_str("verification failed") },
            );
        }
    }
    AttemptOutcome::Verified
}

/// The retry state of one task.
#[derive(Clone, Debug)]
pub struct RetryState {
    /// The attempt that was just made, from 1.
    pub attempt: u32,
    pub last_error: Option<DownloadError>,
}

/// What to do after an attempt.
#[derive(Clone, Debug)]
pub enum RetryDecision {
    Succeeded,
    RetryAfter { delay_ms: u64 },
    GiveUp(DownloadError),
}

impl RetryState {
    /// The state before the first attempt is judged.
    pub fn new() -> (r: RetryState)
        ensures
            r.attempt == 1,
            r.last_error is None,
    {
        RetryState { attempt: 1, last_error: None }
    }

    pub open spec fn wf(&self) -> bool {
        1 <= self.attempt <= MAX_ATTEMPTS
    }

    /// Decides after an attempt: success ends the task; any failure is
    /// retried after `attempt × 500 ms` until the third attempt, after which
    /// the task is given up with the last error's message.
    pub fn on_attempt(&mut self, outcome: AttemptOutcome) -> (r: RetryDecision)
        requires
            old(self).wf(),
        ensures
            outcome is Verified ==> r is Succeeded && *final(self) == *old(self),
            !(outcome is Verified) && old(self).attempt < MAX_ATTEMPTS ==> (r matches RetryDecision::RetryAfter { delay_ms } && delay_ms == old(self).attempt
                * BACKOFF_UNIT_MS) && final(self).attempt == old(self).attempt + 1 && final(self).last_error == Some(
                match outcome {
                    AttemptOutcome::Mismatch(e) => e,
                    AttemptOutcome::Failed(e) => e,
                    AttemptOutcome::Verified => old(self).last_error->0,
                },
            ),
            !(outcome is Verified) && old(self).attempt == MAX_ATTEMPTS ==> (r matches RetryDecision::GiveUp(
                DownloadError::RetryExhausted { attempts, message },
            ) && attempts == MAX_ATTEMPTS && message@ == error_message(
                match outcome {
                    AttemptOutcome::Mismatch(e) => e,
                    AttemptOutcome::Failed(e) => e,
                    AttemptOutcome::Verified => old(self).last_error->0,
                },
            )),
            final(self).wf(),
    {
        let err = match outcome {
            AttemptOutcome::Verified => {
                return RetryDecision::Succeeded;
            },
            AttemptOutcome::Mismatch(e) => e,
            AttemptOutcome::Failed(e) => e,
        };
        if self.attempt < MAX_ATTEMPTS {
            let delay_ms = self.attempt as u64 * BACKOFF_UNIT_MS;
            self.attempt = self.attempt + 1;
            self.last_error = Some(err);
            RetryDecision::RetryAfter { delay_ms }
        } else {
            let message = err.message();
            RetryDecision::GiveUp(DownloadError::RetryExhausted { attempts: MAX_ATTEMPTS, message })
        }
    }
}

/// The human-readable text of an error.
pub open spec fn error_message(e: DownloadError) -> Seq<char> {
    match e {
        DownloadError::Http(m) => "HTTP error: "@ + m@,
        DownloadError::Io(m) => "IO error: "@ + m@,
        DownloadError::HashMismatch { expected, actual } => "Hash mismatch: expected "@ + expected@
            + ", got "@ + actual@,
        DownloadError::RetryExhausted { attempts, message } => "Download failed after "@ + crate::text::decimal(
            attempts as nat,
        ) + " attempts: "@ + message@,
    }
}

impl DownloadError {
    /// The error as text.
    pub fn message(&self) -> (r: String)
        ensures
            r@ == error_message(*self),
    {
        match self {
            DownloadError::Http(m) => concat2("HTTP error: ", m.as_str()),
            DownloadError::Io(m) => concat2("IO error: ", m.as_str()),
            DownloadError::HashMismatch { expected, actual } => {
                let mut s = concat3("Hash mismatch: expected ", expected.as_str(), ", got ");
                s.append(actual.as_str());
                s
            },
            DownloadError::RetryExhausted { attempts, message } => {
                let n = decimal_string(*attempts as u64);
                let mut s = concat3("Download failed after ", n.as_str(), " attempts: ");
                s.append(message.as_str());
                s
            },
        }
    }
}

/// The last segment of a path split at `sep`.
pub open spec fn last_segment_spec(path: Seq<char>, sep: char) -> Seq<char> {
    let k = crate::maven::last_index(path, sep);
    path.subrange(k + 1, path.len() as int)
}

/// The last segment of a `/`-separated path.
pub open spec fn file_name_spec(path: Seq<char>) -> Seq<char> {
    last_segment_spec(path, '/')
}

/// The file name shown in progress reports for a destination path.
pub fn progress_file_name(path: &str) -> (r: String)
    ensures
        r@ == file_name_spec(path@),
{
    last_segment(path, '/')
}

/// The part of `path` after its last `sep`.
pub fn last_segment(path: &str, sep: char) -> (r: String)
    ensures
        r@ == last_segment_spec(path@, sep),
{
    let x = chars_of(path);
    let mut i: usize = x.len();
    proof {
        assert(path@.subrange(0, i as int) =~= path@);
    }
    while i > 0
        invariant
            i <= x.len(),
            x@ == path@,
            crate::maven::last_index(path@, sep) == crate::maven::last_index(path@.subrange(0, i as int), sep),
        decreases i,
    {
        if x[i - 1] == sep {
            proof {
                assert(path@.subrange(0, i as int).last() == sep);
            }
            return slice_string(x.as_slice(), i, x.len());
        }
        proof {
            assert(path@.subrange(0, i as int).drop_last() =~= path@.subrange(0, i - 1));
        }
        i -= 1;
    }
    proof {
        assert(path@.subrange(0, 0) =~= Seq::<char>::empty());
    }
    slice_string(x.as_slice(), 0, x.len())
}

} // verus!
