//! One pass over a watched directory as a state machine: the reads, the bulk
//! check and the uploads are made by the caller, which hands each outcome
//! back; the pass decides what comes next and what the pass returns.
use vstd::prelude::*;

use crate::dedup::{accepted_upto, select_accepted, CheckResult};
use crate::digest::Candidate;
use crate::scan::texts;
use crate::upload::{count_true, count_uploaded};

verus! {

/// Why a pass, or one upload within it, failed.
pub enum PassError {
    /// The watched directory could not be listed.
    DirectoryRead(String),
    /// A candidate file could not be read.
    FileRead(String),
    /// The bulk check could not be sent, or the server answered with a
    /// status outside 200..=299.
    CheckRequest { status: u16, body: String },
    /// The bulk check answer was not a list of verdicts.
    CheckParse(String),
    /// The bulk check request could not be sent.
    CheckSend(String),
    /// One upload request could not be sent.
    UploadSend(String),
    /// One upload could not be sent, or the server answered with a status
    /// outside 200..=299.
    Upload { status: u16, body: String },
}

pub open spec fn success_status(status: u16) -> bool {
    200 <= status <= 299
}

/// Whether an HTTP status is a success (2xx).
pub fn is_success(status: u16) -> (r: bool)
    ensures
        r == success_status(status),
{
    200 <= status && status <= 299
}

/// The outcome of the bulk check: an error status fails the check with the
/// status and body; an answer that did not parse fails it with the parse
/// error;
/// otherwise the accepted candidates, in their order.
pub fn bulk_check_outcome(
    candidates: &Vec<Candidate>,
    status: u16,
    body: String,
    results: Result<Vec<CheckResult>, String>,
) -> (r: Result<Vec<Candidate>, PassError>)
    ensures
        !success_status(status) ==> (r matches Err(PassError::CheckRequest { status: s, body: b })
            && s == status && b == body),
        success_status(status) && results is Err ==> (r matches Err(PassError::CheckParse(m))
            && m == results->Err_0),
        success_status(status) && results is Ok ==> (r matches Ok(sel) && {
            let res = results->Ok_0@;
            let pos = accepted_upto(res, candidates@.len());
            &&& sel@.len() == pos.len()
            &&& forall|k: int| 0 <= k < sel@.len() ==> {
                let p = #[trigger] pos[k] as int;
                &&& sel@[k].path@ == candidates@[p].path@
                &&& sel@[k].digest@ == candidates@[p].digest@
                &&& sel@[k].data@ == candidates@[p].data@
            }
        }),
{
    if !is_success(status) {
        return Err(PassError::CheckRequest { status, body });
    }
    match results {
        Err(m) => Err(PassError::CheckParse(m)),
        Ok(res) => Ok(select_accepted(candidates, &res)),
    }
}

/// The outcome of one upload: a success status means the file was uploaded;
/// any other is an upload error with the status and body.
pub fn upload_outcome(status: u16, body: String) -> (r: Result<bool, PassError>)
    ensures
        success_status(status) ==> r == Ok::<bool, PassError>(true),
        !success_status(status) ==> (r matches Err(PassError::Upload { status: s, body: b })
            && s == status && b == body),
{
    if is_success(status) {
        Ok(true)
    } else {
        Err(PassError::Upload { status, body })
    }
}

/// What a pass asks for next.
#[derive(Clone, Copy, Debug, PartialEq, Eq, Structural)]
pub enum PassStep {
    /// Read the scanned file at this position.
    ReadFile(usize),
    /// Send the bulk check for all candidates.
    Check,
    /// Upload the accepted candidate at this position.
    Upload(usize),
    /// Nothing is left to do.
    Finished,
}

/// The observable state of a pass.
pub ghost struct PassView {
    pub files: Seq<Seq<char>>,
    pub read: nat,
    pub checked: bool,
    pub accepted: nat,
    pub outcomes: Seq<bool>,
    pub error: Option<PassError>,
}

/// The next step of a pass: files are read in order; an empty scan, or the
/// first failure, ends the pass; after the check every accepted candidate is
/// uploaded in turn, whatever became of the ones before.
pub open spec fn step_of(v: PassView) -> PassStep {
    if v.error is Some || v.files.len() == 0 {
        PassStep::Finished
    } else if v.read < v.files.len() {
        PassStep::ReadFile(v.read as usize)
    } else if !v.checked {
        PassStep::Check
    } else if v.outcomes.len() < v.accepted {
        PassStep::Upload(v.outcomes.len() as usize)
    } else {
        PassStep::Finished
    }
}

/// One scan -> digest -> check -> upload pass over a watched directory,
/// driven by the outcomes of the reads and requests made for it.
pub struct Pass {
    files: Vec<String>,
    candidates: Vec<Candidate>,
    checked: bool,
    accepted: Vec<Candidate>,
    outcomes: Vec<bool>,
    error: Option<PassError>,
}

/// What holds of a pass at every step: no more files read than scanned, the
/// check made only once all are read, nothing accepted or uploaded before
/// it, and at most one upload outcome per accepted candidate.
pub open spec fn pass_inv(v: PassView) -> bool {
    &&& v.read <= v.files.len()
    &&& v.checked ==> v.read == v.files.len()
    &&& !v.checked ==> v.accepted == 0 && v.outcomes.len() == 0
    &&& v.outcomes.len() <= v.accepted
}

/// A pass whose bulk check accepts nothing uploads nothing: from the check
/// step, an answer with no accepted candidate finishes the pass with no
/// upload asked for and a count of zero.
pub proof fn lemma_nothing_accepted_nothing_uploaded(v: PassView, w: PassView)
    requires
        pass_inv(v),
        step_of(v) is Check,
        w.files == v.files,
        w.read == v.read,
        w.outcomes == v.outcomes,
        w.checked,
        w.error is None,
        w.accepted == 0,
    ensures
        step_of(w) == PassStep::Finished,
        count_true(w.outcomes) == 0,
{
    assert(v.outcomes.len() == 0);
    assert(count_true(w.outcomes) == 0);
}

/// How a pass proceeds: an empty scan finishes at once with nothing
/// uploaded; a failure finishes it; after a successful check it asks for one
/// upload per accepted candidate, in order, and then finishes.
pub proof fn lemma_pass_steps(v: PassView)
    ensures
        v.files.len() == 0 ==> step_of(v) == PassStep::Finished,
        v.files.len() == 0 && v.outcomes.len() == 0 ==> count_true(v.outcomes) == 0,
        v.error is Some ==> step_of(v) == PassStep::Finished,
        v.error is None && v.files.len() > 0 && v.read >= v.files.len() && v.checked
            && v.outcomes.len() < v.accepted ==> step_of(v) == PassStep::Upload(v.outcomes.len() as usize),
        v.error is None && v.read >= v.files.len() && v.checked && v.outcomes.len() == v.accepted
            ==> step_of(v) == PassStep::Finished,
{
    if v.outcomes.len() == 0 {
        assert(count_true(v.outcomes) == 0);
    }
}

impl Pass {
    pub closed spec fn view(&self) -> PassView {
        PassView {
            files: texts(self.files@),
            read: self.candidates@.len(),
            checked: self.checked,
            accepted: self.accepted@.len(),
            outcomes: self.outcomes@,
            error: self.error,
        }
    }

    pub closed spec fn wf(&self) -> bool {
        &&& self.candidates@.len() <= self.files@.len()
        &&& self.checked ==> self.candidates@.len() == self.files@.len()
        &&& !self.checked ==> self.accepted@.len() == 0
        &&& self.outcomes@.len() <= self.accepted@.len()
        &&& forall|i: int| 0 <= i < self.candidates@.len() ==> (#[trigger] self.candidates@[i]).path@ == self.files@[i]@
    }

    /// The candidate read at position `i`.
    pub closed spec fn candidate(&self, i: int) -> Candidate {
        self.candidates@[i]
    }

    /// The accepted candidate at position `k`.
    pub closed spec fn accepted_candidate(&self, k: int) -> Candidate {
        self.accepted@[k]
    }

    /// Starts a pass from the result of the scan; a scan that failed ends the
    /// pass with a directory error.
    pub fn new(scan: Result<Vec<String>, String>) -> (r: Pass)
        ensures
            r.wf(),
            pass_inv(r@),
            scan matches Ok(fs) ==> r@ == (PassView {
                files: texts(fs@),
                read: 0,
                checked: false,
                accepted: 0,
                outcomes: Seq::empty(),
                error: None,
            }),
            scan matches Err(m) ==> r@.error == Some(PassError::DirectoryRead(m)),
    {
        match scan {
            Ok(files) => Pass {
                files,
                candidates: Vec::new(),
                checked: false,
                accepted: Vec::new(),
                outcomes: Vec::new(),
                error: None,
            },
            Err(m) => Pass {
                files: Vec::new(),
                candidates: Vec::new(),
                checked: false,
                accepted: Vec::new(),
                outcomes: Vec::new(),
                error: Some(PassError::DirectoryRead(m)),
            },
        }
    }

    /// What the pass asks for next.
    pub fn step(&self) -> (r: PassStep)
        requires
            self.wf(),
        ensures
            r == step_of(self@),
            pass_inv(self@),
    {
        if self.error.is_some() || self.files.len() == 0 {
            PassStep::Finished
        } else if self.candidates.len() < self.files.len() {
            PassStep::ReadFile(self.candidates.len())
        } else if !self.checked {
            PassStep::Check
        } else if self.outcomes.len() < self.accepted.len() {
            PassStep::Upload(self.outcomes.len())
        } else {
            PassStep::Finished
        }
    }

    /// The path of the scanned file at position `i`.
    pub fn file(&self, i: usize) -> (r: &String)
        requires
            i < self@.files.len(),
        ensures
            r@ == self@.files[i as int],
    {
        &self.files[i]
    }

    /// The candidates read so far, in scan order.
    pub fn candidates(&self) -> (r: &Vec<Candidate>)
        ensures
            r@.len() == self@.read,
            forall|i: int| 0 <= i < r@.len() ==> #[trigger] r@[i] == self.candidate(i),
    {
        &self.candidates
    }

    /// The accepted candidate at position `k`.
    pub fn accepted(&self, k: usize) -> (r: &Candidate)
        requires
            k < self@.accepted,
        ensures
            *r == self.accepted_candidate(k as int),
    {
        &self.accepted[k]
    }

    /// Takes in the read of the file that the pass asked for: its content
    /// becomes a candidate; a failed read ends the pass.
    pub fn file_read(&mut self, read: Result<Vec<u8>, String>)
        requires
            old(self).wf(),
            step_of(old(self)@) is ReadFile,
        ensures
            final(self).wf(),
            pass_inv(final(self)@),
            read matches Ok(data) ==> final(self)@ == (PassView { read: old(self)@.read + 1, ..old(self)@ })
                && final(self).candidate(old(self)@.read as int).data@ == data@
                && final(self).candidate(old(self)@.read as int).wf(),
            read matches Err(m) ==> final(self)@ == (PassView { error: Some(PassError::FileRead(m)), ..old(self)@ }),
    {
        match read {
            Ok(data) => {
                let i = self.candidates.len();
                let path = self.files[i].clone();
                let c = Candidate::new(path, data);
                self.candidates.push(c);
                assert(texts(self.files@) == texts(old(self).files@));
            },
            Err(m) => {
                self.error = Some(PassError::FileRead(m));
            },
        }
    }

    /// Takes in the answer to the bulk check: the accepted candidates are
    /// queued for upload; a failed check ends the pass.
    pub fn check_answered(&mut self, status: u16, body: String, results: Result<Vec<CheckResult>, String>)
        requires
            old(self).wf(),
            step_of(old(self)@) is Check,
        ensures
            final(self).wf(),
            pass_inv(final(self)@),
            final(self)@.files == old(self)@.files,
            final(self)@.read == old(self)@.read,
            final(self)@.outcomes == old(self)@.outcomes,
            !success_status(status) ==> (final(self)@.error matches Some(PassError::CheckRequest { status: s, body: b })
                && s == status && b == body),
            success_status(status) && results is Err ==> (final(self)@.error matches Some(PassError::CheckParse(m))
                && m == results->Err_0),
            success_status(status) && results is Ok ==> ({
                let pos = accepted_upto(results->Ok_0@, old(self)@.read);
                &&& final(self)@.error is None
                &&& final(self)@.checked
                &&& final(self)@.accepted == pos.len()
                &&& forall|k: int| 0 <= k < pos.len() ==> {
                    let p = #[trigger] pos[k] as int;
                    &&& final(self).accepted_candidate(k).path@ == old(self).candidate(p).path@
                    &&& final(self).accepted_candidate(k).digest@ == old(self).candidate(p).digest@
                    &&& final(self).accepted_candidate(k).data@ == old(self).candidate(p).data@
                }
            }),
    {
        match bulk_check_outcome(&self.candidates, status, body, results) {
            Ok(sel) => {
                self.accepted = sel;
                self.checked = true;
            },
            Err(e) => {
                self.error = Some(e);
            },
        }
    }

    /// The bulk check could not be sent: the pass ends with that error.
    pub fn check_failed(&mut self, message: String)
        requires
            old(self).wf(),
            step_of(old(self)@) is Check,
        ensures
            final(self).wf(),
            pass_inv(final(self)@),
            final(self)@ == (PassView { error: Some(PassError::CheckSend(message)), ..old(self)@ }),
    {
        self.error = Some(PassError::CheckSend(message));
    }

    /// Takes in the outcome of the upload that the pass asked for; a failed
    /// upload counts as not uploaded and the pass goes on.
    pub fn upload_answered(&mut self, outcome: &Result<bool, PassError>)
        requires
            old(self).wf(),
            step_of(old(self)@) is Upload,
        ensures
            final(self).wf(),
            pass_inv(final(self)@),
            final(self)@ == (PassView {
                outcomes: old(self)@.outcomes.push(
                    match outcome {
                        Ok(b) => *b,
                        Err(_) => false,
                    },
                ),
                ..old(self)@
            }),
            forall|k: int| 0 <= k < final(self)@.accepted ==> #[trigger] final(self).accepted_candidate(k) == old(self).accepted_candidate(k),
    {
        let b = match outcome {
            Ok(b) => *b,
            Err(_) => false,
        };
        self.outcomes.push(b);
    }

    /// The result of a finished pass: its error, or how many files it
    /// uploaded.
    pub fn outcome(self) -> (r: Result<usize, PassError>)
        requires
            self.wf(),
        ensures
            self@.error matches Some(e) ==> r == Err::<usize, PassError>(e),
            self@.error is None ==> r == Ok::<usize, PassError>(count_true(self@.outcomes) as usize),
    {
        match self.error {
            Some(e) => Err(e),
            None => Ok(count_uploaded(&self.outcomes)),
        }
    }
}

} // verus!
