//! One image of the jump-cpg0016 dataset: the fields it is selected by,
//! where its file lies, and how a failed fetch is tried again.

use crate::utils::{strip_prefix, text_of};
use vstd::prelude::*;
use vstd::string::StringExecFns;

verus! {

/// The bucket that holds the gallery.
pub const CPG0016_ROOT: &'static str = "cellpainting-gallery";

/// The key prefix of the dataset inside the bucket.
pub const CPG0016_PATH: &'static str = "cpg0016-jump";

/// The prefix that every stored path begins with:
/// `s3://cellpainting-gallery/cpg0016-jump/`.
pub open spec fn bucket_prefix() -> Seq<char> {
    "s3://"@ + CPG0016_ROOT@ + "/"@ + CPG0016_PATH@ + "/"@
}

/// The public address that stands for [`bucket_prefix`]:
/// `https://cellpainting-gallery.s3.amazonaws.com/cpg0016-jump/`.
pub open spec fn public_prefix() -> Seq<char> {
    "https://"@ + CPG0016_ROOT@ + ".s3.amazonaws.com/"@ + CPG0016_PATH@ + "/"@
}

/// How many times the fetch of one file is attempted, at most.
pub const MAX_RETRIES: u32 = 3;

/// The pause between two attempts, in seconds. It does not grow.
pub const RETRY_DELAY_SECS: u64 = 2;

/// The time allowed to each single request, in seconds.
pub const REQUEST_TIMEOUT_SECS: u64 = 30;

/// The mathematical value of a [`JumpCpg0016Image`]: each field as a
/// sequence of characters.
pub struct ImageRecord {
    pub source: Seq<char>,
    pub batch: Seq<char>,
    pub plate: Seq<char>,
    pub site: Seq<char>,
    pub well: Seq<char>,
    pub illum: Seq<char>,
    pub filename: Seq<char>,
    pub path: Seq<char>,
    pub compound: Seq<char>,
}

/// The six optional equality constraints of a query, as sequences of
/// characters. An absent constraint matches every record.
pub struct Criteria {
    pub source: Option<Seq<char>>,
    pub batch: Option<Seq<char>>,
    pub plate: Option<Seq<char>>,
    pub site: Option<Seq<char>>,
    pub well: Option<Seq<char>>,
    pub compound: Option<Seq<char>>,
}

/// Whether one field meets one constraint: an absent constraint is met by
/// every field, a present one only by the very same characters.
pub open spec fn field_matches(field: Seq<char>, wanted: Option<Seq<char>>) -> bool {
    match wanted {
        Some(w) => field == w,
        None => true,
    }
}

impl Criteria {
    /// True when no constraint is present.
    pub open spec fn is_empty(self) -> bool {
        &&& self.source is None
        &&& self.batch is None
        &&& self.plate is None
        &&& self.site is None
        &&& self.well is None
        &&& self.compound is None
    }
}

/// The constraints of a query: for each identity field either the value
/// that a record must have there, or nothing.
#[derive(Debug)]
pub struct Selection {
    pub source: Option<String>,
    pub batch: Option<String>,
    pub plate: Option<String>,
    pub site: Option<String>,
    pub well: Option<String>,
    pub compound: Option<String>,
}

impl View for Selection {
    type V = Criteria;

    open spec fn view(&self) -> Criteria {
        Criteria {
            source: text_of(self.source),
            batch: text_of(self.batch),
            plate: text_of(self.plate),
            site: text_of(self.site),
            well: text_of(self.well),
            compound: text_of(self.compound),
        }
    }
}

/// Whether a field meets a constraint that is only borrowed.
fn meets(field: &String, wanted: &Option<String>) -> (ok: bool)
    ensures
        ok == field_matches(field@, text_of(*wanted)),
{
    match wanted {
        Some(w) => *field == *w,
        None => true,
    }
}

impl ImageRecord {
    /// The public address of the image's file: the stored path with the
    /// bucket prefix replaced by the public one, then the file name.
    /// A path that does not begin with the bucket prefix has none.
    pub open spec fn object_url(self) -> Option<Seq<char>> {
        if bucket_prefix().is_prefix_of(self.path) {
            Some(public_prefix() + self.path.skip(bucket_prefix().len() as int) + self.filename)
        } else {
            None
        }
    }

    /// A record matches when each of its six identity fields meets the
    /// constraint on that field.
    pub open spec fn matches(self, c: Criteria) -> bool {
        &&& field_matches(self.source, c.source)
        &&& field_matches(self.batch, c.batch)
        &&& field_matches(self.plate, c.plate)
        &&& field_matches(self.site, c.site)
        &&& field_matches(self.well, c.well)
        &&& field_matches(self.compound, c.compound)
    }
}

/// The metadata of one jump-cpg0016 image.
#[derive(Debug, Clone)]
pub struct JumpCpg0016Image {
    source: String,
    batch: String,
    plate: String,
    site: String,
    well: String,
    illum: String,
    filename: String,
    path: String,
    compound: String,
}

impl View for JumpCpg0016Image {
    type V = ImageRecord;

    closed spec fn view(&self) -> ImageRecord {
        ImageRecord {
            source: self.source@,
            batch: self.batch@,
            plate: self.plate@,
            site: self.site@,
            well: self.well@,
            illum: self.illum@,
            filename: self.filename@,
            path: self.path@,
            compound: self.compound@,
        }
    }
}

impl JumpCpg0016Image {
    /// A record with the given fields.
    pub fn new(
        source: String,
        batch: String,
        plate: String,
        site: String,
        well: String,
        illum: String,
        filename: String,
        path: String,
        compound: String,
    ) -> (image: JumpCpg0016Image)
        ensures
            image@ == (ImageRecord {
                source: source@,
                batch: batch@,
                plate: plate@,
                site: site@,
                well: well@,
                illum: illum@,
                filename: filename@,
                path: path@,
                compound: compound@,
            }),
    {
        JumpCpg0016Image { source, batch, plate, site, well, illum, filename, path, compound }
    }

    /// The name under which the image's file is written.
    pub fn filename(&self) -> (name: &str)
        ensures
            name@ == self@.filename,
    {
        self.filename.as_str()
    }

    /// The stored locator of the directory that holds the image's file.
    pub fn path(&self) -> (path: &str)
        ensures
            path@ == self@.path,
    {
        self.path.as_str()
    }

    /// Whether the record meets every constraint of `selection` that is
    /// present. Absent constraints are met by every record.
    pub fn matches(&self, selection: &Selection) -> (ok: bool)
        ensures
            ok == self@.matches(selection@),
    {
        meets(&self.source, &selection.source) && meets(&self.batch, &selection.batch) && meets(
            &self.plate,
            &selection.plate,
        ) && meets(&self.site, &selection.site) && meets(&self.well, &selection.well) && meets(
            &self.compound,
            &selection.compound,
        )
    }

    /// Whether the record's data generating center is the one asked for, if one is asked
    /// for.
    pub fn check_source(&self, source: Option<String>) -> (ok: bool)
        ensures
            ok == field_matches(self@.source, text_of(source)),
    {
        match source {
            Some(s) => self.source == s,
            None => true,
        }
    }

    /// Whether the record's batch is the one asked for, if one is asked
    /// for.
    pub fn check_batch(&self, batch: Option<String>) -> (ok: bool)
        ensures
            ok == field_matches(self@.batch, text_of(batch)),
    {
        match batch {
            Some(b) => self.batch == b,
            None => true,
        }
    }

    /// Whether the record's plate is the one asked for, if one is asked
    /// for.
    pub fn check_plate(&self, plate: Option<String>) -> (ok: bool)
        ensures
            ok == field_matches(self@.plate, text_of(plate)),
    {
        match plate {
            Some(p) => self.plate == p,
            None => true,
        }
    }

    /// Whether the record's site is the one asked for, if one is asked
    /// for.
    pub fn check_site(&self, site: Option<String>) -> (ok: bool)
        ensures
            ok == field_matches(self@.site, text_of(site)),
    {
        match site {
            Some(s) => self.site == s,
            None => true,
        }
    }

    /// Whether the record's well is the one asked for, if one is asked
    /// for.
    pub fn check_well(&self, well: Option<String>) -> (ok: bool)
        ensures
            ok == field_matches(self@.well, text_of(well)),
    {
        match well {
            Some(w) => self.well == w,
            None => true,
        }
    }

    /// Whether the record's compound is the one asked for, if one is asked
    /// for.
    pub fn check_compound(&self, compound: Option<String>) -> (ok: bool)
        ensures
            ok == field_matches(self@.compound, text_of(compound)),
    {
        match compound {
            Some(c) => self.compound == c,
            None => true,
        }
    }

    /// The address from which the image's file is fetched, if the stored
    /// path lies in the gallery's bucket.
    pub fn object_url(&self) -> (url: Option<String>)
        ensures
            text_of(url) == self@.object_url(),
    {
        let prefix = String::from_str("s3://").concat(CPG0016_ROOT).concat("/").concat(
            CPG0016_PATH,
        ).concat("/");
        match strip_prefix(self.path.as_str(), prefix.as_str()) {
            Some(rest) => {
                let url = String::from_str("https://").concat(CPG0016_ROOT).concat(
                    ".s3.amazonaws.com/",
                ).concat(CPG0016_PATH).concat("/").concat(rest).concat(self.filename.as_str());
                Some(url)
            },
            None => None,
        }
    }

    /// Begins the fetch of the image's file: no attempt made yet, the
    /// address and the file name fixed. A record whose path does not lie
    /// in the gallery's bucket cannot be fetched.
    pub fn download(&self) -> (started: Result<Download, DownloadError>)
        ensures
            match started {
                Ok(d) => {
                    &&& self@.object_url() == Some(d.spec_url())
                    &&& d.spec_filename() == self@.filename
                    &&& d.tally() == Tally::fresh()
                },
                Err(e) => e == DownloadError::ForeignPath && self@.object_url() is None,
            },
    {
        match self.object_url() {
            Some(url) => Ok(
                Download {
                    url,
                    filename: self.filename.clone(),
                    attempts: 0,
                    status: Status::Pending,
                },
            ),
            None => Err(DownloadError::ForeignPath),
        }
    }

    /// Whether the image metadata matches the query: every constraint that
    /// is present equals the corresponding field, character for character.
    pub fn filter(
        &self,
        source: Option<String>,
        batch: Option<String>,
        plate: Option<String>,
        site: Option<String>,
        well: Option<String>,
        compound: Option<String>,
    ) -> (ok: bool)
        ensures
            ok == self@.matches(
                Criteria {
                    source: text_of(source),
                    batch: text_of(batch),
                    plate: text_of(plate),
                    site: text_of(site),
                    well: text_of(well),
                    compound: text_of(compound),
                },
            ),
    {
        self.check_source(source) && self.check_batch(batch) && self.check_plate(plate)
            && self.check_site(site) && self.check_well(well) && self.check_compound(compound)
    }
}

/// What one attempt to fetch a file came to.
#[derive(Clone, Copy, Debug, PartialEq, Eq, Structural)]
pub enum Attempt {
    /// The server answered with success and the whole body was written to
    /// the file.
    Stored,
    /// The server answered with a status that is no success.
    Refused,
    /// The request did not get through, or no answer came in time.
    Unreachable,
    /// An answer came, but it could not be read to its end or the file
    /// could not be written.
    Broken,
}

/// What is put behind the file name while the file is being written.
pub const PARTIAL_SUFFIX: &'static str = ".part";

impl Attempt {
    /// Attempts that have failed: every one that did not store the file.
    /// Each of them is worth another try, while tries are left.
    pub open spec fn failed(self) -> bool {
        self != Attempt::Stored
    }

    /// What an attempt came to, given the status of the answer, if one
    /// came, and whether the answer was then dealt with to its end.
    ///
    /// A status from 200 to 299 is success: the attempt has stored the file
    /// if the body was read and written in full. Any other status is a
    /// refusal, if what the server said could be read. An answer that was
    /// not dealt with to its end is broken. No answer at all means that
    /// the server was not reached.
    pub open spec fn judged(status: Option<u16>, complete: bool) -> Attempt {
        match status {
            None => Attempt::Unreachable,
            Some(code) => if !complete {
                Attempt::Broken
            } else if 200 <= code < 300 {
                Attempt::Stored
            } else {
                Attempt::Refused
            },
        }
    }

    /// Says what an attempt came to: see [`Attempt::judged`].
    pub fn of(status: Option<u16>, complete: bool) -> (attempt: Attempt)
        ensures
            attempt == Attempt::judged(status, complete),
    {
        match status {
            None => Attempt::Unreachable,
            Some(code) => {
                if !complete {
                    Attempt::Broken
                } else if 200 <= code && code < 300 {
                    Attempt::Stored
                } else {
                    Attempt::Refused
                }
            },
        }
    }

    /// Whether a status means success, so that the body is the file.
    pub fn is_success(status: u16) -> (ok: bool)
        ensures
            ok == (200 <= status < 300),
    {
        200 <= status && status < 300
    }
}

/// Why the fetch of one file failed.
#[derive(Clone, Copy, Debug, PartialEq, Eq, Structural)]
pub enum DownloadError {
    /// The stored path does not lie in the gallery's bucket, so the file
    /// has no address.
    ForeignPath,
    /// Every attempt that was allowed has failed.
    Exhausted,
}

impl DownloadError {
    /// What the user is told.
    pub open spec fn text(self) -> Seq<char> {
        match self {
            DownloadError::ForeignPath => "Image path is outside the cpg0016 bucket."@,
            DownloadError::Exhausted => "Failed to download file after multiple retries."@,
        }
    }

    /// What the user is told.
    pub fn message(&self) -> (text: &'static str)
        ensures
            text@ == self.text(),
    {
        match self {
            DownloadError::ForeignPath => "Image path is outside the cpg0016 bucket.",
            DownloadError::Exhausted => "Failed to download file after multiple retries.",
        }
    }
}

/// Where the fetch of one file stands.
#[derive(Clone, Copy, Debug, PartialEq, Eq, Structural)]
pub enum Status {
    /// Another attempt is due.
    Pending,
    /// The file is written.
    Done,
    /// The fetch has failed for good.
    Failed(DownloadError),
}

/// What the caller does next for one file.
#[derive(Clone, Copy, Debug, PartialEq, Eq, Structural)]
pub enum Step {
    /// Wait the given number of seconds, then attempt again.
    RetryAfter(u64),
    /// Nothing more: the file is written.
    Finished,
    /// Nothing more: the fetch has failed.
    GiveUp(DownloadError),
}

/// The number of attempts made and the standing that results.
pub struct Tally {
    pub attempts: nat,
    pub status: Status,
}

impl Tally {
    /// The tally before the first attempt.
    pub open spec fn fresh() -> Tally {
        Tally { attempts: 0, status: Status::Pending }
    }

    /// A pending fetch has attempts left; no fetch makes more attempts
    /// than are allowed.
    pub open spec fn wf(self) -> bool {
        &&& self.attempts <= MAX_RETRIES
        &&& self.status == Status::Pending ==> self.attempts < MAX_RETRIES
    }

    /// The tally after one more attempt has ended as `attempt`.
    ///
    /// An attempt that stored the file ends the fetch. Any other attempt
    /// has failed, in whichever way: the fetch stays pending while fewer
    /// than [`MAX_RETRIES`] attempts are made, and has failed for good with
    /// the last of them. A fetch that is over takes no further attempt.
    pub open spec fn after(self, attempt: Attempt) -> Tally {
        if self.status != Status::Pending {
            self
        } else {
            let made = self.attempts + 1;
            if attempt == Attempt::Stored {
                Tally { attempts: made, status: Status::Done }
            } else if made < MAX_RETRIES {
                Tally { attempts: made, status: Status::Pending }
            } else {
                Tally { attempts: made, status: Status::Failed(DownloadError::Exhausted) }
            }
        }
    }

    /// The tally after all of `attempts`, in their order.
    pub open spec fn after_all(self, attempts: Seq<Attempt>) -> Tally
        decreases attempts.len(),
    {
        if attempts.len() == 0 {
            self
        } else {
            self.after_all(attempts.drop_last()).after(attempts.last())
        }
    }

    /// What the caller does when the tally stands as `self`.
    pub open spec fn step(self) -> Step {
        match self.status {
            Status::Pending => Step::RetryAfter(RETRY_DELAY_SECS),
            Status::Done => Step::Finished,
            Status::Failed(e) => Step::GiveUp(e),
        }
    }
}

/// The fetch of one image's file: where it comes from, the name it is
/// written under, and the attempts so far.
pub struct Download {
    url: String,
    filename: String,
    attempts: u32,
    status: Status,
}

impl Download {
    #[verifier::type_invariant]
    spec fn inv(self) -> bool {
        self.tally().wf()
    }

    /// The address the file is fetched from.
    pub closed spec fn spec_url(self) -> Seq<char> {
        self.url@
    }

    /// The name the file is written under, inside the output directory.
    pub closed spec fn spec_filename(self) -> Seq<char> {
        self.filename@
    }

    /// The name the file is written under until it is whole: the file
    /// name with [`PARTIAL_SUFFIX`] behind it.
    pub open spec fn spec_partial_filename(self) -> Seq<char> {
        self.spec_filename() + PARTIAL_SUFFIX@
    }

    /// The attempts made and the standing.
    pub closed spec fn tally(self) -> Tally {
        Tally { attempts: self.attempts as nat, status: self.status }
    }

    /// The address the file is fetched from.
    pub fn url(&self) -> (url: &str)
        ensures
            url@ == self.spec_url(),
    {
        self.url.as_str()
    }

    /// The name the file is written under, inside the output directory.
    pub fn filename(&self) -> (name: &str)
        ensures
            name@ == self.spec_filename(),
    {
        self.filename.as_str()
    }

    /// The name under which an attempt writes the file. Only a file that
    /// was written in full is given its own name, so that what a failed
    /// attempt leaves behind is never taken for the file.
    pub fn partial_filename(&self) -> (name: String)
        ensures
            name@ == self.spec_partial_filename(),
    {
        self.filename.clone().concat(PARTIAL_SUFFIX)
    }

    /// The number of attempts made so far; never more than [`MAX_RETRIES`].
    pub fn attempts(&self) -> (n: u32)
        ensures
            n == self.tally().attempts,
            n <= MAX_RETRIES,
    {
        proof {
            use_type_invariant(self);
        }
        self.attempts
    }

    /// Where the fetch stands.
    pub fn status(&self) -> (status: Status)
        ensures
            status == self.tally().status,
            self.tally().wf(),
    {
        proof {
            use_type_invariant(self);
        }
        self.status
    }

    /// Takes note of how an attempt ended and says what to do next.
    ///
    /// Success ends the fetch. Every failure, be it a refusal, a failure
    /// in transport or an answer that broke off, is tried again after
    /// [`RETRY_DELAY_SECS`] seconds, until [`MAX_RETRIES`] attempts have
    /// been made. Once the fetch is over, further notes change nothing.
    pub fn record(&mut self, attempt: Attempt) -> (step: Step)
        ensures
            final(self).tally() == old(self).tally().after(attempt),
            final(self).spec_url() == old(self).spec_url(),
            final(self).spec_filename() == old(self).spec_filename(),
            step == final(self).tally().step(),
    {
        proof {
            use_type_invariant(&*self);
        }
        match self.status {
            Status::Pending => {
                let made: u32 = self.attempts + 1;
                match attempt {
                    Attempt::Stored => {
                        self.status = Status::Done;
                        self.attempts = made;
                        Step::Finished
                    },
                    _ => {
                        if made < MAX_RETRIES {
                            self.attempts = made;
                            Step::RetryAfter(RETRY_DELAY_SECS)
                        } else {
                            self.status = Status::Failed(DownloadError::Exhausted);
                            self.attempts = made;
                            Step::GiveUp(DownloadError::Exhausted)
                        }
                    },
                }
            },
            Status::Done => Step::Finished,
            Status::Failed(e) => Step::GiveUp(e),
        }
    }
}

/// A record meets the criteria that constrain no field.
pub proof fn lemma_no_constraint_matches_all(r: ImageRecord, c: Criteria)
    requires
        c.is_empty(),
    ensures
        r.matches(c),
{
}

/// A record meets the criteria exactly when, field by field, the
/// constraint is absent or holds the field's very characters.
pub proof fn lemma_matches_field_by_field(r: ImageRecord, c: Criteria)
    ensures
        r.matches(c) <==> {
            &&& (c.source is None || c.source == Some(r.source))
            &&& (c.batch is None || c.batch == Some(r.batch))
            &&& (c.plate is None || c.plate == Some(r.plate))
            &&& (c.site is None || c.site == Some(r.site))
            &&& (c.well is None || c.well == Some(r.well))
            &&& (c.compound is None || c.compound == Some(r.compound))
        },
{
}

/// However the attempts end, no fetch makes more than [`MAX_RETRIES`] of
/// them, and a fetch that is still pending has one left.
pub proof fn lemma_attempts_bounded(attempts: Seq<Attempt>)
    ensures
        Tally::fresh().after_all(attempts).wf(),
    decreases attempts.len(),
{
    if attempts.len() > 0 {
        lemma_attempts_bounded(attempts.drop_last());
    }
}

/// A fetch whose first `failures` attempts fail, in whichever way and
/// fewer than [`MAX_RETRIES`] of them, and whose next attempt stores the
/// file, is done after exactly `failures + 1` attempts.
pub proof fn lemma_success_after_failures(attempts: Seq<Attempt>, failures: nat)
    requires
        failures < MAX_RETRIES,
        attempts.len() == failures + 1,
        forall|i: int| 0 <= i < failures ==> (#[trigger] attempts[i]).failed(),
        attempts[failures as int] == Attempt::Stored,
    ensures
        Tally::fresh().after_all(attempts) == (Tally {
            attempts: failures + 1,
            status: Status::Done,
        }),
{
    lemma_pending_while_failing(attempts.drop_last(), failures);
}

/// After `failures` attempts that all fail, fewer than [`MAX_RETRIES`]
/// of them, the fetch is pending and has counted each of them.
pub proof fn lemma_pending_while_failing(attempts: Seq<Attempt>, failures: nat)
    requires
        failures < MAX_RETRIES,
        attempts.len() == failures,
        forall|i: int| 0 <= i < failures ==> (#[trigger] attempts[i]).failed(),
    ensures
        Tally::fresh().after_all(attempts) == (Tally {
            attempts: failures,
            status: Status::Pending,
        }),
    decreases failures,
{
    if failures > 0 {
        lemma_pending_while_failing(attempts.drop_last(), (failures - 1) as nat);
    }
}

/// A fetch whose first [`MAX_RETRIES`] attempts all fail has failed for
/// good, and later attempts change nothing.
pub proof fn lemma_exhausted(attempts: Seq<Attempt>)
    requires
        attempts.len() >= MAX_RETRIES,
        forall|i: int| 0 <= i < MAX_RETRIES ==> (#[trigger] attempts[i]).failed(),
    ensures
        Tally::fresh().after_all(attempts) == (Tally {
            attempts: MAX_RETRIES as nat,
            status: Status::Failed(DownloadError::Exhausted),
        }),
    decreases attempts.len(),
{
    if attempts.len() == MAX_RETRIES {
        lemma_pending_while_failing(attempts.drop_last(), (MAX_RETRIES - 1) as nat);
    } else {
        lemma_exhausted(attempts.drop_last());
    }
}

} // verus!
