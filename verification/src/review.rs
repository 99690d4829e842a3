//! The review of the selected emails, one after the other: the state that
//! counts what was processed and what was skipped, and the messages of the
//! errors a review can meet.
use vstd::prelude::*;

use crate::drive_upload::{
    drive_period_spec, purchases_path, upload_gives, upload_request, upload_view, DriveUploadError, DriveUploadService,
    UploadedInvoiceFiles,
};
use crate::drive_upload::CommandRunner as DriveCommandRunner;
use crate::gmail_search::{
    candidates_view, download_gives, download_view, CandidateEmail, CandidateEmailView, DownloadedAttachment,
    GmailSearchError, GmailSearchService,
};
use crate::gmail_search::CommandRunner as GmailCommandRunner;
use crate::i18n::{drive_upload_error_text, gmail_search_error_text, Messages};
use crate::invoice::{InvoiceParseError, InvoiceSummary};
use crate::invoice_files::SavedInvoiceFiles;
use crate::keys::{KeyCode, KeyInput};
use crate::settings::AppSettings;
use crate::text::owned;

verus! {

/// Why the review of an email failed.
#[derive(Debug)]
pub enum ReviewError {
    Gmail(GmailSearchError),
    Drive(DriveUploadError),
    Invoice(InvoiceParseError),
    Io(String),
    MissingJson,
    MissingPdf,
}

/// The message shown for a failed review.
pub open spec fn review_error_text(error: ReviewError, text: Messages) -> Seq<char> {
    match error {
        ReviewError::Gmail(e) => gmail_search_error_text(text.language, e),
        ReviewError::Drive(e) => drive_upload_error_text(text.language, e),
        ReviewError::Invoice(InvoiceParseError::InvalidJson(e)) => text.invoice_json_error_prefix@ + ": "@ + "invalid JSON: "@ + e@,
        ReviewError::Invoice(InvoiceParseError::MissingObject) => text.invoice_json_error_prefix@ + ": "@ + "invoice JSON root must be an object"@,
        ReviewError::Io(e) => text.invoice_save_error_prefix@ + ": "@ + e@,
        ReviewError::MissingJson => text.missing_json_error@,
        ReviewError::MissingPdf => text.missing_pdf_error@,
    }
}

/// The message shown for a failed review (see `review_error_text`).
pub fn review_error_message(error: ReviewError, text: &Messages) -> (m: String)
    ensures
        m@ == review_error_text(error, *text),
{
    match error {
        ReviewError::Gmail(e) => text.gmail_search_error(&e),
        ReviewError::Drive(e) => text.drive_upload_error(&e),
        ReviewError::Invoice(e) => {
            let mut m = owned(text.invoice_json_error_prefix);
            m.append(": ");
            let detail = e.message();
            m.append(detail.as_str());
            m
        },
        ReviewError::Io(e) => {
            let mut m = owned(text.invoice_save_error_prefix);
            m.append(": ");
            m.append(e.as_str());
            m
        },
        ReviewError::MissingJson => owned(text.missing_json_error),
        ReviewError::MissingPdf => owned(text.missing_pdf_error),
    }
}

/// An email ready for review: its invoice read from one of its JSON
/// attachments.
#[derive(Clone, Debug)]
pub struct InvoiceReview {
    pub email: CandidateEmail,
    pub json_file: DownloadedAttachment,
    pub invoice: InvoiceSummary,
}

/// What loading the invoice of `email` through `runner` and `parse` comes to,
/// given the downloads `downloads` of its first JSON attachments, in order,
/// and what `parse` read of the downloaded ones, `reads`: each download is
/// what the runner may give for that attachment, each read what `parse` may
/// give for that file; every attachment before the last one tried was
/// downloaded and did not read. The load ends in `r`: `MissingJson` when the
/// email has no JSON attachment, the failure of a download, the invoice of
/// the first attachment that reads, or, when none reads, the error of the
/// last one.
pub open spec fn load_outcome<R: GmailCommandRunner, F: Fn(&DownloadedAttachment) -> Result<InvoiceSummary, InvoiceParseError>>(
    runner: R,
    parse: F,
    email: CandidateEmail,
    downloads: Seq<Result<DownloadedAttachment, GmailSearchError>>,
    reads: Seq<Result<InvoiceSummary, InvoiceParseError>>,
    r: Result<InvoiceReview, ReviewError>,
) -> bool {
    let n = email.json_attachments@.len();
    let k = downloads.len();
    &&& k <= n
    &&& forall|j: int| 0 <= j < k ==> download_gives(runner, email.id@, email.json_attachments@[j]@, #[trigger] download_view(downloads[j]))
    &&& reads.len() <= k
    &&& forall|j: int| 0 <= j < reads.len() ==> (downloads[j] is Ok && #[trigger] call_ensures(parse, (&downloads[j]->Ok_0,), reads[j]))
    &&& forall|j: int| 0 <= j < k - 1 ==> (#[trigger] downloads[j]) is Ok && reads[j] is Err
    &&& if k == 0 {
        n == 0 && r == Err::<InvoiceReview, ReviewError>(ReviewError::MissingJson)
    } else {
        match downloads[k - 1] {
            Err(e) => reads.len() == k - 1 && r == Err::<InvoiceReview, ReviewError>(ReviewError::Gmail(e)),
            Ok(d) => reads.len() == k && match reads[k - 1] {
                Ok(invoice) => r == Ok::<InvoiceReview, ReviewError>(InvoiceReview { email, json_file: d, invoice }),
                Err(e) => k == n && r == Err::<InvoiceReview, ReviewError>(ReviewError::Invoice(e)),
            },
        }
    }
}

/// Loads the invoice of `email`: downloads its JSON attachments in order and
/// reads each with `parse` until one reads (see `load_outcome`). A failed
/// download ends the load; when no attachment reads, the error of the last
/// one is returned, and `MissingJson` when the email has none.
#[verifier::loop_isolation(false)]
pub fn load_invoice_review<R: GmailCommandRunner, F: Fn(&DownloadedAttachment) -> Result<InvoiceSummary, InvoiceParseError>>(
    service: &GmailSearchService<R>,
    email: CandidateEmail,
    parse: F,
) -> (r: Result<InvoiceReview, ReviewError>)
    requires
        forall|d: DownloadedAttachment| call_requires(parse, (&d,)),
    ensures
        r matches Err(ReviewError::MissingJson) <==> email.json_attachments@.len() == 0,
        exists|downloads: Seq<Result<DownloadedAttachment, GmailSearchError>>, reads: Seq<Result<InvoiceSummary, InvoiceParseError>>|
            #[trigger] load_outcome(service.runner_of(), parse, email, downloads, reads, r),
{
    let ghost original = email;
    let n = email.json_attachments.len();
    let mut last_error: Option<InvoiceParseError> = None;
    let ghost mut downloads: Seq<Result<DownloadedAttachment, GmailSearchError>> = Seq::empty();
    let ghost mut reads: Seq<Result<InvoiceSummary, InvoiceParseError>> = Seq::empty();
    let mut i: usize = 0;
    while i < n
        invariant
            email == original,
            n == email.json_attachments@.len(),
            i <= n,
            downloads.len() == i,
            reads.len() == i,
            forall|j: int| 0 <= j < i ==> download_gives(service.runner_of(), email.id@, email.json_attachments@[j]@, #[trigger] download_view(downloads[j])),
            forall|j: int| 0 <= j < i ==> (downloads[j] is Ok && #[trigger] call_ensures(parse, (&downloads[j]->Ok_0,), reads[j])),
            forall|j: int| 0 <= j < i ==> (#[trigger] downloads[j]) is Ok && reads[j] is Err,
            i == 0 <==> last_error is None,
            last_error matches Some(e) ==> reads[i - 1] == Err::<InvoiceSummary, InvoiceParseError>(e),
        decreases n - i,
    {
        let downloaded = service.download_attachment(email.id.as_str(), &email.json_attachments[i]);
        let ghost next_downloads = downloads.push(downloaded);
        let json_file = match downloaded {
            Ok(file) => file,
            Err(error) => {
                let r: Result<InvoiceReview, ReviewError> = Err(ReviewError::Gmail(error));
                proof {
                    assert(next_downloads[i as int] == Err::<DownloadedAttachment, GmailSearchError>(error));
                    assert forall|j: int| 0 <= j < i ==> next_downloads[j] == downloads[j] by {}
                    assert(load_outcome(service.runner_of(), parse, original, next_downloads, reads, r));
                }
                return r;
            },
        };
        let read = parse(&json_file);
        let ghost next_reads = reads.push(read);
        proof {
            assert(next_downloads[i as int] == Ok::<DownloadedAttachment, GmailSearchError>(json_file));
            assert forall|j: int| 0 <= j < i ==> next_downloads[j] == downloads[j] && next_reads[j] == reads[j] by {}
        }
        match read {
            Ok(invoice) => {
                let r: Result<InvoiceReview, ReviewError> = Ok(InvoiceReview { email, json_file, invoice });
                proof {
                    assert(load_outcome(service.runner_of(), parse, original, next_downloads, next_reads, r));
                }
                return r;
            },
            Err(error) => {
                last_error = Some(error);
            },
        }
        proof {
            downloads = next_downloads;
            reads = next_reads;
        }
        i = i + 1;
    }
    let r: Result<InvoiceReview, ReviewError> = match last_error {
        Some(error) => Err(ReviewError::Invoice(error)),
        None => Err(ReviewError::MissingJson),
    };
    proof {
        assert(load_outcome(service.runner_of(), parse, original, downloads, reads, r));
    }
    r
}

/// What saving and uploading `review` comes to, given the download `pdf` of
/// the first PDF attachment of its email and what `save` did with the files,
/// `saved`: without a PDF attachment nothing runs and the answer is
/// `MissingPdf`; otherwise the download is what the Gmail runner may give
/// for that attachment, a failed download ends it, the saving is what `save`
/// may do with the invoice, the JSON file, the PDF file and the download
/// folder, a failed saving ends it, and the saved files are uploaded under
/// the root folder of `settings`, the outcome being what the Drive runner may
/// give for that upload; the saved paths are handed back with the place of
/// the upload.
pub open spec fn save_outcome<
    RG: GmailCommandRunner,
    RD: DriveCommandRunner,
    S: Fn(&InvoiceSummary, &DownloadedAttachment, &DownloadedAttachment, &String) -> Result<SavedInvoiceFiles, String>,
>(
    gmail_runner: RG,
    drive_runner: RD,
    save: S,
    review: InvoiceReview,
    settings: AppSettings,
    pdf: Result<DownloadedAttachment, GmailSearchError>,
    saved: Result<SavedInvoiceFiles, String>,
    r: Result<SavedInvoiceFiles, ReviewError>,
) -> bool {
    if review.email.pdf_attachments@.len() == 0 {
        r == Err::<SavedInvoiceFiles, ReviewError>(ReviewError::MissingPdf)
    } else {
        &&& download_gives(gmail_runner, review.email.id@, review.email.pdf_attachments@[0]@, download_view(pdf))
        &&& match pdf {
            Err(e) => r == Err::<SavedInvoiceFiles, ReviewError>(ReviewError::Gmail(e)),
            Ok(p) => call_ensures(save, (&review.invoice, &review.json_file, &p, &settings.download_dir), saved) && match saved {
                Err(e) => r == Err::<SavedInvoiceFiles, ReviewError>(ReviewError::Io(e)),
                Ok(files) => match r {
                    Ok(out) => out.json_path == files.json_path && out.pdf_path == files.pdf_path
                        && out.drive_upload is Some
                        && upload_gives(
                            drive_runner,
                            upload_request(review.invoice, files, settings.drive_root_folder@),
                            upload_view(Ok::<UploadedInvoiceFiles, DriveUploadError>(out.drive_upload->Some_0)),
                        ),
                    Err(ReviewError::Drive(e)) => upload_gives(
                        drive_runner,
                        upload_request(review.invoice, files, settings.drive_root_folder@),
                        upload_view(Err::<UploadedInvoiceFiles, DriveUploadError>(e)),
                    ),
                    Err(_) => false,
                },
            },
        }
    }
}

/// Saves and uploads a reviewed invoice: downloads the first PDF attachment
/// of its email, writes both files with `save` into the download folder of
/// `settings`, uploads them to Drive under the root folder of `settings`, and
/// returns the saved files with the place of the upload (see
/// `save_outcome`).
pub fn save_invoice_review<
    RG: GmailCommandRunner,
    RD: DriveCommandRunner,
    S: Fn(&InvoiceSummary, &DownloadedAttachment, &DownloadedAttachment, &String) -> Result<SavedInvoiceFiles, String>,
>(
    gmail: &GmailSearchService<RG>,
    drive: &DriveUploadService<RD>,
    review: InvoiceReview,
    settings: &AppSettings,
    save: S,
) -> (r: Result<SavedInvoiceFiles, ReviewError>)
    requires
        forall|i: InvoiceSummary, j: DownloadedAttachment, p: DownloadedAttachment, d: String|
            call_requires(save, (&i, &j, &p, &d)),
    ensures
        review.email.pdf_attachments@.len() == 0 <==> r matches Err(ReviewError::MissingPdf),
        exists|pdf: Result<DownloadedAttachment, GmailSearchError>, saved: Result<SavedInvoiceFiles, String>|
            #[trigger] save_outcome(gmail.runner_of(), drive.runner_of(), save, review, *settings, pdf, saved, r),
        r matches Ok(saved) ==> (saved.drive_upload matches Some(upload) && drive_period_spec(review.invoice.issue_date@) matches Some((year, month))
            && upload.folder_path@ == purchases_path(settings.drive_root_folder@, year, month)),
{
    let ghost original = review;
    if review.email.pdf_attachments.len() == 0 {
        let r: Result<SavedInvoiceFiles, ReviewError> = Err(ReviewError::MissingPdf);
        proof {
            let pdf = Err::<DownloadedAttachment, GmailSearchError>(GmailSearchError::CliNotFound);
            let saved = Err::<SavedInvoiceFiles, String>(settings.download_dir);
            assert(save_outcome(gmail.runner_of(), drive.runner_of(), save, original, *settings, pdf, saved, r));
        }
        return r;
    }
    let downloaded = gmail.download_attachment(review.email.id.as_str(), &review.email.pdf_attachments[0]);
    let ghost pdf = downloaded;
    let pdf_file = match downloaded {
        Ok(file) => file,
        Err(error) => {
            let r: Result<SavedInvoiceFiles, ReviewError> = Err(ReviewError::Gmail(error));
            proof {
                let saved = Err::<SavedInvoiceFiles, String>(settings.download_dir);
                assert(save_outcome(gmail.runner_of(), drive.runner_of(), save, original, *settings, pdf, saved, r));
            }
            return r;
        },
    };
    let saved = save(&review.invoice, &review.json_file, &pdf_file, &settings.download_dir);
    let ghost saved_outcome = saved;
    let mut saved_files = match saved {
        Ok(files) => files,
        Err(error) => {
            let r: Result<SavedInvoiceFiles, ReviewError> = Err(ReviewError::Io(error));
            proof {
                assert(save_outcome(gmail.runner_of(), drive.runner_of(), save, original, *settings, pdf, saved_outcome, r));
            }
            return r;
        },
    };
    let ghost files = saved_files;
    let upload = match drive.upload_invoice_files(&review.invoice, &saved_files, settings.drive_root_folder.as_str()) {
        Ok(upload) => upload,
        Err(error) => {
            let r: Result<SavedInvoiceFiles, ReviewError> = Err(ReviewError::Drive(error));
            proof {
                assert(save_outcome(gmail.runner_of(), drive.runner_of(), save, original, *settings, pdf, saved_outcome, r));
            }
            return r;
        },
    };
    saved_files.drive_upload = Some(upload);
    let r: Result<SavedInvoiceFiles, ReviewError> = Ok(saved_files);
    proof {
        assert(save_outcome(gmail.runner_of(), drive.runner_of(), save, original, *settings, pdf, saved_outcome, r));
    }
    r
}

/// Where the review of a list of emails stands. The position of the email
/// under review is the number of emails processed plus the number skipped,
/// and one saved result is kept per processed email.
pub struct ReviewContext {
    emails: Vec<CandidateEmail>,
    skipped: usize,
    saved_files: Vec<SavedInvoiceFiles>,
}

/// The content of a [`ReviewContext`].
pub struct ReviewContextView {
    pub emails: Seq<CandidateEmailView>,
    pub index: nat,
    pub processed: nat,
    pub skipped: nat,
    pub saved_files: Seq<SavedInvoiceFiles>,
}

impl View for ReviewContext {
    type V = ReviewContextView;

    closed spec fn view(&self) -> ReviewContextView {
        ReviewContextView {
            emails: candidates_view(self.emails@),
            index: self.saved_files@.len() + self.skipped as nat,
            processed: self.saved_files@.len(),
            skipped: self.skipped as nat,
            saved_files: self.saved_files@,
        }
    }
}

/// What the review does next.
pub enum ReviewStep {
    /// Load `email`, the one at the position of `context`.
    Load { context: ReviewContext, email: CandidateEmail },
    /// Every email has been reviewed.
    Complete { processed: usize, skipped: usize, saved_files: Vec<SavedInvoiceFiles> },
}

impl ReviewContext {
    #[verifier::type_invariant]
    closed spec fn well_formed(self) -> bool {
        self.saved_files@.len() + self.skipped <= self.emails@.len()
    }

    /// The start of the review of `emails`: nothing done yet.
    pub fn start(emails: Vec<CandidateEmail>) -> (c: ReviewContext)
        ensures
            c@.emails == candidates_view(emails@),
            c@.index == 0,
            c@.processed == 0,
            c@.skipped == 0,
            c@.saved_files.len() == 0,
    {
        ReviewContext { emails, skipped: 0, saved_files: Vec::new() }
    }

    /// The position of the email under review: every email before it was
    /// either processed or skipped, each once, and one saved result was kept
    /// per processed email.
    pub fn index(&self) -> (i: usize)
        ensures
            i == self@.index,
            self@.index == self@.processed + self@.skipped,
            self@.saved_files.len() == self@.processed,
            self@.index <= self@.emails.len(),
    {
        proof {
            use_type_invariant(self);
            assert(self.emails@.len() == self.emails.len());
        }
        self.saved_files.len() + self.skipped
    }

    /// How many emails were processed.
    pub fn processed(&self) -> (n: usize)
        ensures
            n == self@.processed,
    {
        self.saved_files.len()
    }

    /// How many emails were skipped.
    pub fn skipped(&self) -> (n: usize)
        ensures
            n == self@.skipped,
    {
        self.skipped
    }

    /// How many emails are reviewed in all.
    pub fn total(&self) -> (n: usize)
        ensures
            n == self@.emails.len(),
    {
        self.emails.len()
    }

    /// The email at the current position, if any is left.
    pub fn current(&self) -> (e: Option<&CandidateEmail>)
        ensures
            self@.index < self@.emails.len() ==> (e matches Some(c) && c@ == self@.emails[self@.index as int]),
            self@.index >= self@.emails.len() ==> e is None,
    {
        let i = self.index();
        if i < self.emails.len() {
            Some(&self.emails[i])
        } else {
            None
        }
    }

    /// What to do next: load the email at the current position, or finish
    /// when none is left.
    pub fn next_step(self) -> (step: ReviewStep)
        ensures
            self@.index < self@.emails.len() ==> (step matches ReviewStep::Load { context, email }
                && context@ == self@ && email@ == self@.emails[self@.index as int]),
            self@.index >= self@.emails.len() ==> (step matches ReviewStep::Complete { processed, skipped, saved_files }
                && processed == self@.processed && skipped == self@.skipped && saved_files@ == self@.saved_files),
    {
        let i = self.index();
        if i < self.emails.len() {
            let email = self.emails[i].duplicate();
            ReviewStep::Load { context: self, email }
        } else {
            let processed = self.saved_files.len();
            let skipped = self.skipped;
            let ReviewContext { emails: _, skipped: _, saved_files } = self;
            ReviewStep::Complete { processed, skipped, saved_files }
        }
    }

    /// Skips the email at the current position.
    pub fn skip(&mut self)
        requires
            old(self)@.index < old(self)@.emails.len(),
        ensures
            final(self)@ == (ReviewContextView { index: old(self)@.index + 1, skipped: old(self)@.skipped + 1, ..old(self)@ }),
    {
        proof {
            use_type_invariant(&*self);
            assert(self.emails@.len() == self.emails.len());
        }
        self.skipped = self.skipped + 1;
    }

    /// Records that the email at the current position was saved and
    /// uploaded as `files`.
    pub fn record_saved(&mut self, files: SavedInvoiceFiles)
        requires
            old(self)@.index < old(self)@.emails.len(),
        ensures
            final(self)@ == (ReviewContextView {
                index: old(self)@.index + 1,
                processed: old(self)@.processed + 1,
                saved_files: old(self)@.saved_files.push(files),
                ..old(self)@
            }),
    {
        let mut saved_files = Vec::new();
        std::mem::swap(&mut saved_files, &mut self.saved_files);
        saved_files.push(files);
        self.saved_files = saved_files;
    }
}

/// The review of the selected emails as the interface runs it: waiting for
/// an invoice to load, showing it, waiting for it to be saved, showing an
/// error, or done.
pub enum ReviewPhase {
    Idle,
    Loading { context: ReviewContext },
    Ready { context: ReviewContext, review: InvoiceReview },
    Saving { context: ReviewContext, review: InvoiceReview },
    Error { context: ReviewContext, message: String },
    Complete { processed: usize, skipped: usize, saved_files: Vec<SavedInvoiceFiles> },
}

/// What the work started by the review reports back.
pub enum ReviewEvent {
    /// The invoice of the current email was loaded, or not.
    Loaded(Result<InvoiceReview, ReviewError>),
    /// The current invoice was saved and uploaded, or not.
    Saved(Result<SavedInvoiceFiles, ReviewError>),
    /// The work stopped without an answer.
    WorkerStopped,
}

/// What the caller does after a step of the review.
pub enum ReviewAction {
    /// Nothing to do.
    Nothing,
    /// Start loading the invoice of this email.
    Load(CandidateEmail),
    /// Start saving the invoice under review ([`ReviewState::review`]).
    Save,
    /// Go back to the list of results.
    ShowResults,
    /// Quit the program.
    Quit,
}

/// What the review page shows.
pub enum ReviewView<'a> {
    Loading { index: usize, total: usize, email: &'a CandidateEmail },
    Ready { index: usize, total: usize, email: &'a CandidateEmail, invoice: &'a InvoiceSummary },
    Saving { index: usize, total: usize, invoice: &'a InvoiceSummary },
    Error { index: usize, total: usize, email: &'a CandidateEmail, message: &'a str },
    Complete { processed: usize, skipped: usize, saved_files: &'a [SavedInvoiceFiles] },
}

/// The context after the email at its position was skipped.
pub open spec fn skipped_view(c: ReviewContextView) -> ReviewContextView {
    ReviewContextView { index: c.index + 1, skipped: c.skipped + 1, ..c }
}

/// The context after the email at its position was saved as `files`.
pub open spec fn saved_view(c: ReviewContextView, files: SavedInvoiceFiles) -> ReviewContextView {
    ReviewContextView { index: c.index + 1, processed: c.processed + 1, saved_files: c.saved_files.push(files), ..c }
}

/// `phase` and `action` go on from the context `c`: the email at its
/// position is loaded next, or the review is complete when none is left.
pub open spec fn goes_on_from(c: ReviewContextView, phase: ReviewPhase, action: ReviewAction) -> bool {
    if c.index < c.emails.len() {
        &&& phase matches ReviewPhase::Loading { context } && context@ == c
        &&& action matches ReviewAction::Load(email) && email@ == c.emails[c.index as int]
    } else {
        &&& phase matches ReviewPhase::Complete { processed, skipped, saved_files }
            && processed == c.processed && skipped == c.skipped && saved_files@ == c.saved_files
        &&& action is Nothing
    }
}

/// The key skips the email under review when it shows its invoice (`n`),
/// and when it shows an error (`n` or Enter).
pub open spec fn skips(phase: ReviewPhase, code: KeyCode) -> bool {
    match phase {
        ReviewPhase::Ready { .. } => code == KeyCode::Char('n') || code == KeyCode::Char('N'),
        ReviewPhase::Error { .. } => code == KeyCode::Char('n') || code == KeyCode::Char('N') || code == KeyCode::Enter,
        _ => false,
    }
}

/// The context of a phase that has one.
pub open spec fn context_of(phase: ReviewPhase) -> Option<ReviewContextView> {
    match phase {
        ReviewPhase::Loading { context } => Some(context@),
        ReviewPhase::Ready { context, .. } => Some(context@),
        ReviewPhase::Saving { context, .. } => Some(context@),
        ReviewPhase::Error { context, .. } => Some(context@),
        _ => None,
    }
}

/// What a report of the work does to the review: a load answers a loading
/// review (the invoice is shown, or the error), a save answers a saving one
/// (the review goes on from the next email, or the error is shown), and a
/// stopped worker shows that it stopped; anything else changes nothing.
pub open spec fn review_event(phase: ReviewPhase, event: ReviewEvent, text: Messages, next: ReviewPhase, action: ReviewAction) -> bool {
    match (phase, event) {
        (ReviewPhase::Loading { context }, ReviewEvent::Loaded(Ok(review))) =>
            next matches ReviewPhase::Ready { context: c, review: v } && c@ == context@ && v == review && action is Nothing,
        (ReviewPhase::Loading { context }, ReviewEvent::Loaded(Err(error))) =>
            next matches ReviewPhase::Error { context: c, message } && c@ == context@
                && message@ == review_error_text(error, text) && action is Nothing,
        (ReviewPhase::Saving { context, .. }, ReviewEvent::Saved(Ok(files))) =>
            goes_on_from(saved_view(context@, files), next, action),
        (ReviewPhase::Saving { context, .. }, ReviewEvent::Saved(Err(error))) =>
            next matches ReviewPhase::Error { context: c, message } && c@ == context@
                && message@ == review_error_text(error, text) && action is Nothing,
        (ReviewPhase::Loading { context }, ReviewEvent::WorkerStopped) =>
            next matches ReviewPhase::Error { context: c, message } && c@ == context@
                && message@ == text.gmail_search_stopped@ && action is Nothing,
        (ReviewPhase::Saving { context, .. }, ReviewEvent::WorkerStopped) =>
            next matches ReviewPhase::Error { context: c, message } && c@ == context@
                && message@ == text.gmail_search_stopped@ && action is Nothing,
        _ => next == phase && action is Nothing,
    }
}

/// What a key does to the review: `q` quits; `y` saves the invoice shown;
/// `n` skips it (`n` or Enter when an error is shown), and the review goes on
/// from the next email; Enter or Esc goes back to the results once the
/// review is complete; any other key changes nothing.
pub open spec fn review_key(phase: ReviewPhase, code: KeyCode, next: ReviewPhase, action: ReviewAction) -> bool {
    if code == KeyCode::Char('q') {
        next == phase && action is Quit
    } else if skips(phase, code) {
        goes_on_from(skipped_view(context_of(phase)->0), next, action)
    } else if phase is Ready && (code == KeyCode::Char('y') || code == KeyCode::Char('Y')) {
        &&& phase matches ReviewPhase::Ready { context, review }
        &&& next matches ReviewPhase::Saving { context: c, review: v } && c@ == context@ && v == review
        &&& action is Save
    } else if phase is Complete && (code == KeyCode::Enter || code == KeyCode::Esc) {
        next == phase && action is ShowResults
    } else {
        next == phase && action is Nothing
    }
}

/// The counts of a review in `phase`: while an email is under review
/// (loading, shown, saving or failed), its position is within the list,
/// every email before it was processed or skipped, and one saved result is
/// kept per processed email; a complete review keeps one saved result per
/// processed email.
pub open spec fn review_counts(phase: ReviewPhase) -> bool {
    match phase {
        ReviewPhase::Complete { processed, saved_files, .. } => saved_files@.len() == processed,
        _ => context_of(phase) matches Some(c) ==> (c.index < c.emails.len() && c.index == c.processed + c.skipped
            && c.saved_files.len() == c.processed),
    }
}

/// The review as the interface runs it; its counts always hold (see
/// `review_counts`).
pub struct ReviewState {
    phase: ReviewPhase,
}

impl View for ReviewState {
    type V = ReviewPhase;

    closed spec fn view(&self) -> ReviewPhase {
        self.phase
    }
}

impl ReviewState {
    #[verifier::type_invariant]
    closed spec fn under_review_in_range(self) -> bool {
        review_counts(self.phase)
    }

    /// No review yet.
    pub fn idle() -> (s: ReviewState)
        ensures
            s@ is Idle,
    {
        ReviewState { phase: ReviewPhase::Idle }
    }

    /// The phase of the review.
    pub fn phase(&self) -> (p: &ReviewPhase)
        ensures
            *p == self@,
            review_counts(self@),
    {
        proof {
            use_type_invariant(self);
        }
        &self.phase
    }

    /// The review goes on from `context`: the email at its position is
    /// loaded, or the review is complete.
    fn go_on(context: ReviewContext) -> (r: (ReviewState, ReviewAction))
        ensures
            goes_on_from(context@, r.0@, r.1),
    {
        match context.next_step() {
            ReviewStep::Load { context, email } => (ReviewState { phase: ReviewPhase::Loading { context } }, ReviewAction::Load(email)),
            ReviewStep::Complete { processed, skipped, saved_files } => (
                ReviewState { phase: ReviewPhase::Complete { processed, skipped, saved_files } },
                ReviewAction::Nothing,
            ),
        }
    }

    /// Starts the review of `emails` from the first one.
    pub fn begin(emails: Vec<CandidateEmail>) -> (r: (ReviewState, ReviewAction))
        ensures
            goes_on_from(
                ReviewContextView { emails: candidates_view(emails@), index: 0, processed: 0, skipped: 0, saved_files: seq![] },
                r.0@,
                r.1,
            ),
    {
        let context = ReviewContext::start(emails);
        proof {
            assert(context@.saved_files =~= seq![]);
        }
        Self::go_on(context)
    }

    /// The invoice under review, while it is shown or saved.
    pub fn review(&self) -> (r: Option<&InvoiceReview>)
        ensures
            match self@ {
                ReviewPhase::Ready { review, .. } => r == Some(&review),
                ReviewPhase::Saving { review, .. } => r == Some(&review),
                _ => r is None,
            },
    {
        match &self.phase {
            ReviewPhase::Ready { review, .. } => Some(review),
            ReviewPhase::Saving { review, .. } => Some(review),
            _ => None,
        }
    }

    /// Takes in what the work started for the review reported. A load
    /// answers a loading review, a save a saving one; anything else leaves
    /// the review as it is.
    pub fn on_event(self, event: ReviewEvent, text: &Messages) -> (r: (ReviewState, ReviewAction))
        ensures
            review_event(self@, event, *text, r.0@, r.1),
    {
        proof {
            use_type_invariant(&self);
        }
        let ReviewState { phase } = self;
        match (phase, event) {
            (ReviewPhase::Loading { context }, ReviewEvent::Loaded(Ok(review))) => (
                ReviewState { phase: ReviewPhase::Ready { context, review } },
                ReviewAction::Nothing,
            ),
            (ReviewPhase::Loading { context }, ReviewEvent::Loaded(Err(error))) => (
                ReviewState { phase: ReviewPhase::Error { context, message: review_error_message(error, text) } },
                ReviewAction::Nothing,
            ),
            (ReviewPhase::Saving { mut context, .. }, ReviewEvent::Saved(Ok(files))) => {
                context.record_saved(files);
                Self::go_on(context)
            },
            (ReviewPhase::Saving { context, .. }, ReviewEvent::Saved(Err(error))) => (
                ReviewState { phase: ReviewPhase::Error { context, message: review_error_message(error, text) } },
                ReviewAction::Nothing,
            ),
            (ReviewPhase::Loading { context }, ReviewEvent::WorkerStopped) => (
                ReviewState { phase: ReviewPhase::Error { context, message: owned(text.gmail_search_stopped) } },
                ReviewAction::Nothing,
            ),
            (ReviewPhase::Saving { context, .. }, ReviewEvent::WorkerStopped) => (
                ReviewState { phase: ReviewPhase::Error { context, message: owned(text.gmail_search_stopped) } },
                ReviewAction::Nothing,
            ),
            (phase, _) => (ReviewState { phase }, ReviewAction::Nothing),
        }
    }

    /// Reacts to a key: `q` quits; `y` saves the invoice shown; `n` skips it
    /// (`n` or Enter when an error is shown); Enter or Esc goes back to the
    /// results once the review is complete.
    pub fn on_key(self, key: KeyInput) -> (r: (ReviewState, ReviewAction))
        ensures
            review_key(self@, key.code, r.0@, r.1),
    {
        proof {
            use_type_invariant(&self);
        }
        if key.code == KeyCode::Char('q') {
            return (self, ReviewAction::Quit);
        }
        let code = key.code;
        let ReviewState { phase } = self;
        match phase {
            ReviewPhase::Ready { context, review } => {
                if code == KeyCode::Char('y') || code == KeyCode::Char('Y') {
                    (ReviewState { phase: ReviewPhase::Saving { context, review } }, ReviewAction::Save)
                } else if code == KeyCode::Char('n') || code == KeyCode::Char('N') {
                    let mut context = context;
                    context.skip();
                    Self::go_on(context)
                } else {
                    (ReviewState { phase: ReviewPhase::Ready { context, review } }, ReviewAction::Nothing)
                }
            },
            ReviewPhase::Error { context, message } => {
                if code == KeyCode::Char('n') || code == KeyCode::Char('N') || code == KeyCode::Enter {
                    let mut context = context;
                    context.skip();
                    Self::go_on(context)
                } else {
                    (ReviewState { phase: ReviewPhase::Error { context, message } }, ReviewAction::Nothing)
                }
            },
            ReviewPhase::Complete { processed, skipped, saved_files } => {
                let action = if code == KeyCode::Enter || code == KeyCode::Esc {
                    ReviewAction::ShowResults
                } else {
                    ReviewAction::Nothing
                };
                (ReviewState { phase: ReviewPhase::Complete { processed, skipped, saved_files } }, action)
            },
            phase => (ReviewState { phase }, ReviewAction::Nothing),
        }
    }

    /// What the review page shows: the position and the email or invoice
    /// under review, or the counts once complete (nothing counted before a
    /// review started).
    pub fn review_view(&self) -> (v: ReviewView<'_>)
        ensures
            match self@ {
                ReviewPhase::Idle => v matches ReviewView::Complete { processed, skipped, saved_files }
                    && processed == 0 && skipped == 0 && saved_files@.len() == 0,
                ReviewPhase::Loading { context } => v matches ReviewView::Loading { index, total, email }
                    && index == context@.index && total == context@.emails.len() && email@ == context@.emails[index as int],
                ReviewPhase::Ready { context, review } => v matches ReviewView::Ready { index, total, email, invoice }
                    && index == context@.index && total == context@.emails.len() && *email == review.email
                    && *invoice == review.invoice,
                ReviewPhase::Saving { context, review } => v matches ReviewView::Saving { index, total, invoice }
                    && index == context@.index && total == context@.emails.len() && *invoice == review.invoice,
                ReviewPhase::Error { context, message } => v matches ReviewView::Error { index, total, email, message: m }
                    && index == context@.index && total == context@.emails.len() && email@ == context@.emails[index as int]
                    && m@ == message@,
                ReviewPhase::Complete { processed, skipped, saved_files } => v matches ReviewView::Complete {
                    processed: p,
                    skipped: s,
                    saved_files: f,
                } && p == processed && s == skipped && f@ == saved_files@,
            },
    {
        proof {
            use_type_invariant(self);
        }
        match &self.phase {
            ReviewPhase::Idle => ReviewView::Complete { processed: 0, skipped: 0, saved_files: &[] },
            ReviewPhase::Loading { context } => {
                let index = context.index();
                ReviewView::Loading { index, total: context.total(), email: &context.emails[index] }
            },
            ReviewPhase::Ready { context, review } => ReviewView::Ready {
                index: context.index(),
                total: context.total(),
                email: &review.email,
                invoice: &review.invoice,
            },
            ReviewPhase::Saving { context, review } => ReviewView::Saving {
                index: context.index(),
                total: context.total(),
                invoice: &review.invoice,
            },
            ReviewPhase::Error { context, message } => {
                let index = context.index();
                ReviewView::Error { index, total: context.total(), email: &context.emails[index], message: message.as_str() }
            },
            ReviewPhase::Complete { processed, skipped, saved_files } => ReviewView::Complete {
                processed: *processed,
                skipped: *skipped,
                saved_files: saved_files.as_slice(),
            },
        }
    }
}

/// A review starts with its counts holding.
pub proof fn law_review_begins_counted(emails: Seq<CandidateEmailView>, phase: ReviewPhase, action: ReviewAction)
    requires
        goes_on_from(ReviewContextView { emails, index: 0, processed: 0, skipped: 0, saved_files: seq![] }, phase, action),
    ensures
        review_counts(phase),
{
}

/// Every report of the work keeps the counts of a review: a saved invoice
/// moves the position on by one with one more processed email and its saved
/// result, a loaded invoice or a failure keeps the context, and any other
/// report changes nothing.
pub proof fn law_review_event_keeps_counts(phase: ReviewPhase, event: ReviewEvent, text: Messages, next: ReviewPhase, action: ReviewAction)
    requires
        review_counts(phase),
        review_event(phase, event, text, next, action),
    ensures
        review_counts(next),
{
}

/// Every key keeps the counts of a review: a skip moves the position on by
/// one with one more skipped email, a save keeps the context, and any other
/// key changes nothing.
pub proof fn law_review_key_keeps_counts(phase: ReviewPhase, code: KeyCode, next: ReviewPhase, action: ReviewAction)
    requires
        review_counts(phase),
        review_key(phase, code, next, action),
    ensures
        review_counts(next),
{
}

/// When the review completes, every selected email was either processed or
/// skipped, and one saved result is kept per processed email.
pub proof fn law_complete_review_counts_every_email(c: ReviewContextView, phase: ReviewPhase, action: ReviewAction)
    requires
        goes_on_from(c, phase, action),
        c.index == c.processed + c.skipped,
        c.saved_files.len() == c.processed,
        c.index <= c.emails.len(),
    ensures
        phase matches ReviewPhase::Complete { processed, skipped, saved_files } ==> processed + skipped == c.emails.len()
            && saved_files@.len() == processed,
{
}

} // verus!
