//! Finding invoice emails in Gmail through the `gws` command line tool: the
//! queries, the reading of its JSON answers, and the choice of the messages
//! that carry both a PDF and a JSON attachment.
use base64::engine::general_purpose::{URL_SAFE, URL_SAFE_NO_PAD};
use base64::Engine;
use vstd::prelude::*;

use crate::date_range::{gmail_text, spec_next_day, Date, DateRange};
use crate::i18n::{gmail_search_error_message, gmail_search_error_text, Language};
use crate::json::{
    decode_each, lemma_decode_each_error_persists,
    json_quote, json_quoted,
    decode_all, lemma_decode_all_error_persists, array, array_spec, invalid_type, json_parse, member, member_spec, object, object_spec,
    opt_string, opt_string_spec, opt_u64, opt_u64_spec, parse_json, required_string, string_spec,
    JsonNode,
};
use crate::text::{
    strings_view,
    is_blank, lines, lines_spec,
    blank, lemma_trim_idempotent, trim_str,
    chars_of, contains_chars, contains_seq, ends_with, ends_with_chars, lower_chars, lower_seq,
    copy_string, owned, parse_unsigned, parse_unsigned_in, trim, trim_chars, string_from_chars,
};

verus! {

/// The text of an optional string.
pub open spec fn opt_view(o: Option<String>) -> Option<Seq<char>> {
    match o {
        Some(s) => Some(s@),
        None => None,
    }
}

/// The characters of an optional string, or nothing.
pub open spec fn or_empty(o: Option<Seq<char>>) -> Seq<char> {
    match o {
        Some(s) => s,
        None => Seq::empty(),
    }
}

/// A copy of an optional string.
pub fn copy_opt(o: &Option<String>) -> (r: Option<String>)
    ensures
        opt_view(r) == opt_view(*o),
{
    match o {
        Some(s) => Some(s.clone()),
        None => None,
    }
}

/// An attachment of a Gmail message.
#[derive(Clone, Debug, PartialEq, Eq)]
pub struct AttachmentSummary {
    pub filename: String,
    pub attachment_id: Option<String>,
    pub mime_type: String,
    pub size: Option<u64>,
}

/// The content of an [`AttachmentSummary`].
pub struct AttachmentSummaryView {
    pub filename: Seq<char>,
    pub attachment_id: Option<Seq<char>>,
    pub mime_type: Seq<char>,
    pub size: Option<u64>,
}

impl View for AttachmentSummary {
    type V = AttachmentSummaryView;

    open spec fn view(&self) -> AttachmentSummaryView {
        AttachmentSummaryView {
            filename: self.filename@,
            attachment_id: opt_view(self.attachment_id),
            mime_type: self.mime_type@,
            size: self.size,
        }
    }
}

/// The contents of a list of attachments.
pub open spec fn summaries_view(s: Seq<AttachmentSummary>) -> Seq<AttachmentSummaryView> {
    s.map_values(|a: AttachmentSummary| a@)
}

impl AttachmentSummary {
    /// A copy of this attachment.
    pub fn duplicate(&self) -> (r: AttachmentSummary)
        ensures
            r@ == self@,
    {
        AttachmentSummary {
            filename: self.filename.clone(),
            attachment_id: copy_opt(&self.attachment_id),
            mime_type: self.mime_type.clone(),
            size: self.size,
        }
    }
}

/// A copy of a list of attachments.
pub fn copy_summaries(v: &Vec<AttachmentSummary>) -> (r: Vec<AttachmentSummary>)
    ensures
        summaries_view(r@) == summaries_view(v@),
{
    let mut r: Vec<AttachmentSummary> = Vec::new();
    let mut i: usize = 0;
    while i < v.len()
        invariant
            i <= v.len(),
            r@.len() == i,
            forall|k: int| 0 <= k < i ==> r@[k]@ == v@[k]@,
        decreases v.len() - i,
    {
        r.push(v[i].duplicate());
        i = i + 1;
    }
    proof {
        assert(summaries_view(r@) =~= summaries_view(v@));
    }
    r
}

/// A Gmail message that has both a PDF and a JSON attachment.
#[derive(Clone, Debug, PartialEq, Eq)]
pub struct CandidateEmail {
    pub id: String,
    pub thread_id: String,
    pub from: String,
    pub subject: String,
    pub received_at: String,
    pub snippet: String,
    pub internal_date_ms: Option<u64>,
    pub pdf_attachments: Vec<AttachmentSummary>,
    pub json_attachments: Vec<AttachmentSummary>,
}

/// The content of a [`CandidateEmail`].
pub struct CandidateEmailView {
    pub id: Seq<char>,
    pub thread_id: Seq<char>,
    pub from: Seq<char>,
    pub subject: Seq<char>,
    pub received_at: Seq<char>,
    pub snippet: Seq<char>,
    pub internal_date_ms: Option<u64>,
    pub pdf_attachments: Seq<AttachmentSummaryView>,
    pub json_attachments: Seq<AttachmentSummaryView>,
}

impl View for CandidateEmail {
    type V = CandidateEmailView;

    open spec fn view(&self) -> CandidateEmailView {
        CandidateEmailView {
            id: self.id@,
            thread_id: self.thread_id@,
            from: self.from@,
            subject: self.subject@,
            received_at: self.received_at@,
            snippet: self.snippet@,
            internal_date_ms: self.internal_date_ms,
            pdf_attachments: summaries_view(self.pdf_attachments@),
            json_attachments: summaries_view(self.json_attachments@),
        }
    }
}

/// The contents of a list of candidates.
pub open spec fn candidates_view(s: Seq<CandidateEmail>) -> Seq<CandidateEmailView> {
    s.map_values(|c: CandidateEmail| c@)
}

impl CandidateEmail {
    /// A copy of this candidate.
    pub fn duplicate(&self) -> (r: CandidateEmail)
        ensures
            r@ == self@,
    {
        CandidateEmail {
            id: self.id.clone(),
            thread_id: self.thread_id.clone(),
            from: self.from.clone(),
            subject: self.subject.clone(),
            received_at: self.received_at.clone(),
            snippet: self.snippet.clone(),
            internal_date_ms: self.internal_date_ms,
            pdf_attachments: copy_summaries(&self.pdf_attachments),
            json_attachments: copy_summaries(&self.json_attachments),
        }
    }
}

/// A downloaded attachment.
#[derive(Clone, Debug, PartialEq, Eq)]
pub struct DownloadedAttachment {
    pub filename: String,
    pub bytes: Vec<u8>,
}

// ---------------------------------------------------------------------------
// The records of the Gmail API that the search reads
// ---------------------------------------------------------------------------

/// A header of a message part.
#[derive(Debug)]
pub struct MessageHeader {
    pub name: String,
    pub value: String,
}

/// The body of a message part.
#[derive(Debug)]
pub struct MessagePartBody {
    pub attachment_id: Option<String>,
    pub size: Option<u64>,
    pub data: Option<String>,
}

/// The content of a [`MessagePartBody`].
pub struct MessagePartBodyView {
    pub attachment_id: Option<Seq<char>>,
    pub size: Option<u64>,
    pub data: Option<Seq<char>>,
}

impl View for MessagePartBody {
    type V = MessagePartBodyView;

    open spec fn view(&self) -> MessagePartBodyView {
        MessagePartBodyView {
            attachment_id: opt_view(self.attachment_id),
            size: self.size,
            data: opt_view(self.data),
        }
    }
}

/// A part of a message; parts nest.
#[derive(Debug)]
pub struct MessagePart {
    pub mime_type: Option<String>,
    pub filename: Option<String>,
    pub headers: Vec<MessageHeader>,
    pub body: Option<MessagePartBody>,
    pub parts: Vec<MessagePart>,
}

/// The content of a [`MessagePart`].
pub struct MessagePartView {
    pub mime_type: Option<Seq<char>>,
    pub filename: Option<Seq<char>>,
    pub headers: Seq<(Seq<char>, Seq<char>)>,
    pub body: Option<MessagePartBodyView>,
    pub parts: Seq<MessagePartView>,
}

/// The names and values of a list of headers.
pub open spec fn headers_view(s: Seq<MessageHeader>) -> Seq<(Seq<char>, Seq<char>)> {
    s.map_values(|h: MessageHeader| (h.name@, h.value@))
}

/// The content of an optional body.
pub open spec fn body_view(b: Option<MessagePartBody>) -> Option<MessagePartBodyView> {
    match b {
        Some(b) => Some(b@),
        None => None,
    }
}

impl View for MessagePart {
    type V = MessagePartView;

    open spec fn view(&self) -> MessagePartView
        decreases self,
    {
        MessagePartView {
            mime_type: opt_view(self.mime_type),
            filename: opt_view(self.filename),
            headers: headers_view(self.headers@),
            body: body_view(self.body),
            parts: Seq::new(
                self.parts@.len(),
                |i: int|
                    if 0 <= i < self.parts@.len() {
                        self.parts@[i]@
                    } else {
                        empty_part_view()
                    },
            ),
        }
    }
}

/// The nested parts of a part, seen through their contents.
pub proof fn lemma_part_view(p: MessagePart)
    ensures
        p@.parts.len() == p.parts@.len(),
        forall|i: int| 0 <= i < p.parts@.len() ==> p@.parts[i] == (#[trigger] p.parts@[i])@,
{
    reveal_with_fuel(<MessagePart as View>::view, 2);
}

/// A part with nothing in it.
pub open spec fn empty_part_view() -> MessagePartView {
    MessagePartView {
        mime_type: None,
        filename: None,
        headers: Seq::empty(),
        body: None,
        parts: Seq::empty(),
    }
}

/// A Gmail message as `messages.get` (format `full`) returns it.
#[derive(Debug)]
pub struct GmailMessage {
    pub id: String,
    pub thread_id: Option<String>,
    pub internal_date: Option<String>,
    pub snippet: Option<String>,
    pub payload: Option<MessagePart>,
}

/// The content of a [`GmailMessage`].
pub struct GmailMessageView {
    pub id: Seq<char>,
    pub thread_id: Option<Seq<char>>,
    pub internal_date: Option<Seq<char>>,
    pub snippet: Option<Seq<char>>,
    pub payload: Option<MessagePartView>,
}

impl View for GmailMessage {
    type V = GmailMessageView;

    open spec fn view(&self) -> GmailMessageView {
        GmailMessageView {
            id: self.id@,
            thread_id: opt_view(self.thread_id),
            internal_date: opt_view(self.internal_date),
            snippet: opt_view(self.snippet),
            payload: match self.payload {
                Some(p) => Some(p@),
                None => None,
            },
        }
    }
}

// ---------------------------------------------------------------------------
// Attachments
// ---------------------------------------------------------------------------

/// The attachment a part stands for: one with a file name that is not blank.
pub open spec fn summary_spec(p: MessagePartView) -> Option<AttachmentSummaryView> {
    match p.filename {
        None => None,
        Some(f) => if trim(f).len() == 0 {
            None
        } else {
            Some(
                AttachmentSummaryView {
                    filename: trim(f),
                    attachment_id: match p.body {
                        Some(b) => b.attachment_id,
                        None => None,
                    },
                    mime_type: or_empty(p.mime_type),
                    size: match p.body {
                        Some(b) => b.size,
                        None => None,
                    },
                },
            )
        },
    }
}

/// A PDF: its name ends in `.pdf` or its type is `application/pdf`, either
/// in any ASCII case.
pub open spec fn is_pdf_spec(a: AttachmentSummaryView) -> bool {
    ends_with(lower_seq(a.filename), ".pdf"@) || lower_seq(a.mime_type) == "application/pdf"@
}

/// A JSON file: its name ends in `.json` or its type mentions `json`, either
/// in any ASCII case.
pub open spec fn is_json_spec(a: AttachmentSummaryView) -> bool {
    ends_with(lower_seq(a.filename), ".json"@) || contains_seq(lower_seq(a.mime_type), "json"@)
}

/// The attachment a message part stands for: a part with a non-blank file
/// name.
pub fn attachment_summary(part: &MessagePart) -> (r: Option<AttachmentSummary>)
    ensures
        match r {
            Some(a) => summary_spec(part@) == Some(a@),
            None => summary_spec(part@) is None,
        },
{
    let filename = match &part.filename {
        Some(f) => f,
        None => return None,
    };
    let chars = chars_of(filename.as_str());
    let trimmed = trim_chars(&chars);
    if trimmed.len() == 0 {
        return None;
    }
    let attachment_id = match &part.body {
        Some(b) => copy_opt(&b.attachment_id),
        None => None,
    };
    let size = match &part.body {
        Some(b) => b.size,
        None => None,
    };
    let mime_type = match &part.mime_type {
        Some(m) => m.clone(),
        None => String::new(),
    };
    Some(AttachmentSummary { filename: string_from_chars(&trimmed), attachment_id, mime_type, size })
}

/// Whether an attachment is a PDF (by its name or its MIME type).
pub fn is_pdf_attachment(attachment: &AttachmentSummary) -> (b: bool)
    ensures
        b == is_pdf_spec(attachment@),
{
    let filename = lower_chars(attachment.filename.as_str());
    let mime_type = lower_chars(attachment.mime_type.as_str());
    let suffix = chars_of(".pdf");
    let pdf_type = chars_of("application/pdf");
    if ends_with_chars(&filename, &suffix) {
        return true;
    }
    same_chars(&mime_type, &pdf_type)
}

/// Whether an attachment is a JSON file (by its name or its MIME type).
pub fn is_json_attachment(attachment: &AttachmentSummary) -> (b: bool)
    ensures
        b == is_json_spec(attachment@),
{
    let filename = lower_chars(attachment.filename.as_str());
    let mime_type = lower_chars(attachment.mime_type.as_str());
    let suffix = chars_of(".json");
    let json = chars_of("json");
    ends_with_chars(&filename, &suffix) || contains_chars(&mime_type, &json)
}

/// Whether two character lists are equal.
pub fn same_chars(a: &Vec<char>, b: &Vec<char>) -> (eq: bool)
    ensures
        eq == (a@ == b@),
{
    if a.len() != b.len() {
        return false;
    }
    let mut i: usize = 0;
    while i < a.len()
        invariant
            a.len() == b.len(),
            i <= a.len(),
            forall|j: int| 0 <= j < i ==> a@[j] == b@[j],
        decreases a.len() - i,
    {
        if a[i] != b[i] {
            return false;
        }
        i = i + 1;
    }
    proof {
        assert(a@ =~= b@);
    }
    true
}

/// The attachments a part itself stands for, as (PDFs, JSON files).
pub open spec fn own_attachments(p: MessagePartView) -> (Seq<AttachmentSummaryView>, Seq<AttachmentSummaryView>) {
    match summary_spec(p) {
        Some(s) => if is_pdf_spec(s) {
            (seq![s], Seq::empty())
        } else if is_json_spec(s) {
            (Seq::empty(), seq![s])
        } else {
            (Seq::empty(), Seq::empty())
        },
        None => (Seq::empty(), Seq::empty()),
    }
}

/// The PDF and JSON attachments of a part and of the parts nested in it, the
/// part itself first, then its parts in order, each with its own nested parts.
pub open spec fn extract_part(p: MessagePartView) -> (Seq<AttachmentSummaryView>, Seq<AttachmentSummaryView>)
    decreases p,
{
    let own = own_attachments(p);
    let nested = extract_parts(p.parts);
    (own.0 + nested.0, own.1 + nested.1)
}

/// The attachments of a list of parts, in order.
pub open spec fn extract_parts(s: Seq<MessagePartView>) -> (Seq<AttachmentSummaryView>, Seq<AttachmentSummaryView>)
    decreases s,
{
    if s.len() == 0 {
        (Seq::empty(), Seq::empty())
    } else {
        let first = extract_parts(s.drop_last());
        let last = extract_part(s.last());
        (first.0 + last.0, first.1 + last.1)
    }
}

/// Appends the PDF and JSON attachments of `part`, and of every part nested
/// in it, to `pdf_attachments` and `json_attachments`.
pub fn extract_attachments(
    part: &MessagePart,
    pdf_attachments: &mut Vec<AttachmentSummary>,
    json_attachments: &mut Vec<AttachmentSummary>,
)
    ensures
        summaries_view(final(pdf_attachments)@) == summaries_view(old(pdf_attachments)@) + extract_part(part@).0,
        summaries_view(final(json_attachments)@) == summaries_view(old(json_attachments)@) + extract_part(part@).1,
    decreases part,
{
    let ghost pdf0 = summaries_view(pdf_attachments@);
    let ghost json0 = summaries_view(json_attachments@);
    match attachment_summary(part) {
        Some(summary) => {
            if is_pdf_attachment(&summary) {
                pdf_attachments.push(summary);
            } else if is_json_attachment(&summary) {
                json_attachments.push(summary);
            }
        },
        None => {},
    }
    proof {
        let own = own_attachments(part@);
        assert(summaries_view(pdf_attachments@) =~= pdf0 + own.0);
        assert(summaries_view(json_attachments@) =~= json0 + own.1);
    }
    let ghost pdf1 = summaries_view(pdf_attachments@);
    let ghost json1 = summaries_view(json_attachments@);
    let mut i: usize = 0;
    proof {
        lemma_part_view(*part);
    }
    while i < part.parts.len()
        invariant
            i <= part.parts.len(),
            part@.parts.len() == part.parts@.len(),
            forall|k: int| 0 <= k < part.parts@.len() ==> part@.parts[k] == (#[trigger] part.parts@[k])@,
            summaries_view(pdf_attachments@) == pdf1 + extract_parts(part@.parts.take(i as int)).0,
            summaries_view(json_attachments@) == json1 + extract_parts(part@.parts.take(i as int)).1,
        decreases part.parts.len() - i,
    {
        proof {
            assert(decreases_to!(part => part.parts));
            assert(decreases_to!(part.parts => part.parts@));
            assert(decreases_to!(part.parts@ => part.parts@[i as int]));
        }
        extract_attachments(&part.parts[i], pdf_attachments, json_attachments);
        proof {
            let s = part@.parts.take(i + 1);
            assert(s.drop_last() =~= part@.parts.take(i as int));
            assert(s.last() == part.parts@[i as int]@);
            assert(summaries_view(pdf_attachments@) =~= pdf1 + extract_parts(s).0);
            assert(summaries_view(json_attachments@) =~= json1 + extract_parts(s).1);
        }
        i = i + 1;
    }
    proof {
        assert(part@.parts.take(i as int) =~= part@.parts);
        assert(summaries_view(pdf_attachments@) =~= pdf0 + extract_part(part@).0);
        assert(summaries_view(json_attachments@) =~= json0 + extract_part(part@).1);
    }
}

// ---------------------------------------------------------------------------
// Headers and candidates
// ---------------------------------------------------------------------------

/// The value of the first header named `name` (ASCII case ignored), trimmed;
/// `None` when there is no such header or its value is blank.
pub open spec fn header_spec(headers: Seq<(Seq<char>, Seq<char>)>, name: Seq<char>) -> Option<Seq<char>>
    decreases headers.len(),
{
    if headers.len() == 0 {
        None
    } else if lower_seq(headers[0].0) == lower_seq(name) {
        if trim(headers[0].1).len() == 0 {
            None
        } else {
            Some(trim(headers[0].1))
        }
    } else {
        header_spec(headers.drop_first(), name)
    }
}

/// The trimmed value of the first header called `name` (in any case), when
/// it is not blank.
pub fn header_value(headers: &Vec<MessageHeader>, name: &str) -> (r: Option<String>)
    ensures
        opt_view(r) == header_spec(headers_view(headers@), name@),
{
    let wanted = lower_chars(name);
    let n = headers.len();
    let mut i: usize = 0;
    proof {
        assert(headers_view(headers@).subrange(0, n as int) =~= headers_view(headers@));
    }
    while i < n
        invariant
            i <= n == headers.len(),
            wanted@ == lower_seq(name@),
            header_spec(headers_view(headers@), name@) == header_spec(
                headers_view(headers@).subrange(i as int, n as int),
                name@,
            ),
        decreases n - i,
    {
        let ghost rest = headers_view(headers@).subrange(i as int, n as int);
        proof {
            assert(rest.drop_first() =~= headers_view(headers@).subrange(i + 1, n as int));
            assert(rest[0] == (headers@[i as int].name@, headers@[i as int].value@));
        }
        let header_name = lower_chars(headers[i].name.as_str());
        if same_chars(&header_name, &wanted) {
            let value = chars_of(headers[i].value.as_str());
            let trimmed = trim_chars(&value);
            if trimmed.len() == 0 {
                return None;
            }
            return Some(string_from_chars(&trimmed));
        }
        i = i + 1;
    }
    None
}

/// What `str::parse::<u64>` gives for an optional text.
pub open spec fn parse_u64_opt(text: Option<Seq<char>>) -> Option<u64> {
    match text {
        Some(t) => match parse_unsigned(t, 0xffff_ffff_ffff_ffff) {
            Some(v) => Some(v as u64),
            None => None,
        },
        None => None,
    }
}

/// The candidate a message stands for: one with a payload that has at least
/// one PDF and at least one JSON attachment somewhere in it.
pub open spec fn candidate_spec(m: GmailMessageView) -> Option<CandidateEmailView> {
    match m.payload {
        None => None,
        Some(p) => {
            let found = extract_part(p);
            if found.0.len() == 0 || found.1.len() == 0 {
                None
            } else {
                Some(
                    CandidateEmailView {
                        id: m.id,
                        thread_id: or_empty(m.thread_id),
                        from: or_empty(header_spec(p.headers, "From"@)),
                        subject: or_empty(header_spec(p.headers, "Subject"@)),
                        received_at: match header_spec(p.headers, "Date"@) {
                            Some(d) => d,
                            None => or_empty(m.internal_date),
                        },
                        snippet: or_empty(m.snippet),
                        internal_date_ms: parse_u64_opt(m.internal_date),
                        pdf_attachments: found.0,
                        json_attachments: found.1,
                    },
                )
            }
        },
    }
}

/// Reads an optional decimal text as `str::parse::<u64>` does.
pub fn parse_u64(text: &Option<String>) -> (r: Option<u64>)
    ensures
        r == parse_u64_opt(opt_view(*text)),
{
    match text {
        Some(t) => {
            let chars = chars_of(t.as_str());
            proof {
                assert(chars@.subrange(0, chars@.len() as int) =~= chars@);
            }
            parse_unsigned_in(&chars, 0, chars.len(), 0xffff_ffff_ffff_ffff)
        },
        None => None,
    }
}

/// The text of an optional string, or an empty string.
pub fn take_or_empty(o: Option<String>) -> (r: String)
    ensures
        r@ == or_empty(opt_view(o)),
{
    match o {
        Some(s) => s,
        None => String::new(),
    }
}

/// Turns a Gmail message into a candidate when it has both a PDF and a JSON
/// attachment.
pub fn message_to_candidate(message: GmailMessage) -> (r: Option<CandidateEmail>)
    ensures
        match r {
            Some(c) => candidate_spec(message@) == Some(c@),
            None => candidate_spec(message@) is None,
        },
{
    let ghost m = message@;
    let payload = match &message.payload {
        Some(p) => p,
        None => return None,
    };
    let mut pdf_attachments: Vec<AttachmentSummary> = Vec::new();
    let mut json_attachments: Vec<AttachmentSummary> = Vec::new();
    extract_attachments(payload, &mut pdf_attachments, &mut json_attachments);
    proof {
        assert(summaries_view(pdf_attachments@) =~= extract_part(payload@).0);
        assert(summaries_view(json_attachments@) =~= extract_part(payload@).1);
    }
    if pdf_attachments.len() == 0 || json_attachments.len() == 0 {
        return None;
    }
    let from = take_or_empty(header_value(&payload.headers, "From"));
    let subject = take_or_empty(header_value(&payload.headers, "Subject"));
    let received_at = match header_value(&payload.headers, "Date") {
        Some(d) => d,
        None => take_or_empty(copy_opt(&message.internal_date)),
    };
    let internal_date_ms = parse_u64(&message.internal_date);
    let candidate = CandidateEmail {
        id: message.id,
        thread_id: take_or_empty(message.thread_id),
        from,
        subject,
        received_at,
        snippet: take_or_empty(message.snippet),
        internal_date_ms,
        pdf_attachments,
        json_attachments,
    };
    proof {
        assert(candidate@ == candidate_spec(m)->0);
    }
    Some(candidate)
}

// ---------------------------------------------------------------------------
// Reading the JSON that `gws` prints
// ---------------------------------------------------------------------------

/// How deep parts may nest before the reading gives up; deeper than any
/// document serde_json accepts.
pub const PART_DEPTH_LIMIT: u32 = 128;

/// "recursion limit exceeded"
pub open spec fn depth_error() -> Seq<char> {
    "recursion limit exceeded"@
}

/// Reads a header object.
pub open spec fn decode_header_spec(text: Seq<char>) -> Result<(Seq<char>, Seq<char>), Seq<char>> {
    match object_spec(text, "MessageHeader"@) {
        Err(e) => Err(e),
        Ok(fields) => match string_spec(member_spec(fields, "name"@), "name"@) {
            Err(e) => Err(e),
            Ok(name) => match string_spec(member_spec(fields, "value"@), "value"@) {
                Err(e) => Err(e),
                Ok(value) => Ok((name@, value@)),
            },
        },
    }
}

/// Reads a list of header objects, in order; the first error wins.
pub open spec fn decode_headers_spec(items: Seq<String>) -> Result<Seq<(Seq<char>, Seq<char>)>, Seq<char>> {
    decode_all(items, |text: Seq<char>| decode_header_spec(text))
}

/// Reads a part body object.
pub open spec fn decode_body_spec(text: Seq<char>) -> Result<MessagePartBodyView, Seq<char>> {
    match object_spec(text, "MessagePartBody"@) {
        Err(e) => Err(e),
        Ok(fields) => match opt_string_spec(member_spec(fields, "attachmentId"@), "attachmentId"@) {
            Err(e) => Err(e),
            Ok(attachment_id) => match opt_u64_spec(member_spec(fields, "size"@), "size"@) {
                Err(e) => Err(e),
                Ok(size) => match opt_string_spec(member_spec(fields, "data"@), "data"@) {
                    Err(e) => Err(e),
                    Ok(data) => Ok(
                        MessagePartBodyView {
                            attachment_id: opt_view(attachment_id),
                            size,
                            data: opt_view(data),
                        },
                    ),
                },
            },
        },
    }
}

/// An optional body member: absent or `null` is `None`.
pub open spec fn decode_opt_body_spec(text: Option<String>) -> Result<Option<MessagePartBodyView>, Seq<char>> {
    match text {
        None => Ok(None),
        Some(t) => match json_parse(t@) {
            Ok(JsonNode::Null) => Ok(None),
            _ => match decode_body_spec(t@) {
                Err(e) => Err(e),
                Ok(b) => Ok(Some(b)),
            },
        },
    }
}

/// Reads a message part object, and the parts nested in it while `fuel`
/// lasts.
pub open spec fn decode_part_spec(text: Seq<char>, fuel: nat) -> Result<MessagePartView, Seq<char>>
    decreases fuel, 0nat,
{
    if fuel == 0 {
        Err(depth_error())
    } else {
        match object_spec(text, "MessagePart"@) {
            Err(e) => Err(e),
            Ok(fields) => match opt_string_spec(member_spec(fields, "mimeType"@), "mimeType"@) {
                Err(e) => Err(e),
                Ok(mime_type) => match opt_string_spec(member_spec(fields, "filename"@), "filename"@) {
                    Err(e) => Err(e),
                    Ok(filename) => match array_spec(member_spec(fields, "headers"@), "headers"@) {
                        Err(e) => Err(e),
                        Ok(header_items) => match decode_headers_spec(header_items) {
                            Err(e) => Err(e),
                            Ok(headers) => match decode_opt_body_spec(member_spec(fields, "body"@)) {
                                Err(e) => Err(e),
                                Ok(body) => match array_spec(member_spec(fields, "parts"@), "parts"@) {
                                    Err(e) => Err(e),
                                    Ok(part_items) => match decode_parts_spec(part_items, (fuel - 1) as nat) {
                                        Err(e) => Err(e),
                                        Ok(parts) => Ok(
                                            MessagePartView {
                                                mime_type: opt_view(mime_type),
                                                filename: opt_view(filename),
                                                headers,
                                                body,
                                                parts,
                                            },
                                        ),
                                    },
                                },
                            },
                        },
                    },
                },
            },
        }
    }
}

/// Reads a list of part objects, in order; the first error wins.
pub open spec fn decode_parts_spec(items: Seq<String>, fuel: nat) -> Result<Seq<MessagePartView>, Seq<char>>
    decreases fuel, items.len() + 1,
{
    if items.len() == 0 {
        Ok(Seq::empty())
    } else {
        match decode_parts_spec(items.drop_last(), fuel) {
            Err(e) => Err(e),
            Ok(done) => match decode_part_spec(items.last()@, fuel) {
                Err(e) => Err(e),
                Ok(p) => Ok(done.push(p)),
            },
        }
    }
}

/// An optional part member: absent or `null` is `None`.
pub open spec fn decode_opt_part_spec(text: Option<String>, fuel: nat) -> Result<Option<MessagePartView>, Seq<char>> {
    match text {
        None => Ok(None),
        Some(t) => match json_parse(t@) {
            Ok(JsonNode::Null) => Ok(None),
            _ => match decode_part_spec(t@, fuel) {
                Err(e) => Err(e),
                Ok(p) => Ok(Some(p)),
            },
        },
    }
}

/// Reads a message object (`messages.get`).
pub open spec fn decode_message_spec(text: Seq<char>) -> Result<GmailMessageView, Seq<char>> {
    match object_spec(text, "GmailMessage"@) {
        Err(e) => Err(e),
        Ok(fields) => match string_spec(member_spec(fields, "id"@), "id"@) {
            Err(e) => Err(e),
            Ok(id) => match opt_string_spec(member_spec(fields, "threadId"@), "threadId"@) {
                Err(e) => Err(e),
                Ok(thread_id) => match opt_string_spec(member_spec(fields, "internalDate"@), "internalDate"@) {
                    Err(e) => Err(e),
                    Ok(internal_date) => match opt_string_spec(member_spec(fields, "snippet"@), "snippet"@) {
                        Err(e) => Err(e),
                        Ok(snippet) => match decode_opt_part_spec(member_spec(fields, "payload"@), PART_DEPTH_LIMIT as nat) {
                            Err(e) => Err(e),
                            Ok(payload) => Ok(
                                GmailMessageView {
                                    id: id@,
                                    thread_id: opt_view(thread_id),
                                    internal_date: opt_view(internal_date),
                                    snippet: opt_view(snippet),
                                    payload,
                                },
                            ),
                        },
                    },
                },
            },
        },
    }
}

fn decode_header(text: &str) -> (r: Result<MessageHeader, String>)
    ensures
        match r {
            Ok(h) => decode_header_spec(text@) == Ok::<(Seq<char>, Seq<char>), Seq<char>>((h.name@, h.value@)),
            Err(e) => decode_header_spec(text@) == Err::<(Seq<char>, Seq<char>), Seq<char>>(e@),
        },
{
    let fields = object(text, "MessageHeader")?;
    let name = required_string(&fields, "name")?;
    let value = required_string(&fields, "value")?;
    Ok(MessageHeader { name, value })
}

fn decode_headers(items: &Vec<String>) -> (r: Result<Vec<MessageHeader>, String>)
    ensures
        match r {
            Ok(hs) => decode_headers_spec(items@) == Ok::<Seq<(Seq<char>, Seq<char>)>, Seq<char>>(headers_view(hs@)),
            Err(e) => decode_headers_spec(items@) == Err::<Seq<(Seq<char>, Seq<char>)>, Seq<char>>(e@),
        },
{
    let ghost f = |text: Seq<char>| decode_header_spec(text);
    let mut headers: Vec<MessageHeader> = Vec::new();
    let mut i: usize = 0;
    proof {
        assert(headers_view(headers@) =~= Seq::empty());
        assert(items@.take(0) =~= Seq::<String>::empty());
    }
    while i < items.len()
        invariant
            i <= items.len(),
            f == (|text: Seq<char>| decode_header_spec(text)),
            decode_all(items@.take(i as int), f) == Ok::<Seq<(Seq<char>, Seq<char>)>, Seq<char>>(headers_view(headers@)),
        decreases items.len() - i,
    {
        proof {
            assert(items@.take(i + 1).drop_last() =~= items@.take(i as int));
            assert(items@.take(i + 1).last() == items@[i as int]);
        }
        let header = match decode_header(items[i].as_str()) {
            Ok(h) => h,
            Err(e) => {
                proof {
                    lemma_decode_all_error_persists(items@, f, (i + 1) as nat, items@.len());
                    assert(items@.take(items@.len() as int) =~= items@);
                }
                return Err(e);
            },
        };
        let ghost before = headers_view(headers@);
        let ghost hv = (header.name@, header.value@);
        headers.push(header);
        proof {
            assert(headers_view(headers@) =~= before.push(hv));
        }
        i = i + 1;
    }
    proof {
        assert(items@.take(i as int) =~= items@);
    }
    Ok(headers)
}

fn decode_body(text: &str) -> (r: Result<MessagePartBody, String>)
    ensures
        match r {
            Ok(b) => decode_body_spec(text@) == Ok::<MessagePartBodyView, Seq<char>>(b@),
            Err(e) => decode_body_spec(text@) == Err::<MessagePartBodyView, Seq<char>>(e@),
        },
{
    let fields = object(text, "MessagePartBody")?;
    let attachment_id = opt_string(&fields, "attachmentId")?;
    let size = opt_u64(&fields, "size")?;
    let data = opt_string(&fields, "data")?;
    Ok(MessagePartBody { attachment_id, size, data })
}

fn decode_opt_body(text: Option<String>) -> (r: Result<Option<MessagePartBody>, String>)
    ensures
        match r {
            Ok(b) => decode_opt_body_spec(text) == Ok::<Option<MessagePartBodyView>, Seq<char>>(body_view(b)),
            Err(e) => decode_opt_body_spec(text) == Err::<Option<MessagePartBodyView>, Seq<char>>(e@),
        },
{
    match text {
        None => Ok(None),
        Some(t) => match parse_json(t.as_str()) {
            Ok(JsonNode::Null) => Ok(None),
            _ => match decode_body(t.as_str()) {
                Err(e) => Err(e),
                Ok(b) => Ok(Some(b)),
            },
        },
    }
}

/// Once a prefix of the list of parts fails to read, every longer prefix
/// fails with the same error.
proof fn lemma_parts_error_persists(items: Seq<String>, fuel: nat, from: nat, to: nat)
    requires
        from <= to <= items.len(),
        decode_parts_spec(items.take(from as int), fuel) is Err,
    ensures
        decode_parts_spec(items.take(to as int), fuel) == decode_parts_spec(items.take(from as int), fuel),
    decreases to - from,
{
    if from < to {
        lemma_parts_error_persists(items, fuel, from, (to - 1) as nat);
        assert(items.take(to as int).drop_last() =~= items.take(to - 1));
    }
}

fn decode_part(text: &str, fuel: u32) -> (r: Result<MessagePart, String>)
    ensures
        match r {
            Ok(p) => decode_part_spec(text@, fuel as nat) == Ok::<MessagePartView, Seq<char>>(p@),
            Err(e) => decode_part_spec(text@, fuel as nat) == Err::<MessagePartView, Seq<char>>(e@),
        },
    decreases fuel, 0nat,
{
    if fuel == 0 {
        return Err(owned("recursion limit exceeded"));
    }
    let fields = object(text, "MessagePart")?;
    let mime_type = opt_string(&fields, "mimeType")?;
    let filename = opt_string(&fields, "filename")?;
    let header_items = array(&fields, "headers")?;
    let headers = decode_headers(&header_items)?;
    let body = decode_opt_body(member(&fields, "body"))?;
    let part_items = array(&fields, "parts")?;
    let parts = decode_parts(&part_items, fuel - 1)?;
    let part = MessagePart { mime_type, filename, headers, body, parts };
    proof {
        reveal_with_fuel(<MessagePart as View>::view, 2);
        assert(part@.parts =~= decode_parts_spec(part_items@, (fuel - 1) as nat)->Ok_0);
    }
    Ok(part)
}

fn decode_parts(items: &Vec<String>, fuel: u32) -> (r: Result<Vec<MessagePart>, String>)
    ensures
        match r {
            Ok(ps) => decode_parts_spec(items@, fuel as nat) is Ok
                && ps@.len() == decode_parts_spec(items@, fuel as nat)->Ok_0.len()
                && forall|k: int| 0 <= k < ps@.len() ==> (#[trigger] ps@[k])@ == decode_parts_spec(items@, fuel as nat)->Ok_0[k],
            Err(e) => decode_parts_spec(items@, fuel as nat) == Err::<Seq<MessagePartView>, Seq<char>>(e@),
        },
    decreases fuel, 1nat,
{
    let mut parts: Vec<MessagePart> = Vec::new();
    let mut i: usize = 0;
    proof {
        assert(items@.take(0) =~= Seq::<String>::empty());
    }
    while i < items.len()
        invariant
            i <= items.len(),
            decode_parts_spec(items@.take(i as int), fuel as nat) is Ok,
            parts@.len() == decode_parts_spec(items@.take(i as int), fuel as nat)->Ok_0.len(),
            forall|k: int| 0 <= k < parts@.len() ==> (#[trigger] parts@[k])@ == decode_parts_spec(items@.take(i as int), fuel as nat)->Ok_0[k],
        decreases items.len() - i,
    {
        proof {
            assert(items@.take(i + 1).drop_last() =~= items@.take(i as int));
            assert(items@.take(i + 1).last() == items@[i as int]);
        }
        let part = match decode_part(items[i].as_str(), fuel) {
            Ok(p) => p,
            Err(e) => {
                proof {
                    lemma_parts_error_persists(items@, fuel as nat, (i + 1) as nat, items@.len());
                    assert(items@.take(items@.len() as int) =~= items@);
                }
                return Err(e);
            },
        };
        parts.push(part);
        i = i + 1;
    }
    proof {
        assert(items@.take(i as int) =~= items@);
    }
    Ok(parts)
}

fn decode_opt_part(text: Option<String>, fuel: u32) -> (r: Result<Option<MessagePart>, String>)
    ensures
        match r {
            Ok(p) => decode_opt_part_spec(text, fuel as nat) == Ok::<Option<MessagePartView>, Seq<char>>(match p {
                Some(p) => Some(p@),
                None => None,
            }),
            Err(e) => decode_opt_part_spec(text, fuel as nat) == Err::<Option<MessagePartView>, Seq<char>>(e@),
        },
{
    match text {
        None => Ok(None),
        Some(t) => match parse_json(t.as_str()) {
            Ok(JsonNode::Null) => Ok(None),
            _ => match decode_part(t.as_str(), fuel) {
                Err(e) => Err(e),
                Ok(p) => Ok(Some(p)),
            },
        },
    }
}

/// Reads the JSON of a message as `messages.get` prints it.
pub fn decode_message(text: &str) -> (r: Result<GmailMessage, String>)
    ensures
        match r {
            Ok(m) => decode_message_spec(text@) == Ok::<GmailMessageView, Seq<char>>(m@),
            Err(e) => decode_message_spec(text@) == Err::<GmailMessageView, Seq<char>>(e@),
        },
{
    let fields = object(text, "GmailMessage")?;
    let id = required_string(&fields, "id")?;
    let thread_id = opt_string(&fields, "threadId")?;
    let internal_date = opt_string(&fields, "internalDate")?;
    let snippet = opt_string(&fields, "snippet")?;
    let payload = decode_opt_part(member(&fields, "payload"), PART_DEPTH_LIMIT)?;
    Ok(GmailMessage { id, thread_id, internal_date, snippet, payload })
}

// ---------------------------------------------------------------------------
// Message lists
// ---------------------------------------------------------------------------

/// A message named in a list of messages.
#[derive(Debug)]
pub struct MessageReference {
    pub id: String,
}

/// One page of `messages.list`.
#[derive(Debug)]
pub struct ListMessagesResponse {
    pub messages: Vec<MessageReference>,
    pub next_page_token: Option<String>,
}

/// The content of a [`ListMessagesResponse`]: the message ids, in order.
pub struct ListPageView {
    pub ids: Seq<Seq<char>>,
    pub next_page_token: Option<Seq<char>>,
}

/// The ids of a list of message references.
pub open spec fn reference_ids(s: Seq<MessageReference>) -> Seq<Seq<char>> {
    s.map_values(|r: MessageReference| r.id@)
}

impl View for ListMessagesResponse {
    type V = ListPageView;

    open spec fn view(&self) -> ListPageView {
        ListPageView { ids: reference_ids(self.messages@), next_page_token: opt_view(self.next_page_token) }
    }
}

/// The contents of a list of pages.
pub open spec fn pages_view(s: Seq<ListMessagesResponse>) -> Seq<ListPageView> {
    s.map_values(|p: ListMessagesResponse| p@)
}

/// Reads a message reference object.
pub open spec fn decode_reference_spec(text: Seq<char>) -> Result<Seq<char>, Seq<char>> {
    match object_spec(text, "MessageReference"@) {
        Err(e) => Err(e),
        Ok(fields) => match string_spec(member_spec(fields, "id"@), "id"@) {
            Err(e) => Err(e),
            Ok(id) => Ok(id@),
        },
    }
}

/// Reads a list of message reference objects, in order.
pub open spec fn decode_references_spec(items: Seq<String>) -> Result<Seq<Seq<char>>, Seq<char>> {
    decode_all(items, |t: Seq<char>| decode_reference_spec(t))
}

/// Reads one page of `messages.list`; a missing message list is empty.
pub open spec fn decode_list_page_spec(text: Seq<char>) -> Result<ListPageView, Seq<char>> {
    match object_spec(text, "ListMessagesResponse"@) {
        Err(e) => Err(e),
        Ok(fields) => match array_spec(member_spec(fields, "messages"@), "messages"@) {
            Err(e) => Err(e),
            Ok(items) => match decode_references_spec(items) {
                Err(e) => Err(e),
                Ok(ids) => match opt_string_spec(member_spec(fields, "nextPageToken"@), "nextPageToken"@) {
                    Err(e) => Err(e),
                    Ok(token) => Ok(ListPageView { ids, next_page_token: opt_view(token) }),
                },
            },
        },
    }
}

fn decode_reference(text: &str) -> (r: Result<MessageReference, String>)
    ensures
        match r {
            Ok(m) => decode_reference_spec(text@) == Ok::<Seq<char>, Seq<char>>(m.id@),
            Err(e) => decode_reference_spec(text@) == Err::<Seq<char>, Seq<char>>(e@),
        },
{
    let fields = object(text, "MessageReference")?;
    let id = required_string(&fields, "id")?;
    Ok(MessageReference { id })
}

/// Reads one page of `messages.list`.
#[verifier::loop_isolation(false)]
pub fn decode_list_page(text: &str) -> (r: Result<ListMessagesResponse, String>)
    ensures
        match r {
            Ok(p) => decode_list_page_spec(text@) == Ok::<ListPageView, Seq<char>>(p@),
            Err(e) => decode_list_page_spec(text@) == Err::<ListPageView, Seq<char>>(e@),
        },
{
    let fields = object(text, "ListMessagesResponse")?;
    let items = array(&fields, "messages")?;
    let ghost f = |t: Seq<char>| decode_reference_spec(t);
    let mut messages: Vec<MessageReference> = Vec::new();
    let mut i: usize = 0;
    proof {
        assert(reference_ids(messages@) =~= Seq::empty());
        assert(items@.take(0) =~= Seq::<String>::empty());
    }
    while i < items.len()
        invariant
            i <= items.len(),
            f == (|t: Seq<char>| decode_reference_spec(t)),
            decode_all(items@.take(i as int), f) == Ok::<Seq<Seq<char>>, Seq<char>>(reference_ids(messages@)),
        decreases items.len() - i,
    {
        proof {
            assert(items@.take(i + 1).drop_last() =~= items@.take(i as int));
            assert(items@.take(i + 1).last() == items@[i as int]);
        }
        let reference = match decode_reference(items[i].as_str()) {
            Ok(m) => m,
            Err(e) => {
                proof {
                    lemma_decode_all_error_persists(items@, f, (i + 1) as nat, items@.len());
                    assert(items@.take(items@.len() as int) =~= items@);
                    assert(decode_references_spec(items@) == Err::<Seq<Seq<char>>, Seq<char>>(e@));
                }
                return Err(e);
            },
        };
        let ghost before = reference_ids(messages@);
        let ghost id = reference.id@;
        messages.push(reference);
        proof {
            assert(reference_ids(messages@) =~= before.push(id));
        }
        i = i + 1;
    }
    proof {
        assert(items@.take(i as int) =~= items@);
    }
    let next_page_token = opt_string(&fields, "nextPageToken")?;
    Ok(ListMessagesResponse { messages, next_page_token })
}

/// Every id once, at its first occurrence.
pub open spec fn dedup(s: Seq<Seq<char>>) -> Seq<Seq<char>>
    decreases s.len(),
{
    if s.len() == 0 {
        Seq::empty()
    } else {
        let done = dedup(s.drop_last());
        if done.contains(s.last()) {
            done
        } else {
            done.push(s.last())
        }
    }
}

/// The ids of every page, page after page.
pub open spec fn page_ids(pages: Seq<ListPageView>) -> Seq<Seq<char>>
    decreases pages.len(),
{
    if pages.len() == 0 {
        Seq::empty()
    } else {
        page_ids(pages.drop_last()) + pages.last().ids
    }
}

/// The largest number of pages `gws` is asked to fetch for one query.
pub const PAGE_LIMIT: usize = 1000;

/// The ids found, and whether the page limit stopped the listing: as many
/// pages as the limit, the last still pointing to a next page.
pub struct ListOutput {
    pub message_ids: Vec<String>,
    pub hit_page_limit: bool,
}


/// The output of a list of pages: their ids, each once, and whether the page
/// limit was reached with more pages left.
pub open spec fn output_ids(pages: Seq<ListPageView>) -> Seq<Seq<char>> {
    dedup(page_ids(pages))
}

/// Whether the listing stopped at the page limit with more pages left.
pub open spec fn output_hit_limit(pages: Seq<ListPageView>) -> bool {
    pages.len() >= PAGE_LIMIT && pages.len() > 0 && pages.last().next_page_token is Some
}

/// Whether `ids` holds `id`.
pub fn contains_id(ids: &Vec<String>, id: &String) -> (b: bool)
    ensures
        b == strings_view(ids@).contains(id@),
{
    let mut i: usize = 0;
    while i < ids.len()
        invariant
            i <= ids.len(),
            forall|k: int| 0 <= k < i ==> ids@[k]@ != id@,
        decreases ids.len() - i,
    {
        if ids[i] == *id {
            proof {
                assert(strings_view(ids@)[i as int] == id@);
            }
            return true;
        }
        i = i + 1;
    }
    proof {
        if strings_view(ids@).contains(id@) {
            let k = choose|k: int| 0 <= k < strings_view(ids@).len() && strings_view(ids@)[k] == id@;
            assert(ids@[k]@ == id@);
        }
    }
    false
}

/// Adds `id` at the end of `ids` unless it is there already.
fn push_unique(ids: &mut Vec<String>, id: &String)
    ensures
        strings_view(final(ids)@) == if strings_view(old(ids)@).contains(id@) {
            strings_view(old(ids)@)
        } else {
            strings_view(old(ids)@).push(id@)
        },
{
    if !contains_id(ids, id) {
        let ghost before = strings_view(ids@);
        ids.push(id.clone());
        proof {
            assert(strings_view(ids@) =~= before.push(id@));
        }
    }
}

/// The ids of the listed pages, each once, and whether the page limit was
/// reached.
pub fn list_output_from_pages(pages: Vec<ListMessagesResponse>, _query: &str) -> (out: ListOutput)
    ensures
        strings_view(out.message_ids@) == output_ids(pages_view(pages@)),
        out.hit_page_limit == output_hit_limit(pages_view(pages@)),
{
    let hit_page_limit = pages.len() >= PAGE_LIMIT && match &pages[pages.len() - 1].next_page_token {
        Some(_) => true,
        None => false,
    };
    let mut message_ids: Vec<String> = Vec::new();
    let mut p: usize = 0;
    proof {
        assert(pages_view(pages@).take(0) =~= Seq::<ListPageView>::empty());
        assert(strings_view(message_ids@) =~= Seq::empty());
    }
    while p < pages.len()
        invariant
            p <= pages.len(),
            strings_view(message_ids@) == dedup(page_ids(pages_view(pages@).take(p as int))),
        decreases pages.len() - p,
    {
        let ghost done = page_ids(pages_view(pages@).take(p as int));
        let ghost ids = pages@[p as int]@.ids;
        let mut j: usize = 0;
        proof {
            assert(done + ids.take(0) =~= done);
        }
        while j < pages[p].messages.len()
            invariant
                p < pages.len(),
                j <= pages@[p as int].messages@.len(),
                ids == reference_ids(pages@[p as int].messages@),
                strings_view(message_ids@) == dedup(done + ids.take(j as int)),
            decreases pages@[p as int].messages@.len() - j,
        {
            proof {
                assert((done + ids.take(j + 1)).drop_last() =~= done + ids.take(j as int));
                assert((done + ids.take(j + 1)).last() == pages@[p as int].messages@[j as int].id@);
            }
            push_unique(&mut message_ids, &pages[p].messages[j].id);
            j = j + 1;
        }
        proof {
            let next = pages_view(pages@).take(p + 1);
            assert(next.drop_last() =~= pages_view(pages@).take(p as int));
            assert(ids.take(j as int) =~= ids);
            assert(next.last() == pages@[p as int]@);
        }
        p = p + 1;
    }
    proof {
        assert(pages_view(pages@).take(p as int) =~= pages_view(pages@));
    }
    ListOutput { message_ids, hit_page_limit }
}

// ---------------------------------------------------------------------------
// Errors
// ---------------------------------------------------------------------------

/// Why a Gmail search or download failed.
#[derive(Debug, PartialEq, Eq)]
pub enum GmailSearchError {
    /// `gws` is not installed.
    CliNotFound,
    /// `gws` ran and failed.
    CommandFailed { command: String, status: String, stderr: String },
    /// `gws` could not be run.
    Io(String),
    /// What `gws` printed could not be read.
    Json { context: String, message: String },
    /// A query matched more pages than the search reads.
    PageLimitReached { query: String, page_limit: usize },
    /// The attachment has no id to download it by.
    AttachmentNotDownloadable { filename: String },
    /// The downloaded attachment carried no data.
    AttachmentMissingData { filename: String },
    /// The attachment data was not base64.
    Base64 { filename: String, message: String },
}

impl GmailSearchError {
    /// The English description of the error.
    pub fn message(&self) -> (m: String)
        ensures
            m@ == gmail_search_error_text(Language::English, *self),
    {
        gmail_search_error_message(Language::English, self)
    }
}

/// A [`GmailSearchError`] with its texts as character sequences.
pub enum GmailSearchErrorView {
    CliNotFound,
    CommandFailed { command: Seq<char>, status: Seq<char>, stderr: Seq<char> },
    Io(Seq<char>),
    Json { context: Seq<char>, message: Seq<char> },
    PageLimitReached { query: Seq<char>, page_limit: usize },
    AttachmentNotDownloadable { filename: Seq<char> },
    AttachmentMissingData { filename: Seq<char> },
    Base64 { filename: Seq<char>, message: Seq<char> },
}

impl View for GmailSearchError {
    type V = GmailSearchErrorView;

    open spec fn view(&self) -> GmailSearchErrorView {
        match self {
            GmailSearchError::CliNotFound => GmailSearchErrorView::CliNotFound,
            GmailSearchError::CommandFailed { command, status, stderr } => GmailSearchErrorView::CommandFailed {
                command: command@,
                status: status@,
                stderr: stderr@,
            },
            GmailSearchError::Io(m) => GmailSearchErrorView::Io(m@),
            GmailSearchError::Json { context, message } => GmailSearchErrorView::Json { context: context@, message: message@ },
            GmailSearchError::PageLimitReached { query, page_limit } => GmailSearchErrorView::PageLimitReached {
                query: query@,
                page_limit: *page_limit,
            },
            GmailSearchError::AttachmentNotDownloadable { filename } => GmailSearchErrorView::AttachmentNotDownloadable {
                filename: filename@,
            },
            GmailSearchError::AttachmentMissingData { filename } => GmailSearchErrorView::AttachmentMissingData {
                filename: filename@,
            },
            GmailSearchError::Base64 { filename, message } => GmailSearchErrorView::Base64 {
                filename: filename@,
                message: message@,
            },
        }
    }
}

// ---------------------------------------------------------------------------
// Queries and command lines
// ---------------------------------------------------------------------------

/// The filter that is added to every search unless it is set otherwise.
pub const DEFAULT_DTE_QUERY_FILTER: &'static str = "DTE-03";

/// The Gmail query for messages of the period with an attachment of the given
/// extension: `after:` the first day, `before:` the day after the last day,
/// `filename:` the extension, then the trimmed filter unless it is blank.
pub open spec fn attachment_query(range: (Date, Date), extension: Seq<char>, filter: Seq<char>) -> Seq<char> {
    "after:"@ + gmail_text(range.0) + " before:"@ + gmail_text(spec_next_day(range.1)) + " filename:"@
        + extension + if trim(filter).len() == 0 {
        Seq::empty()
    } else {
        " "@ + trim(filter)
    }
}

/// The Gmail query for the attachments of kind `extension` in the period,
/// with the DTE filter when it is not blank.
pub fn build_attachment_query(range: &DateRange, extension: &str, dte_query_filter: &str) -> (query: String)
    ensures
        query@ == attachment_query(range@, extension@, dte_query_filter@),
{
    let mut query = owned("after:");
    let after = range.gmail_after_date();
    query.append(after.as_str());
    query.append(" before:");
    let before = range.gmail_before_date();
    query.append(before.as_str());
    query.append(" filename:");
    query.append(extension);
    let filter = trim_str(dte_query_filter);
    if !blank(filter.as_str()) {
        query.append(" ");
        query.append(filter.as_str());
        proof {
            lemma_trim_idempotent(dte_query_filter@);
        }
    } else {
        proof {
            lemma_trim_idempotent(dte_query_filter@);
        }
    }
    proof {
        assert(query@ =~= attachment_query(range@, extension@, dte_query_filter@));
    }
    query
}

/// A new list of strings holding the given texts.
fn strings_from(texts: &[&str]) -> (v: Vec<String>)
    ensures
        strings_view(v@) == texts@.map_values(|s: &str| s@),
{
    let mut v: Vec<String> = Vec::new();
    let mut i: usize = 0;
    while i < texts.len()
        invariant
            i <= texts.len(),
            strings_view(v@) == texts@.take(i as int).map_values(|s: &str| s@),
        decreases texts.len() - i,
    {
        let ghost before = strings_view(v@);
        v.push(owned(texts[i]));
        proof {
            assert(strings_view(v@) =~= before.push(texts@[i as int]@));
            assert(texts@.take(i + 1).map_values(|s: &str| s@) =~= texts@.take(i as int).map_values(|s: &str| s@).push(texts@[i as int]@));
        }
        i = i + 1;
    }
    proof {
        assert(texts@.take(i as int) =~= texts@);
    }
    v
}

/// The `--params` of `messages.list` for `query`, as `json!` writes them
/// (members in key order).
pub open spec fn list_params(query: Seq<char>) -> Seq<char> {
    "{\"labelIds\":[\"INBOX\"],\"maxResults\":500,\"q\":"@ + json_quoted(query) + ",\"userId\":\"me\"}"@
}

/// The arguments of `gws` that list the INBOX messages matching `query`,
/// every page up to the page limit.
pub open spec fn list_args_spec(query: Seq<char>) -> Seq<Seq<char>> {
    seq!["gmail"@, "users"@, "messages"@, "list"@, "--params"@, list_params(query), "--page-all"@, "--page-limit"@, "1000"@]
}

/// The `gws` arguments that list the INBOX messages matching `query`.
pub fn list_args(query: &str) -> (args: Vec<String>)
    ensures
        strings_view(args@) == list_args_spec(query@),
{
    let mut params = owned("{\"labelIds\":[\"INBOX\"],\"maxResults\":500,\"q\":");
    let quoted = json_quote(query);
    params.append(quoted.as_str());
    params.append(",\"userId\":\"me\"}");
    let mut args = strings_from(&["gmail", "users", "messages", "list", "--params"]);
    let ghost before = strings_view(args@);
    args.push(params);
    let ghost middle = strings_view(args@);
    proof {
        assert(middle =~= before.push(list_params(query@)));
    }
    let tail = strings_from(&["--page-all", "--page-limit", "1000"]);
    let mut j: usize = 0;
    while j < tail.len()
        invariant
            j <= tail.len(),
            strings_view(args@) == middle + strings_view(tail@).take(j as int),
        decreases tail.len() - j,
    {
        let ghost b = strings_view(args@);
        args.push(tail[j].clone());
        proof {
            assert(strings_view(args@) =~= b.push(tail@[j as int]@));
            assert(strings_view(tail@).take(j + 1) =~= strings_view(tail@).take(j as int).push(tail@[j as int]@));
        }
        j = j + 1;
    }
    proof {
        assert(strings_view(tail@).take(j as int) =~= strings_view(tail@));
        assert(strings_view(args@) =~= list_args_spec(query@));
    }
    args
}

/// The `--params` of `messages.get` for the message `id`, in full.
pub open spec fn message_params(id: Seq<char>) -> Seq<char> {
    "{\"format\":\"full\",\"id\":"@ + json_quoted(id) + ",\"userId\":\"me\"}"@
}

/// The arguments of `gws` that fetch the message `id`.
pub open spec fn message_args_spec(id: Seq<char>) -> Seq<Seq<char>> {
    seq!["gmail"@, "users"@, "messages"@, "get"@, "--params"@, message_params(id)]
}

/// The `gws` arguments that fetch the message `id` in full.
pub fn message_args(id: &str) -> (args: Vec<String>)
    ensures
        strings_view(args@) == message_args_spec(id@),
{
    let mut params = owned("{\"format\":\"full\",\"id\":");
    let quoted = json_quote(id);
    params.append(quoted.as_str());
    params.append(",\"userId\":\"me\"}");
    let mut args = strings_from(&["gmail", "users", "messages", "get", "--params"]);
    let ghost before = strings_view(args@);
    args.push(params);
    proof {
        assert(strings_view(args@) =~= before.push(message_params(id@)));
        assert(strings_view(args@) =~= message_args_spec(id@));
    }
    args
}

/// The `--params` of `messages.attachments.get`.
pub open spec fn attachment_params(message_id: Seq<char>, attachment_id: Seq<char>) -> Seq<char> {
    "{\"id\":"@ + json_quoted(attachment_id) + ",\"messageId\":"@ + json_quoted(message_id) + ",\"userId\":\"me\"}"@
}

/// The arguments of `gws` that download an attachment.
pub open spec fn attachment_args_spec(message_id: Seq<char>, attachment_id: Seq<char>) -> Seq<Seq<char>> {
    seq!["gmail"@, "users"@, "messages"@, "attachments"@, "get"@, "--params"@, attachment_params(message_id, attachment_id)]
}

/// The `gws` arguments that fetch an attachment of a message.
pub fn attachment_args(message_id: &str, attachment_id: &str) -> (args: Vec<String>)
    ensures
        strings_view(args@) == attachment_args_spec(message_id@, attachment_id@),
{
    let mut params = owned("{\"id\":");
    let quoted_attachment = json_quote(attachment_id);
    params.append(quoted_attachment.as_str());
    params.append(",\"messageId\":");
    let quoted_message = json_quote(message_id);
    params.append(quoted_message.as_str());
    params.append(",\"userId\":\"me\"}");
    let mut args = strings_from(&["gmail", "users", "messages", "attachments", "get", "--params"]);
    let ghost before = strings_view(args@);
    args.push(params);
    proof {
        assert(strings_view(args@) =~= before.push(attachment_params(message_id@, attachment_id@)));
        assert(strings_view(args@) =~= attachment_args_spec(message_id@, attachment_id@));
    }
    args
}

// ---------------------------------------------------------------------------
// The output of `messages.list`
// ---------------------------------------------------------------------------

/// The lines of `lines` that are not blank, in order.
pub open spec fn nonblank(lines: Seq<Seq<char>>) -> Seq<Seq<char>>
    decreases lines.len(),
{
    if lines.len() == 0 {
        Seq::empty()
    } else if is_blank(lines.last()) {
        nonblank(lines.drop_last())
    } else {
        nonblank(lines.drop_last()).push(lines.last())
    }
}

/// Reads the pages of `messages.list --page-all` from what `gws` printed:
/// nothing at all is no page, one JSON document is one page, otherwise each
/// non-blank line is a page.
pub open spec fn list_pages_spec(stdout: Seq<char>) -> Result<Seq<ListPageView>, Seq<char>> {
    let text = trim(stdout);
    if text.len() == 0 {
        Ok(Seq::empty())
    } else {
        match decode_list_page_spec(text) {
            Ok(page) => Ok(seq![page]),
            Err(_) => decode_each(nonblank(lines_spec(text)), |t: Seq<char>| decode_list_page_spec(t)),
        }
    }
}

/// The text that names a page of results in an error.
pub open spec fn list_context(query: Seq<char>) -> Seq<char> {
    "message list page for query `"@ + query + "`"@
}

/// Reads what the message listing printed: one page, or one page per line.
#[verifier::loop_isolation(false)]
pub fn parse_list_output(stdout: &str, query: &str) -> (r: Result<ListOutput, GmailSearchError>)
    ensures
        match list_pages_spec(stdout@) {
            Ok(pages) => r matches Ok(out) && strings_view(out.message_ids@) == output_ids(pages)
                && out.hit_page_limit == output_hit_limit(pages),
            Err(message) => r matches Err(GmailSearchError::Json { context, message: m })
                && context@ == list_context(query@) && m@ == message,
        },
{
    let text = trim_str(stdout);
    if blank(text.as_str()) {
        proof {
            lemma_trim_idempotent(stdout@);
            assert(pages_view(Seq::<ListMessagesResponse>::empty()) =~= Seq::<ListPageView>::empty());
        }
        return Ok(list_output_from_pages(Vec::new(), query));
    }
    proof {
        lemma_trim_idempotent(stdout@);
    }
    match decode_list_page(text.as_str()) {
        Ok(page) => {
            let mut pages: Vec<ListMessagesResponse> = Vec::new();
            pages.push(page);
            proof {
                assert(pages_view(pages@) =~= seq![pages@[0]@]);
            }
            return Ok(list_output_from_pages(pages, query));
        },
        Err(_) => {},
    }
    let chars = chars_of(text.as_str());
    let all_lines = lines(&chars);
    let ghost f = |t: Seq<char>| decode_list_page_spec(t);
    let ghost line_texts = all_lines@.map_values(|l: Vec<char>| l@);
    let mut pages: Vec<ListMessagesResponse> = Vec::new();
    let mut i: usize = 0;
    proof {
        assert(line_texts.take(0) =~= Seq::<Seq<char>>::empty());
        assert(pages_view(pages@) =~= Seq::<ListPageView>::empty());
    }
    while i < all_lines.len()
        invariant
            i <= all_lines.len(),
            line_texts == all_lines@.map_values(|l: Vec<char>| l@),
            line_texts == lines_spec(trim(stdout@)),
            f == (|t: Seq<char>| decode_list_page_spec(t)),
            decode_each(nonblank(line_texts.take(i as int)), f) == Ok::<Seq<ListPageView>, Seq<char>>(pages_view(pages@)),
        decreases all_lines.len() - i,
    {
        let ghost prefix = line_texts.take(i + 1);
        proof {
            assert(prefix.drop_last() =~= line_texts.take(i as int));
            assert(prefix.last() == all_lines@[i as int]@);
        }
        let line = string_from_chars(&all_lines[i]);
        if !blank(line.as_str()) {
            let page = match decode_list_page(line.as_str()) {
                Ok(p) => p,
                Err(e) => {
                    proof {
                        let texts = nonblank(line_texts);
                        assert(nonblank(prefix) == nonblank(line_texts.take(i as int)).push(line@));
                        lemma_nonblank_prefix(line_texts, (i + 1) as nat);
                        let n = nonblank(prefix).len();
                        assert(texts.take(n as int) == nonblank(prefix));
                        assert(nonblank(prefix).drop_last() =~= nonblank(line_texts.take(i as int)));
                        lemma_decode_each_error_persists(texts, f, n, texts.len());
                        assert(texts.take(texts.len() as int) =~= texts);
                        assert(line_texts.take(line_texts.len() as int) =~= line_texts);
                    }
                    let mut context = owned("message list page for query `");
                    context.append(query);
                    context.append("`");
                    return Err(GmailSearchError::Json { context, message: e });
                },
            };
            let ghost before = pages_view(pages@);
            let ghost pv = page@;
            pages.push(page);
            proof {
                assert(pages_view(pages@) =~= before.push(pv));
                assert(nonblank(prefix) == nonblank(line_texts.take(i as int)).push(line@));
                assert(nonblank(prefix).drop_last() =~= nonblank(line_texts.take(i as int)));
            }
        } else {
            proof {
                assert(nonblank(prefix) == nonblank(line_texts.take(i as int)));
            }
        }
        i = i + 1;
    }
    proof {
        assert(line_texts.take(i as int) =~= line_texts);
    }
    Ok(list_output_from_pages(pages, query))
}

/// The non-blank lines of a prefix are a prefix of the non-blank lines.
proof fn lemma_nonblank_prefix(lines: Seq<Seq<char>>, n: nat)
    requires
        n <= lines.len(),
    ensures
        nonblank(lines.take(n as int)).len() <= nonblank(lines).len(),
        nonblank(lines).take(nonblank(lines.take(n as int)).len() as int) == nonblank(lines.take(n as int)),
    decreases lines.len() - n,
{
    if n == lines.len() {
        assert(lines.take(n as int) =~= lines);
        assert(nonblank(lines).take(nonblank(lines).len() as int) =~= nonblank(lines));
    } else {
        lemma_nonblank_prefix(lines, n + 1);
        let longer = lines.take(n as int + 1);
        assert(longer.drop_last() =~= lines.take(n as int));
        let a = nonblank(lines.take(n as int));
        let b = nonblank(longer);
        let all = nonblank(lines);
        if is_blank(longer.last()) {
            assert(b == a);
        } else {
            assert(b == a.push(longer.last()));
            assert(all.take(a.len() as int) =~= b.take(a.len() as int));
            assert(b.take(a.len() as int) =~= a);
        }
    }
}

// ---------------------------------------------------------------------------
// Intersection and order
// ---------------------------------------------------------------------------

/// The ids of `s` that `t` holds too, in the order of `s`.
pub open spec fn keep_in(s: Seq<Seq<char>>, t: Seq<Seq<char>>) -> Seq<Seq<char>>
    decreases s.len(),
{
    if s.len() == 0 {
        Seq::empty()
    } else if t.contains(s.last()) {
        keep_in(s.drop_last(), t).push(s.last())
    } else {
        keep_in(s.drop_last(), t)
    }
}

/// An id kept from `s` is one that `t` holds, and every id of `s` that `t`
/// holds is kept.
proof fn lemma_keep_in_contains(s: Seq<Seq<char>>, t: Seq<Seq<char>>, x: Seq<char>)
    ensures
        keep_in(s, t).contains(x) <==> s.contains(x) && t.contains(x),
    decreases s.len(),
{
    if s.len() > 0 {
        lemma_keep_in_contains(s.drop_last(), t, x);
        let front = s.drop_last();
        if s.contains(x) && x != s.last() {
            let k = choose|k: int| 0 <= k < s.len() && s[k] == x;
            assert(front[k] == x);
        }
        if front.contains(x) {
            let k = choose|k: int| 0 <= k < front.len() && front[k] == x;
            assert(s[k] == x);
        }
        if x == s.last() {
            assert(s[s.len() - 1] == x);
        }
        if t.contains(s.last()) {
            let kept = keep_in(front, t);
            if kept.push(s.last()).contains(x) && x != s.last() {
                let k = choose|k: int| 0 <= k < kept.len() + 1 && kept.push(s.last())[k] == x;
                assert(kept[k] == x);
            }
            if kept.contains(x) {
                let k = choose|k: int| 0 <= k < kept.len() && kept[k] == x;
                assert(kept.push(s.last())[k] == x);
            }
            assert(kept.push(s.last())[kept.len() as int] == s.last());
        }
    }
}

/// The messages of the candidate search are the ones both searches found:
/// each at most once, none that only one of them found.
pub proof fn law_intersection_in_both(pdf: Seq<Seq<char>>, json: Seq<Seq<char>>)
    ensures
        dedup(keep_in(pdf, json)).no_duplicates(),
        forall|x: Seq<char>| #[trigger] dedup(keep_in(pdf, json)).contains(x) <==> pdf.contains(x) && json.contains(x),
{
    lemma_dedup_distinct(keep_in(pdf, json));
    assert forall|x: Seq<char>| #[trigger] dedup(keep_in(pdf, json)).contains(x) <==> pdf.contains(x) && json.contains(x) by {
        lemma_keep_in_contains(pdf, json, x);
    }
}

/// The ids found by both searches, each once, in the order of the PDF search.
pub fn intersect_ids(pdf_message_ids: &[String], json_message_ids: &[String]) -> (ids: Vec<String>)
    ensures
        strings_view(ids@) == dedup(keep_in(strings_view(pdf_message_ids@), strings_view(json_message_ids@))),
{
    let json_ids = slice_to_strings(json_message_ids);
    let mut ids: Vec<String> = Vec::new();
    let ghost pdf = strings_view(pdf_message_ids@);
    let ghost json = strings_view(json_message_ids@);
    let mut i: usize = 0;
    proof {
        assert(pdf.take(0) =~= Seq::<Seq<char>>::empty());
        assert(strings_view(ids@) =~= Seq::<Seq<char>>::empty());
    }
    while i < pdf_message_ids.len()
        invariant
            i <= pdf_message_ids.len(),
            pdf == strings_view(pdf_message_ids@),
            json == strings_view(json_message_ids@),
            strings_view(json_ids@) == json,
            strings_view(ids@) == dedup(keep_in(pdf.take(i as int), json)),
        decreases pdf_message_ids.len() - i,
    {
        let ghost prefix = pdf.take(i + 1);
        proof {
            assert(prefix.drop_last() =~= pdf.take(i as int));
            assert(prefix.last() == pdf_message_ids@[i as int]@);
        }
        if contains_id(&json_ids, &pdf_message_ids[i]) {
            proof {
                assert(keep_in(prefix, json) == keep_in(pdf.take(i as int), json).push(prefix.last()));
                assert(keep_in(prefix, json).drop_last() =~= keep_in(pdf.take(i as int), json));
            }
            push_unique(&mut ids, &pdf_message_ids[i]);
        } else {
            proof {
                assert(keep_in(prefix, json) == keep_in(pdf.take(i as int), json));
            }
        }
        i = i + 1;
    }
    proof {
        assert(pdf.take(i as int) =~= pdf);
    }
    ids
}

/// A copy of a slice of strings.
fn slice_to_strings(s: &[String]) -> (v: Vec<String>)
    ensures
        strings_view(v@) == strings_view(s@),
{
    let mut v: Vec<String> = Vec::new();
    let mut i: usize = 0;
    while i < s.len()
        invariant
            i <= s.len(),
            v@.len() == i,
            forall|k: int| 0 <= k < i ==> v@[k]@ == s@[k]@,
        decreases s.len() - i,
    {
        v.push(s[i].clone());
        i = i + 1;
    }
    proof {
        assert(strings_view(v@) =~= strings_view(s@));
    }
    v
}

/// `a` is a later date than `b`; a missing date is earlier than any date.
pub open spec fn date_greater(a: Option<u64>, b: Option<u64>) -> bool {
    match (a, b) {
        (Some(x), Some(y)) => x > y,
        (Some(_), None) => true,
        _ => false,
    }
}

/// Where `c` goes in a list ordered from the latest date down: before the
/// first entry of an earlier date, after every entry of the same date.
pub open spec fn insert_position(s: Seq<CandidateEmailView>, c: CandidateEmailView) -> int
    decreases s.len(),
{
    if s.len() == 0 {
        0
    } else if date_greater(c.internal_date_ms, s[0].internal_date_ms) {
        0
    } else {
        1 + insert_position(s.drop_first(), c)
    }
}

/// `s` ordered from the latest date down, entries of equal date in their
/// order in `s` (a stable sort, as `sort_by` with the dates compared in
/// reverse).
pub open spec fn sort_by_date(s: Seq<CandidateEmailView>) -> Seq<CandidateEmailView>
    decreases s.len(),
{
    if s.len() == 0 {
        Seq::empty()
    } else {
        let done = sort_by_date(s.drop_last());
        done.insert(insert_position(done, s.last()), s.last())
    }
}

/// No entry has a later date than an entry before it.
pub open spec fn latest_first(s: Seq<CandidateEmailView>) -> bool {
    forall|i: int, j: int| 0 <= i < j < s.len() ==> !date_greater(#[trigger] s[j].internal_date_ms, #[trigger] s[i].internal_date_ms)
}

proof fn lemma_insert_position_first(s: Seq<CandidateEmailView>, c: CandidateEmailView, k: int)
    requires
        0 <= k <= s.len(),
        forall|j: int| 0 <= j < k ==> !date_greater(c.internal_date_ms, #[trigger] s[j].internal_date_ms),
        k < s.len() ==> date_greater(c.internal_date_ms, s[k].internal_date_ms),
    ensures
        insert_position(s, c) == k,
    decreases k,
{
    if k > 0 {
        assert(!date_greater(c.internal_date_ms, s[0].internal_date_ms));
        assert forall|j: int| 0 <= j < k - 1 implies !date_greater(c.internal_date_ms, #[trigger] s.drop_first()[j].internal_date_ms) by {
            assert(s.drop_first()[j] == s[j + 1]);
        }
        lemma_insert_position_first(s.drop_first(), c, k - 1);
    }
}

proof fn lemma_insert_position_bounds(s: Seq<CandidateEmailView>, c: CandidateEmailView)
    ensures
        0 <= insert_position(s, c) <= s.len(),
        forall|j: int| 0 <= j < insert_position(s, c) ==> !date_greater(c.internal_date_ms, #[trigger] s[j].internal_date_ms),
        insert_position(s, c) < s.len() ==> date_greater(c.internal_date_ms, s[insert_position(s, c)].internal_date_ms),
    decreases s.len(),
{
    if s.len() > 0 && !date_greater(c.internal_date_ms, s[0].internal_date_ms) {
        lemma_insert_position_bounds(s.drop_first(), c);
        assert forall|j: int| 0 <= j < insert_position(s, c) implies !date_greater(c.internal_date_ms, #[trigger] s[j].internal_date_ms) by {
            if j > 0 {
                assert(s[j] == s.drop_first()[j - 1]);
            }
        }
    }
}

/// Sorting orders the candidates from the latest date down and keeps every
/// candidate, each as often as it came.
pub proof fn law_sort_by_date(s: Seq<CandidateEmailView>)
    ensures
        latest_first(sort_by_date(s)),
        sort_by_date(s).to_multiset() == s.to_multiset(),
        sort_by_date(s).len() == s.len(),
    decreases s.len(),
{
    broadcast use vstd::seq_lib::group_to_multiset_ensures;
    if s.len() > 0 {
        law_sort_by_date(s.drop_last());
        let done = sort_by_date(s.drop_last());
        let c = s.last();
        let p = insert_position(done, c);
        lemma_insert_position_bounds(done, c);
        let r = done.insert(p, c);
        assert forall|i: int, j: int| 0 <= i < j < r.len() implies !date_greater(#[trigger] r[j].internal_date_ms, #[trigger] r[i].internal_date_ms) by {
            if j < p {
                assert(r[i] == done[i] && r[j] == done[j]);
            } else if j == p {
                assert(r[i] == done[i]);
            } else if i == p {
                assert(r[j] == done[j - 1]);
                if p < done.len() {
                    assert(!date_greater(done[j - 1].internal_date_ms, done[p].internal_date_ms));
                }
            } else if i < p {
                assert(r[i] == done[i] && r[j] == done[j - 1]);
            } else {
                assert(r[i] == done[i - 1] && r[j] == done[j - 1]);
            }
        }
        assert(s =~= s.drop_last().push(c));
    }
}

/// The candidates ordered from the latest date down (a stable sort).
pub fn sort_candidates(candidates: &Vec<CandidateEmail>) -> (sorted: Vec<CandidateEmail>)
    ensures
        candidates_view(sorted@) == sort_by_date(candidates_view(candidates@)),
{
    let mut sorted: Vec<CandidateEmail> = Vec::new();
    let ghost all = candidates_view(candidates@);
    let mut i: usize = 0;
    proof {
        assert(all.take(0) =~= Seq::<CandidateEmailView>::empty());
        assert(candidates_view(sorted@) =~= Seq::<CandidateEmailView>::empty());
    }
    while i < candidates.len()
        invariant
            i <= candidates.len(),
            all == candidates_view(candidates@),
            candidates_view(sorted@) == sort_by_date(all.take(i as int)),
        decreases candidates.len() - i,
    {
        let c = candidates[i].duplicate();
        let ghost done = candidates_view(sorted@);
        let mut k: usize = 0;
        while k < sorted.len() && !later(&c, &sorted[k])
            invariant
                k <= sorted.len(),
                done == candidates_view(sorted@),
                forall|j: int| 0 <= j < k ==> !date_greater(c@.internal_date_ms, #[trigger] done[j].internal_date_ms),
            decreases sorted.len() - k,
        {
            k = k + 1;
        }
        proof {
            lemma_insert_position_first(done, c@, k as int);
            let prefix = all.take(i + 1);
            assert(prefix.drop_last() =~= all.take(i as int));
            assert(prefix.last() == c@);
        }
        sorted.insert(k, c);
        proof {
            assert(candidates_view(sorted@) =~= done.insert(k as int, c@));
        }
        i = i + 1;
    }
    proof {
        assert(all.take(i as int) =~= all);
    }
    sorted
}

/// Whether `a` has a later date than `b`.
fn later(a: &CandidateEmail, b: &CandidateEmail) -> (r: bool)
    ensures
        r == date_greater(a@.internal_date_ms, b@.internal_date_ms),
{
    match (a.internal_date_ms, b.internal_date_ms) {
        (Some(x), Some(y)) => x > y,
        (Some(_), None) => true,
        _ => false,
    }
}

/// The ids of `dedup(s)` are distinct.
pub proof fn lemma_dedup_distinct(s: Seq<Seq<char>>)
    ensures
        dedup(s).no_duplicates(),
        forall|x: Seq<char>| dedup(s).contains(x) <==> s.contains(x),
    decreases s.len(),
{
    if s.len() > 0 {
        lemma_dedup_distinct(s.drop_last());
        let done = dedup(s.drop_last());
        let last = s.last();
        let front = s.drop_last();
        assert forall|x: Seq<char>| dedup(s).contains(x) <==> s.contains(x) by {
            if s.contains(x) && x != last {
                let k = choose|k: int| 0 <= k < s.len() && s[k] == x;
                assert(front[k] == x);
            }
            if front.contains(x) {
                let k = choose|k: int| 0 <= k < front.len() && front[k] == x;
                assert(s[k] == x);
            }
            if x == last {
                assert(s[s.len() - 1] == x);
                if !done.contains(last) {
                    assert(done.push(last)[done.len() as int] == x);
                }
            }
            if !done.contains(last) {
                if done.push(last).contains(x) && x != last {
                    let k = choose|k: int| 0 <= k < done.push(last).len() && done.push(last)[k] == x;
                    assert(done[k] == x);
                }
                if done.contains(x) {
                    let k = choose|k: int| 0 <= k < done.len() && done[k] == x;
                    assert(done.push(last)[k] == x);
                }
            }
        }
        if !done.contains(s.last()) {
            assert forall|i: int, j: int| 0 <= i < done.len() + 1 && 0 <= j < done.len() + 1 && i != j implies done.push(s.last())[i] != done.push(s.last())[j] by {
                if i == done.len() {
                    assert(done[j] != s.last());
                } else if j == done.len() {
                    assert(done[i] != s.last());
                }
            }
        }
    }
}

// ---------------------------------------------------------------------------
// Attachment data
// ---------------------------------------------------------------------------

/// What the URL-safe base64 engine without padding decodes from `data`.
pub uninterp spec fn base64_url_unpadded(data: Seq<char>) -> Option<Seq<u8>>;

/// What the URL-safe base64 engine with padding decodes from `data`, or the
/// message of its error.
pub uninterp spec fn base64_url_padded(data: Seq<char>) -> Result<Seq<u8>, Seq<char>>;

/// Decodes `data` with `base64::engine::general_purpose::URL_SAFE_NO_PAD`;
/// only the name `base64_url_unpadded` is claimed of the result.
#[verifier::external_body]
fn decode_url_safe_no_pad(data: &str) -> (r: Option<Vec<u8>>)
    ensures
        match r {
            Some(bytes) => base64_url_unpadded(data@) == Some(bytes@),
            None => base64_url_unpadded(data@) is None,
        },
{
    URL_SAFE_NO_PAD.decode(data).ok()
}

/// Decodes `data` with `base64::engine::general_purpose::URL_SAFE`; only the
/// name `base64_url_padded` is claimed of the result.
#[verifier::external_body]
fn decode_url_safe(data: &str) -> (r: Result<Vec<u8>, String>)
    ensures
        match r {
            Ok(bytes) => base64_url_padded(data@) == Ok::<Seq<u8>, Seq<char>>(bytes@),
            Err(message) => base64_url_padded(data@) == Err::<Seq<u8>, Seq<char>>(message@),
        },
{
    URL_SAFE.decode(data).map_err(|error| error.to_string())
}

/// Gmail's attachment data: URL-safe base64, without padding or else with it.
pub open spec fn base64_url(data: Seq<char>) -> Result<Seq<u8>, Seq<char>> {
    match base64_url_unpadded(data) {
        Some(bytes) => Ok(bytes),
        None => base64_url_padded(data),
    }
}

/// Decodes the data of an attachment (see `base64_url`).
pub fn decode_base64_url(filename: &str, data: &str) -> (r: Result<Vec<u8>, GmailSearchError>)
    ensures
        match base64_url(data@) {
            Ok(bytes) => r matches Ok(b) && b@ == bytes,
            Err(message) => r matches Err(GmailSearchError::Base64 { filename: f, message: m })
                && f@ == filename@ && m@ == message,
        },
{
    match decode_url_safe_no_pad(data) {
        Some(bytes) => Ok(bytes),
        None => match decode_url_safe(data) {
            Ok(bytes) => Ok(bytes),
            Err(message) => Err(GmailSearchError::Base64 { filename: owned(filename), message }),
        },
    }
}

/// "attachment <filename>"
pub open spec fn attachment_context(filename: Seq<char>) -> Seq<char> {
    "attachment "@ + filename
}

/// Reads what `messages.attachments.get` printed for the attachment `filename`.
pub fn attachment_from_output(filename: &str, stdout: &str) -> (r: Result<DownloadedAttachment, GmailSearchError>)
    ensures
        match decode_body_spec(stdout@) {
            Err(message) => r matches Err(GmailSearchError::Json { context, message: m })
                && context@ == attachment_context(filename@) && m@ == message,
            Ok(body) => match body.data {
                None => r matches Err(GmailSearchError::AttachmentMissingData { filename: f }) && f@ == filename@,
                Some(data) => match base64_url(data) {
                    Ok(bytes) => r matches Ok(d) && d.filename@ == filename@ && d.bytes@ == bytes,
                    Err(message) => r matches Err(GmailSearchError::Base64 { filename: f, message: m })
                        && f@ == filename@ && m@ == message,
                },
            },
        },
{
    let body = match decode_body(stdout) {
        Ok(b) => b,
        Err(message) => {
            let mut context = owned("attachment ");
            context.append(filename);
            return Err(GmailSearchError::Json { context, message });
        },
    };
    let data = match body.data {
        Some(d) => d,
        None => return Err(GmailSearchError::AttachmentMissingData { filename: owned(filename) }),
    };
    let bytes = decode_base64_url(filename, data.as_str())?;
    Ok(DownloadedAttachment { filename: owned(filename), bytes })
}

/// "message details for <id>"
pub open spec fn message_context(id: Seq<char>) -> Seq<char> {
    "message details for "@ + id
}

/// Reads what `messages.get` printed for the message `id`: the candidate it
/// stands for, if any.
pub fn candidate_from_output(id: &str, stdout: &str) -> (r: Result<Option<CandidateEmail>, GmailSearchError>)
    ensures
        match decode_message_spec(stdout@) {
            Err(message) => r matches Err(GmailSearchError::Json { context, message: m })
                && context@ == message_context(id@) && m@ == message,
            Ok(m) => match candidate_spec(m) {
                Some(c) => r matches Ok(Some(found)) && found@ == c,
                None => r matches Ok(None),
            },
        },
{
    let message = match decode_message(stdout) {
        Ok(m) => m,
        Err(message) => {
            let mut context = owned("message details for ");
            context.append(id);
            return Err(GmailSearchError::Json { context, message });
        },
    };
    Ok(message_to_candidate(message))
}

// ---------------------------------------------------------------------------
// The search
// ---------------------------------------------------------------------------

/// What a run of `gws` asks next: another run with these arguments, or
/// nothing more, with the outcome.
pub enum RunnerStep<T> {
    Run(Seq<Seq<char>>),
    Done(T),
}

/// What listing the messages of `query` gives when the runner answered
/// `answer`: the ids, each once, or why it failed (the runner's own error,
/// an output that does not read, or a listing stopped by the page limit).
#[verifier::opaque]
pub open spec fn list_step(query: Seq<char>, answer: Result<String, GmailSearchError>) -> Result<Seq<Seq<char>>, GmailSearchErrorView> {
    match answer {
        Err(e) => Err(e@),
        Ok(out) => match list_pages_spec(out@) {
            Err(message) => Err(GmailSearchErrorView::Json { context: list_context(query), message }),
            Ok(pages) => if output_hit_limit(pages) {
                Err(GmailSearchErrorView::PageLimitReached { query, page_limit: PAGE_LIMIT })
            } else {
                Ok(output_ids(pages))
            },
        },
    }
}

/// What fetching the message `id` gives when the runner answered `answer`:
/// the candidate it stands for, if any, or why it failed.
#[verifier::opaque]
pub open spec fn fetch_step(id: Seq<char>, answer: Result<String, GmailSearchError>) -> Result<Option<CandidateEmailView>, GmailSearchErrorView> {
    match answer {
        Err(e) => Err(e@),
        Ok(out) => match decode_message_spec(out@) {
            Err(message) => Err(GmailSearchErrorView::Json { context: message_context(id), message }),
            Ok(m) => Ok(candidate_spec(m)),
        },
    }
}

/// The candidates read from the answers to the fetches of the first
/// `answers.len()` messages of `ids`, in order, or the first failure.
pub open spec fn fetch_results(ids: Seq<Seq<char>>, answers: Seq<Result<String, GmailSearchError>>) -> Result<Seq<CandidateEmailView>, GmailSearchErrorView>
    decreases answers.len(),
{
    if answers.len() == 0 {
        Ok(Seq::empty())
    } else {
        match fetch_results(ids, answers.drop_last()) {
            Err(e) => Err(e),
            Ok(done) => match fetch_step(ids[answers.len() - 1], answers.last()) {
                Err(e) => Err(e),
                Ok(Some(c)) => Ok(done.push(c)),
                Ok(None) => Ok(done),
            },
        }
    }
}

/// The search after the runner's answers `answers`, in order: first the
/// listing of the PDF query, then that of the JSON query, then one fetch
/// for each message found by both (each once, in the order of the PDF
/// listing); it stops at the first failure, and otherwise ends with the
/// candidates found, the latest first.
#[verifier::opaque]
pub open spec fn search_step(range: (Date, Date), filter: Seq<char>, answers: Seq<Result<String, GmailSearchError>>) -> RunnerStep<Result<Seq<CandidateEmailView>, GmailSearchErrorView>> {
    let pdf_query = attachment_query(range, "pdf"@, filter);
    let json_query = attachment_query(range, "json"@, filter);
    if answers.len() == 0 {
        RunnerStep::Run(list_args_spec(pdf_query))
    } else {
        match list_step(pdf_query, answers[0]) {
            Err(e) => RunnerStep::Done(Err(e)),
            Ok(pdf_ids) => if answers.len() == 1 {
                RunnerStep::Run(list_args_spec(json_query))
            } else {
                match list_step(json_query, answers[1]) {
                    Err(e) => RunnerStep::Done(Err(e)),
                    Ok(json_ids) => fetch_next(dedup(keep_in(pdf_ids, json_ids)), answers.subrange(2, answers.len() as int)),
                }
            },
        }
    }
}

/// The fetches of `ids` after the answers `answers`: the next fetch, or the
/// end of the search.
pub open spec fn fetch_next(ids: Seq<Seq<char>>, answers: Seq<Result<String, GmailSearchError>>) -> RunnerStep<Result<Seq<CandidateEmailView>, GmailSearchErrorView>> {
    match fetch_results(ids, answers) {
        Err(e) => RunnerStep::Done(Err(e)),
        Ok(found) => if answers.len() < ids.len() {
            RunnerStep::Run(message_args_spec(ids[answers.len() as int]))
        } else {
            RunnerStep::Done(Ok(sort_by_date(found)))
        },
    }
}

/// `answers` are what `runner` may answer to the runs the search asked for,
/// one each, in order: before each answer the search asked for one more run.
pub open spec fn search_answered<R: CommandRunner>(runner: R, range: (Date, Date), filter: Seq<char>, answers: Seq<Result<String, GmailSearchError>>) -> bool {
    forall|k: int| 0 <= k < answers.len() ==> (#[trigger] search_step(range, filter, answers.take(k))
        matches RunnerStep::Run(args) && runner.answers(args, answers[k]))
}

/// `outcome` is what a search of the period `range` with the filter `filter`
/// through `runner` may come to: for some answers of the runner to the runs
/// the search asked for, in order, the search ends there with that outcome.
pub open spec fn search_gives<R: CommandRunner>(runner: R, range: (Date, Date), filter: Seq<char>, outcome: Result<Seq<CandidateEmailView>, GmailSearchErrorView>) -> bool {
    exists|answers: Seq<Result<String, GmailSearchError>>|
        #![trigger search_step(range, filter, answers)]
        search_answered(runner, range, filter, answers) && search_step(range, filter, answers) == RunnerStep::Done(outcome)
}

/// The outcome of a search with its texts as character sequences.
pub open spec fn search_view(r: Result<Vec<CandidateEmail>, GmailSearchError>) -> Result<Seq<CandidateEmailView>, GmailSearchErrorView> {
    match r {
        Ok(found) => Ok(candidates_view(found@)),
        Err(e) => Err(e@),
    }
}

/// What downloading the attachment `filename` gives when the runner
/// answered `answer`: its name and bytes, or why it failed.
#[verifier::opaque]
pub open spec fn download_step(filename: Seq<char>, answer: Result<String, GmailSearchError>) -> Result<(Seq<char>, Seq<u8>), GmailSearchErrorView> {
    match answer {
        Err(e) => Err(e@),
        Ok(out) => match decode_body_spec(out@) {
            Err(message) => Err(GmailSearchErrorView::Json { context: attachment_context(filename), message }),
            Ok(body) => match body.data {
                None => Err(GmailSearchErrorView::AttachmentMissingData { filename }),
                Some(data) => match base64_url(data) {
                    Ok(bytes) => Ok((filename, bytes)),
                    Err(message) => Err(GmailSearchErrorView::Base64 { filename, message }),
                },
            },
        },
    }
}

/// The outcome of a download with its texts as character sequences.
pub open spec fn download_view(r: Result<DownloadedAttachment, GmailSearchError>) -> Result<(Seq<char>, Seq<u8>), GmailSearchErrorView> {
    match r {
        Ok(d) => Ok((d.filename@, d.bytes@)),
        Err(e) => Err(e@),
    }
}

/// `r` is what downloading `attachment` of the message `message_id` through
/// `runner` may give: without an attachment id no run and a refusal,
/// otherwise one run for the attachment and what its answer holds.
pub open spec fn download_gives<R: CommandRunner>(runner: R, message_id: Seq<char>, attachment: AttachmentSummaryView, r: Result<(Seq<char>, Seq<u8>), GmailSearchErrorView>) -> bool {
    &&& attachment.attachment_id is None ==> r == Err::<(Seq<char>, Seq<u8>), GmailSearchErrorView>(
        GmailSearchErrorView::AttachmentNotDownloadable { filename: attachment.filename },
    )
    &&& attachment.attachment_id is Some ==> exists|answer: Result<String, GmailSearchError>|
        #[trigger] runner.answers(attachment_args_spec(message_id, attachment.attachment_id->Some_0), answer)
            && r == download_step(attachment.filename, answer)
}

/// One more answer, to the run the search asked for, keeps the answers in
/// order.
proof fn lemma_search_answered_push<R: CommandRunner>(
    runner: R,
    range: (Date, Date),
    filter: Seq<char>,
    answers: Seq<Result<String, GmailSearchError>>,
    a: Result<String, GmailSearchError>,
)
    requires
        search_answered(runner, range, filter, answers),
        search_step(range, filter, answers) matches RunnerStep::Run(args) && runner.answers(args, a),
    ensures
        search_answered(runner, range, filter, answers.push(a)),
{
    let next = answers.push(a);
    assert forall|k: int| 0 <= k < next.len() implies (#[trigger] search_step(range, filter, next.take(k))
        matches RunnerStep::Run(args) && runner.answers(args, next[k])) by {
        if k < answers.len() {
            assert(next.take(k) =~= answers.take(k));
        } else {
            assert(next.take(k) =~= answers);
        }
    }
}

/// The search begins with the listing of the PDF query, then, when that
/// reads, the listing of the JSON query, then, when that reads too, the
/// fetches of the messages found by both.
proof fn lemma_search_begins(
    range: (Date, Date),
    filter: Seq<char>,
    a0: Result<String, GmailSearchError>,
    a1: Result<String, GmailSearchError>,
    fetched: Seq<Result<String, GmailSearchError>>,
)
    ensures
        search_step(range, filter, Seq::empty()) == RunnerStep::<Result<Seq<CandidateEmailView>, GmailSearchErrorView>>::Run(
            list_args_spec(attachment_query(range, "pdf"@, filter)),
        ),
        search_step(range, filter, seq![a0]) == match list_step(attachment_query(range, "pdf"@, filter), a0) {
            Err(e) => RunnerStep::Done(Err(e)),
            Ok(_) => RunnerStep::<Result<Seq<CandidateEmailView>, GmailSearchErrorView>>::Run(
                list_args_spec(attachment_query(range, "json"@, filter)),
            ),
        },
        list_step(attachment_query(range, "pdf"@, filter), a0) is Ok ==> search_step(range, filter, seq![a0, a1] + fetched) == match list_step(attachment_query(range, "json"@, filter), a1) {
            Err(e) => RunnerStep::Done(Err(e)),
            Ok(json_ids) => fetch_next(dedup(keep_in(list_step(attachment_query(range, "pdf"@, filter), a0)->Ok_0, json_ids)), fetched),
        },
{
    reveal(search_step);
    let all = seq![a0, a1] + fetched;
    assert(all[0] == a0);
    assert(all[1] == a1);
    assert(all.subrange(2, all.len() as int) =~= fetched);
}

/// One more fetch answer adds its candidate, if any, or ends in its failure.
proof fn lemma_fetch_results_push(ids: Seq<Seq<char>>, fetched: Seq<Result<String, GmailSearchError>>, a: Result<String, GmailSearchError>)
    ensures
        fetch_results(ids, fetched.push(a)) == match fetch_results(ids, fetched) {
            Err(e) => Err(e),
            Ok(done) => match fetch_step(ids[fetched.len() as int], a) {
                Err(e) => Err(e),
                Ok(Some(c)) => Ok(done.push(c)),
                Ok(None) => Ok(done),
            },
        },
{
    assert(fetched.push(a).drop_last() =~= fetched);
}

/// Ordering the candidates keeps every one of them: when each has both
/// kinds of attachment, so has each of the ordered ones.
proof fn lemma_sorted_keeps_both(all: Seq<CandidateEmailView>)
    requires
        all_have_both(all),
    ensures
        all_have_both(sort_by_date(all)),
        latest_first(sort_by_date(all)),
{
    broadcast use vstd::seq_lib::group_to_multiset_ensures;
    law_sort_by_date(all);
    let s = sort_by_date(all);
    assert forall|k: int| 0 <= k < s.len() implies (#[trigger] s[k]).pdf_attachments.len() > 0 && s[k].json_attachments.len() > 0 by {
        assert(s.to_multiset().count(s[k]) > 0);
        assert(all.to_multiset().count(s[k]) > 0);
        assert(all.contains(s[k]));
    }
}

/// The search depends on its DTE filter only through the filter's trimmed
/// text: for the same answers of the runner, a filter and its trimmed text
/// ask for the same runs and come to the same outcome. (Setting the filter
/// again replaces it, see `with_dte_query_filter`, so the last filter set is
/// the one the search uses.)
pub proof fn law_search_uses_trimmed_filter(range: (Date, Date), filter: Seq<char>, answers: Seq<Result<String, GmailSearchError>>)
    ensures
        search_step(range, filter, answers) == search_step(range, trim(filter), answers),
{
    reveal(search_step);
    lemma_trim_idempotent(filter);
    assert(attachment_query(range, "pdf"@, filter) == attachment_query(range, "pdf"@, trim(filter)));
    assert(attachment_query(range, "json"@, filter) == attachment_query(range, "json"@, trim(filter)));
}

/// Runs `gws` with the given arguments and hands back what it printed.
pub trait CommandRunner {
    /// Whether `output` is an answer the runner may give to a run of `gws`
    /// with the arguments `args`. A runner that says nothing more may give
    /// any answer; what the library states of a runner's answers holds for
    /// every runner.
    closed spec fn answers(&self, args: Seq<Seq<char>>, output: Result<String, GmailSearchError>) -> bool {
        true
    }

    fn run(&self, args: &[String]) -> (output: Result<String, GmailSearchError>)
        ensures
            self.answers(strings_view(args@), output),
    ;
}

/// Searches Gmail through a [`CommandRunner`].
pub struct GmailSearchService<R> {
    runner: R,
    dte_query_filter: String,
}

/// Every candidate has a PDF and a JSON attachment.
pub open spec fn all_have_both(s: Seq<CandidateEmailView>) -> bool {
    forall|i: int| 0 <= i < s.len() ==> (#[trigger] s[i]).pdf_attachments.len() > 0 && s[i].json_attachments.len() > 0
}

impl<R: CommandRunner> GmailSearchService<R> {
    /// The filter added to every query.
    pub closed spec fn query_filter(&self) -> Seq<char> {
        self.dte_query_filter@
    }

    /// The runner the service calls.
    pub closed spec fn runner_of(&self) -> R {
        self.runner
    }

    /// A service that runs `gws` through `runner`, with the default filter.
    pub fn new(runner: R) -> (s: Self)
        ensures
            s.query_filter() == DEFAULT_DTE_QUERY_FILTER@,
            s.runner_of() == runner,
    {
        GmailSearchService { runner, dte_query_filter: owned(DEFAULT_DTE_QUERY_FILTER) }
    }

    /// The same service with another filter (blank for none).
    pub fn with_dte_query_filter(self, dte_query_filter: &str) -> (s: Self)
        ensures
            s.query_filter() == dte_query_filter@,
            s.runner_of() == self.runner_of(),
    {
        GmailSearchService { runner: self.runner, dte_query_filter: owned(dte_query_filter) }
    }

    /// Lists the INBOX messages that match `query`, each once; hands back,
    /// besides, the runner's answer.
    fn list_message_ids(&self, query: &String) -> (r: (Result<Vec<String>, GmailSearchError>, Ghost<Result<String, GmailSearchError>>))
        ensures
            self.runner.answers(list_args_spec(query@), r.1@),
            match r.0 {
                Ok(ids) => list_step(query@, r.1@) == Ok::<Seq<Seq<char>>, GmailSearchErrorView>(strings_view(ids@)),
                Err(e) => list_step(query@, r.1@) == Err::<Seq<Seq<char>>, GmailSearchErrorView>(e@),
            },
    {
        proof {
            reveal(list_step);
        }
        let args = list_args(query.as_str());
        let answer = self.runner.run(args.as_slice());
        let ghost a = answer;
        let stdout = match answer {
            Ok(out) => out,
            Err(e) => return (Err(e), Ghost(a)),
        };
        let output = match parse_list_output(stdout.as_str(), query.as_str()) {
            Ok(output) => output,
            Err(e) => return (Err(e), Ghost(a)),
        };
        if output.hit_page_limit {
            return (Err(GmailSearchError::PageLimitReached { query: copy_string(query), page_limit: PAGE_LIMIT }), Ghost(a));
        }
        (Ok(output.message_ids), Ghost(a))
    }

    /// Fetches the message `message_id` and tells whether it is a candidate;
    /// hands back, besides, the runner's answer.
    fn fetch_candidate(&self, message_id: &str) -> (r: (Result<Option<CandidateEmail>, GmailSearchError>, Ghost<Result<String, GmailSearchError>>))
        ensures
            self.runner.answers(message_args_spec(message_id@), r.1@),
            r.0 matches Ok(Some(c)) ==> c@.pdf_attachments.len() > 0 && c@.json_attachments.len() > 0,
            match r.0 {
                Ok(Some(c)) => fetch_step(message_id@, r.1@) == Ok::<Option<CandidateEmailView>, GmailSearchErrorView>(Some(c@)),
                Ok(None) => fetch_step(message_id@, r.1@) == Ok::<Option<CandidateEmailView>, GmailSearchErrorView>(None),
                Err(e) => fetch_step(message_id@, r.1@) == Err::<Option<CandidateEmailView>, GmailSearchErrorView>(e@),
            },
    {
        proof {
            reveal(fetch_step);
        }
        let args = message_args(message_id);
        let answer = self.runner.run(args.as_slice());
        let ghost a = answer;
        let stdout = match answer {
            Ok(out) => out,
            Err(e) => return (Err(e), Ghost(a)),
        };
        (candidate_from_output(message_id, stdout.as_str()), Ghost(a))
    }

    /// Finds the INBOX messages of the period that have both a PDF and a JSON
    /// attachment: one search for each kind, the messages found by both,
    /// each fetched in full and kept when it does have both; the latest first.
    /// The runs of `gws` and the outcome are those of `search_step` for the
    /// runner's answers; the first failure ends the search.
    #[verifier::loop_isolation(false)]
    pub fn search_invoice_candidates(&self, range: &DateRange) -> (r: Result<Vec<CandidateEmail>, GmailSearchError>)
        ensures
            search_gives(self.runner_of(), range@, self.query_filter(), search_view(r)),
            r matches Ok(found) ==> latest_first(candidates_view(found@)) && all_have_both(candidates_view(found@)),
    {
        let ghost filter = self.query_filter();
        let ghost runner = self.runner_of();
        let pdf_query = build_attachment_query(range, "pdf", self.dte_query_filter.as_str());
        let json_query = build_attachment_query(range, "json", self.dte_query_filter.as_str());
        let ghost none = Seq::<Result<String, GmailSearchError>>::empty();
        proof {
            assert(search_answered(runner, range@, filter, none));
        }
        let (pdf_listed, Ghost(a0)) = self.list_message_ids(&pdf_query);
        let ghost first = seq![a0];
        proof {
            lemma_search_begins(range@, filter, a0, a0, none);
            lemma_search_answered_push(runner, range@, filter, none, a0);
            assert(none.push(a0) =~= first);
        }
        let pdf_message_ids = match pdf_listed {
            Ok(ids) => ids,
            Err(e) => {
                proof {
                    assert(search_step(range@, filter, first) == RunnerStep::Done(search_view(Err::<Vec<CandidateEmail>, GmailSearchError>(e))));
                }
                return Err(e);
            },
        };
        let (json_listed, Ghost(a1)) = self.list_message_ids(&json_query);
        let ghost both = seq![a0, a1];
        proof {
            lemma_search_begins(range@, filter, a0, a1, none);
            assert(both + none =~= both);
            lemma_search_answered_push(runner, range@, filter, first, a1);
            assert(first.push(a1) =~= both);
        }
        let json_message_ids = match json_listed {
            Ok(ids) => ids,
            Err(e) => {
                proof {
                    assert(search_step(range@, filter, both) == RunnerStep::Done(search_view(Err::<Vec<CandidateEmail>, GmailSearchError>(e))));
                }
                return Err(e);
            },
        };
        let intersected_ids = intersect_ids(pdf_message_ids.as_slice(), json_message_ids.as_slice());
        let ghost ids = strings_view(intersected_ids@);
        let mut candidates: Vec<CandidateEmail> = Vec::new();
        let ghost mut fetched: Seq<Result<String, GmailSearchError>> = Seq::empty();
        let mut i: usize = 0;
        proof {
            assert(both + fetched =~= both);
            assert(candidates_view(candidates@) =~= Seq::<CandidateEmailView>::empty());
        }
        while i < intersected_ids.len()
            invariant
                i <= intersected_ids.len(),
                ids == strings_view(intersected_ids@),
                fetched.len() == i,
                fetch_results(ids, fetched) == Ok::<Seq<CandidateEmailView>, GmailSearchErrorView>(candidates_view(candidates@)),
                all_have_both(candidates_view(candidates@)),
                search_answered(runner, range@, filter, both + fetched),
                search_step(range@, filter, both + fetched) == fetch_next(ids, fetched),
            decreases intersected_ids.len() - i,
        {
            let (fetched_one, Ghost(a)) = self.fetch_candidate(intersected_ids[i].as_str());
            let ghost next = fetched.push(a);
            proof {
                assert(ids[i as int] == intersected_ids@[i as int]@);
                lemma_search_answered_push(runner, range@, filter, both + fetched, a);
                assert((both + fetched).push(a) =~= both + next);
                lemma_search_begins(range@, filter, a0, a1, next);
                lemma_fetch_results_push(ids, fetched, a);
            }
            match fetched_one {
                Ok(Some(candidate)) => {
                    let ghost before = candidates_view(candidates@);
                    candidates.push(candidate);
                    proof {
                        assert(candidates_view(candidates@) =~= before.push(candidates@.last()@));
                    }
                },
                Ok(None) => {},
                Err(e) => {
                    proof {
                        assert(search_step(range@, filter, both + next) == RunnerStep::Done(search_view(Err::<Vec<CandidateEmail>, GmailSearchError>(e))));
                    }
                    return Err(e);
                },
            }
            proof {
                fetched = next;
            }
            i = i + 1;
        }
        let sorted = sort_candidates(&candidates);
        proof {
            lemma_sorted_keeps_both(candidates_view(candidates@));
        }
        Ok(sorted)
    }

    /// Downloads an attachment of the message `message_id`: one run of
    /// `gws` for the attachment when it has an id, what `download_gives`
    /// says of the outcome.
    pub fn download_attachment(&self, message_id: &str, attachment: &AttachmentSummary) -> (r: Result<DownloadedAttachment, GmailSearchError>)
        ensures
            download_gives(self.runner_of(), message_id@, attachment@, download_view(r)),
    {
        let attachment_id = match &attachment.attachment_id {
            Some(id) => id,
            None => return Err(GmailSearchError::AttachmentNotDownloadable { filename: attachment.filename.clone() }),
        };
        proof {
            reveal(download_step);
        }
        let args = attachment_args(message_id, attachment_id.as_str());
        let answer = self.runner.run(args.as_slice());
        let ghost a = answer;
        let stdout = match answer {
            Ok(out) => out,
            Err(e) => {
                proof {
                    assert(attachment@.attachment_id == Some(attachment_id@));
                    assert(self.runner_of().answers(attachment_args_spec(message_id@, attachment_id@), a));
                    assert(download_view(Err::<DownloadedAttachment, GmailSearchError>(e)) == download_step(attachment.filename@, a));
                    assert(self.runner_of().answers(attachment_args_spec(message_id@, attachment@.attachment_id->Some_0), a));
                }
                return Err(e);
            },
        };
        let r = attachment_from_output(attachment.filename.as_str(), stdout.as_str());
        proof {
            assert(attachment@.attachment_id == Some(attachment_id@));
            assert(self.runner_of().answers(attachment_args_spec(message_id@, attachment_id@), a));
            assert(download_view(r) == download_step(attachment.filename@, a));
            assert(self.runner_of().answers(attachment_args_spec(message_id@, attachment@.attachment_id->Some_0), a));
        }
        r
    }
}

/// A header found by name is a header of the list with that name (ASCII case
/// ignored), its value trimmed and not blank.
pub proof fn lemma_header_found(headers: Seq<(Seq<char>, Seq<char>)>, name: Seq<char>)
    ensures
        header_spec(headers, name) matches Some(v) ==> exists|k: int|
            0 <= k < headers.len() && lower_seq(#[trigger] headers[k].0) == lower_seq(name) && trim(headers[k].1) == v
                && v.len() > 0,
    decreases headers.len(),
{
    if headers.len() > 0 && lower_seq(headers[0].0) != lower_seq(name) {
        let rest = headers.drop_first();
        lemma_header_found(rest, name);
        if header_spec(rest, name) is Some {
            let k = choose|k: int| 0 <= k < rest.len() && lower_seq(#[trigger] rest[k].0) == lower_seq(name)
                && trim(rest[k].1) == header_spec(rest, name)->0 && header_spec(rest, name)->0.len() > 0;
            assert(headers[k + 1] == rest[k]);
        }
    }
}

/// The date a candidate shows is its `Date` header when the message has one
/// that is not blank: the trimmed value of a header named `Date` (in any
/// case), whatever `internalDate` holds; only without such a header is it
/// `internalDate`.
pub proof fn law_received_at_is_the_date_header(m: GmailMessageView)
    requires
        candidate_spec(m) is Some,
    ensures
        m.payload is Some,
        header_spec(m.payload->0.headers, "Date"@) matches Some(d) ==> candidate_spec(m)->0.received_at == d
            && exists|k: int| 0 <= k < m.payload->0.headers.len()
                && lower_seq(#[trigger] m.payload->0.headers[k].0) == lower_seq("Date"@)
                && trim(m.payload->0.headers[k].1) == d && d.len() > 0,
        header_spec(m.payload->0.headers, "Date"@) is None ==> candidate_spec(m)->0.received_at == or_empty(m.internal_date),
{
    lemma_header_found(m.payload->0.headers, "Date"@);
}

} // verus!
