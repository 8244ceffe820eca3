//! Drive client logic: typed request shapes, the retry / re-auth
//! envelope, and paged directory listing.
//!
//! The network itself lives outside the library. The caller sends a
//! request, reports what came back ([`SendOutcome`]), and this module
//! decides whether to deliver the response, refresh the access token
//! and resend once, pause and resend once, or fail ([`first_send_plan`]).
//! Paged listings are folded into one sequence by [`ListAllSession`].
use vstd::prelude::*;

verus! {

/// How many items one listing page asks for.
pub const LIST_PAGE_LIMIT: u32 = 200;

/// Connection settings and endpoints of the drive client.
#[derive(Debug, Clone)]
pub struct DriveConfig {
    /// Base URL of the API.
    pub api_base_url: String,
    /// URL of the token refresh endpoint.
    pub refresh_token_url: String,
    /// Directory holding the persisted refresh token, when configured.
    pub workdir: Option<String>,
    /// Extra application identifier sent with refresh requests, when
    /// an alternate endpoint family requires one.
    pub app_id: Option<String>,
}

/// The type of a remote entry.
#[derive(Debug, Clone, Copy, PartialEq, Eq, Structural)]
pub enum FileType {
    /// A directory.
    Folder,
    /// A regular file.
    File,
}

/// One remote file record, as the driver consumes it.
#[derive(Debug, Clone)]
pub struct AliyunFile {
    /// The stable, opaque remote identifier; empty for the
    /// synthesized root.
    pub id: String,
    /// The entry's name within its directory.
    pub name: String,
    /// Folder or file.
    pub kind: FileType,
    /// Size in bytes; zero for folders.
    pub size: u64,
    /// Creation time, seconds since the epoch.
    pub created_at: u64,
    /// Last-update time, seconds since the epoch.
    pub updated_at: u64,
}

impl AliyunFile {
    /// The synthesized root record: a folder with a fixed name and an
    /// empty remote identifier.
    pub fn new_root() -> (file: Self)
        ensures
            file.id@ == Seq::<char>::empty(),
            file.name@ == "root"@,
            file.kind == FileType::Folder,
            file.size == 0,
            file.created_at == 0,
            file.updated_at == 0,
    {
        AliyunFile {
            id: String::new(),
            name: "root".to_owned(),
            kind: FileType::Folder,
            size: 0,
            created_at: 0,
            updated_at: 0,
        }
    }
}

/// The fixed parameters of one directory-listing request.
#[derive(Debug, Clone)]
pub struct ListFileRequest {
    /// The drive the directory belongs to.
    pub drive_id: String,
    /// The directory being listed.
    pub parent_file_id: String,
    /// Page size.
    pub limit: u32,
    /// Whether to list the whole drive rather than one directory.
    pub all: bool,
    /// Service-specific thumbnail processing string for images.
    pub image_thumbnail_process: String,
    /// Service-specific URL processing string for images.
    pub image_url_process: String,
    /// Service-specific thumbnail processing string for videos.
    pub video_thumbnail_process: String,
    /// Which record fields the service returns.
    pub fields: String,
    /// Sort key.
    pub order_by: String,
    /// Sort direction.
    pub order_direction: String,
    /// The pagination cursor, absent on the first page.
    pub marker: Option<String>,
}

/// One page of a directory listing.
pub struct ListFileResponse {
    /// The records of this page, in server order.
    pub items: Vec<AliyunFile>,
    /// The cursor of the next page; empty on the last page.
    pub next_marker: String,
}

/// Build a listing request: every parameter other than the directory
/// and the cursor is fixed.
pub fn make_list_request(drive_id: String, parent_file_id: String, marker: Option<String>) -> (req:
    ListFileRequest)
    ensures
        req.drive_id == drive_id,
        req.parent_file_id == parent_file_id,
        req.limit == LIST_PAGE_LIMIT,
        req.all == false,
        req.image_thumbnail_process@ == "image/resize,w_400/format,jpeg"@,
        req.image_url_process@ == "image/resize,w_1920/format,jpeg"@,
        req.video_thumbnail_process@ == "video/snapshot,t_0,f_jpg,ar_auto,w_300"@,
        req.fields@ == "*"@,
        req.order_by@ == "updated_at"@,
        req.order_direction@ == "DESC"@,
        req.marker == marker,
{
    ListFileRequest {
        drive_id,
        parent_file_id,
        limit: LIST_PAGE_LIMIT,
        all: false,
        image_thumbnail_process: "image/resize,w_400/format,jpeg".to_owned(),
        image_url_process: "image/resize,w_1920/format,jpeg".to_owned(),
        video_thumbnail_process: "video/snapshot,t_0,f_jpg,ar_auto,w_300".to_owned(),
        fields: "*".to_owned(),
        order_by: "updated_at".to_owned(),
        order_direction: "DESC".to_owned(),
        marker,
    }
}

/// The body fields of a token refresh request: the refresh token, the
/// fixed grant type, and the application identifier when one is
/// configured.
pub fn refresh_request_fields(config: &DriveConfig, token: &String) -> (fields: Vec<
    (String, String),
>)
    ensures
        fields@.len() == (if config.app_id is Some {
            3int
        } else {
            2int
        }),
        fields@[0].0@ == "refresh_token"@ && fields@[0].1 == *token,
        fields@[1].0@ == "grant_type"@ && fields@[1].1@ == "refresh_token"@,
        config.app_id matches Some(id) ==> fields@[2].0@ == "app_id"@ && fields@[2].1 == id,
{
    let mut fields: Vec<(String, String)> = Vec::new();
    fields.push(("refresh_token".to_owned(), token.clone()));
    fields.push(("grant_type".to_owned(), "refresh_token".to_owned()));
    match &config.app_id {
        Some(id) => {
            fields.push(("app_id".to_owned(), id.clone()));
        },
        None => {},
    }
    fields
}

/// What one send of a JSON request came back with.
pub enum SendOutcome {
    /// An HTTP response with this status code.
    Http(u16),
    /// No response: the transport failed.
    TransportFailed,
}

/// What the envelope does after the first send of a call.
#[derive(Debug, Clone, Copy, PartialEq, Eq, Structural)]
pub enum EnvelopeAction {
    /// Deliver the response to the caller (decode it, or `None` for
    /// a bodyless success).
    Deliver,
    /// Refresh the token pair, then resend once with the new access
    /// token.
    RefreshThenResend,
    /// Pause one second, then resend once with the same token.
    PauseThenResend,
    /// Surface the failure immediately.
    Fail,
}

/// The envelope's decision after the first send: status 401 triggers
/// a refresh and a single resend; 408, 429, 500, 502, 503 and 504
/// trigger a pause and a single resend; any other client or server
/// error, and any transport failure, is surfaced; everything else is
/// delivered.
pub open spec fn spec_first_send_plan(outcome: SendOutcome) -> EnvelopeAction {
    match outcome {
        SendOutcome::TransportFailed => EnvelopeAction::Fail,
        SendOutcome::Http(status) => if status == 401 {
            EnvelopeAction::RefreshThenResend
        } else if status == 408 || status == 429 || status == 500 || status == 502 || status
            == 503 || status == 504 {
            EnvelopeAction::PauseThenResend
        } else if 400 <= status < 600 {
            EnvelopeAction::Fail
        } else {
            EnvelopeAction::Deliver
        },
    }
}

/// Decide what the envelope does after the first send of a call.
/// The envelope resends at most once per call; the outcome of a
/// resend is delivered or surfaced as it stands.
pub fn first_send_plan(outcome: &SendOutcome) -> (action: EnvelopeAction)
    ensures
        action == spec_first_send_plan(*outcome),
{
    match outcome {
        SendOutcome::TransportFailed => EnvelopeAction::Fail,
        SendOutcome::Http(status) => {
            let s = *status;
            if s == 401 {
                EnvelopeAction::RefreshThenResend
            } else if s == 408 || s == 429 || s == 500 || s == 502 || s == 503 || s == 504 {
                EnvelopeAction::PauseThenResend
            } else if 400 <= s && s < 600 {
                EnvelopeAction::Fail
            } else {
                EnvelopeAction::Deliver
            }
        },
    }
}

/// Whether a delivered response has no body to decode.
pub fn response_has_no_content(status: u16) -> (empty: bool)
    ensures
        empty == (status == 204),
{
    status == 204
}

/// A paged listing being folded into one sequence: the items of the
/// pages delivered so far, in order.
pub struct ListAllSession {
    /// Every item of every page pushed so far, concatenated in the
    /// order delivered.
    pub files: Vec<AliyunFile>,
}

impl ListAllSession {
    /// A session with no pages yet.
    pub fn new() -> (session: Self)
        ensures
            session.files@ == Seq::<AliyunFile>::empty(),
    {
        ListAllSession { files: Vec::new() }
    }

    /// Fold one page in: its items are appended in order, and the
    /// returned cursor is `Some` exactly when the page announces a
    /// further page.
    pub fn push_page(&mut self, page: ListFileResponse) -> (more: Option<String>)
        ensures
            final(self).files@ == old(self).files@ + page.items@,
            match more {
                Some(marker) => marker == page.next_marker && page.next_marker@.len() != 0,
                None => page.next_marker@.len() == 0,
            },
    {
        let ListFileResponse { mut items, next_marker } = page;
        self.files.append(&mut items);
        if next_marker.as_str().is_empty() {
            None
        } else {
            Some(next_marker)
        }
    }

    /// The concatenated items, surrendering the session.
    pub fn into_files(self) -> (files: Vec<AliyunFile>)
        ensures
            files == self.files,
    {
        self.files
    }
}

/// The concatenation of listing pages in the order delivered.
pub open spec fn pages_concat(pages: Seq<Seq<AliyunFile>>) -> Seq<AliyunFile>
    decreases pages.len(),
{
    if pages.len() == 0 {
        Seq::empty()
    } else {
        pages_concat(pages.drop_last()) + pages.last()
    }
}

/// The total number of items the server returned across pages.
pub open spec fn pages_total_len(pages: Seq<Seq<AliyunFile>>) -> nat
    decreases pages.len(),
{
    if pages.len() == 0 {
        0nat
    } else {
        pages_total_len(pages.drop_last()) + pages.last().len()
    }
}

/// Folding one more page in extends the concatenation by exactly
/// that page's items, after everything delivered so far — which is
/// what [`ListAllSession::push_page`] does to its `files`.
pub proof fn lemma_pages_concat_step(pages: Seq<Seq<AliyunFile>>, page: Seq<AliyunFile>)
    ensures
        pages_concat(pages.push(page)) == pages_concat(pages) + page,
{
    assert(pages.push(page).drop_last() =~= pages);
    assert(pages.push(page).last() == page);
}

/// Concatenating pages in the order delivered yields exactly as many
/// items as the pages held together, and each page's items appear in
/// place: the full listing is the pages laid end to end.
pub proof fn lemma_pages_concat_len(pages: Seq<Seq<AliyunFile>>)
    ensures
        pages_concat(pages).len() == pages_total_len(pages),
    decreases pages.len(),
{
    if pages.len() > 0 {
        lemma_pages_concat_len(pages.drop_last());
    }
}

} // verus!
