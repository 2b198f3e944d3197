//! Single-article retrieval: resolving the requested title from its
//! percent-encoded path segment, and turning what the archive collaborator
//! reported into the response the request is owed.

use crate::store::ActiveDataset;
use vstd::prelude::*;

verus! {

/// What percent-decoding yields for a path segment, a function of its
/// characters alone; nothing where the decoded bytes are not valid UTF-8.
pub uninterp spec fn percent_decoded(s: Seq<char>) -> Option<Seq<char>>;

/// Relies on urlencoding::decode: percent escapes decoded to bytes and the
/// result re-read as UTF-8, failing exactly on invalid UTF-8.
#[verifier::external_body]
fn percent_decode(s: &str) -> (r: Option<String>)
    ensures
        (r is Some) == (percent_decoded(s@) is Some),
        r matches Some(t) ==> percent_decoded(s@) == Some(t@),
{
    match urlencoding::decode(s) {
        Ok(c) => Some(c.into_owned()),
        Err(_) => None,
    }
}

/// The title a request names: the percent-decoded form of its path
/// segment, or the raw segment where decoding fails.
pub open spec fn spec_requested_title(enc: Seq<char>) -> Seq<char> {
    match percent_decoded(enc) {
        Some(t) => t,
        None => enc,
    }
}

/// Resolve the requested title from the encoded path segment.
pub fn requested_title(enc: &String) -> (r: String)
    ensures
        r@ == spec_requested_title(enc@),
{
    match percent_decode(enc.as_str()) {
        Some(t) => t,
        None => enc.clone(),
    }
}

/// What the archive collaborator reported when an article was fetched.
pub enum FetchEvent {
    OpenFailed,
    EntryMissing,
    ContentUnreadable,
    Content { body: String },
}

/// The response an article request is owed.
pub enum ArticleOutcome {
    NoDatasetLoaded,
    NotFound,
    BodyUnreadable,
    ArchiveUnavailable,
    Body { content: String },
}

/// The first step of an article request: with no active dataset the
/// request is answered at once and the archive is never consulted;
/// otherwise the active archive is the one to fetch from.
pub enum ArticleStep {
    Respond { outcome: ArticleOutcome },
    Fetch { path: String },
}

/// Decide the first step from the active-dataset selection, read under its
/// own guard.
pub fn article_step(active: &ActiveDataset) -> (s: ArticleStep)
    ensures
        active@ is None ==> s == (ArticleStep::Respond {
            outcome: ArticleOutcome::NoDatasetLoaded,
        }),
        active@ matches Some(p) ==> s matches ArticleStep::Fetch { path } && path@ == p,
{
    match active.current() {
        None => ArticleStep::Respond { outcome: ArticleOutcome::NoDatasetLoaded },
        Some(p) => ArticleStep::Fetch { path: p },
    }
}

/// Turn what the collaborator reported into the response owed: a missing
/// entry and unreadable content are the client's "not found", a failure to
/// open the archive is the server's, and a read body is returned whole.
pub fn article_outcome(ev: FetchEvent) -> (r: ArticleOutcome)
    ensures
        ev == FetchEvent::OpenFailed ==> r == ArticleOutcome::ArchiveUnavailable,
        ev == FetchEvent::EntryMissing ==> r == ArticleOutcome::NotFound,
        ev == FetchEvent::ContentUnreadable ==> r == ArticleOutcome::BodyUnreadable,
        ev matches FetchEvent::Content { body } ==> r == (ArticleOutcome::Body { content: body }),
{
    match ev {
        FetchEvent::OpenFailed => ArticleOutcome::ArchiveUnavailable,
        FetchEvent::EntryMissing => ArticleOutcome::NotFound,
        FetchEvent::ContentUnreadable => ArticleOutcome::BodyUnreadable,
        FetchEvent::Content { body } => ArticleOutcome::Body { content: body },
    }
}

/// The HTTP status class of each outcome.
pub open spec fn spec_status_code(o: ArticleOutcome) -> int {
    match o {
        ArticleOutcome::NoDatasetLoaded => 400,
        ArticleOutcome::NotFound => 404,
        ArticleOutcome::BodyUnreadable => 404,
        ArticleOutcome::ArchiveUnavailable => 500,
        ArticleOutcome::Body { .. } => 200,
    }
}

/// The status code an outcome is reported with.
pub fn status_code(o: &ArticleOutcome) -> (c: u16)
    ensures
        c == spec_status_code(*o),
{
    match o {
        ArticleOutcome::NoDatasetLoaded => 400,
        ArticleOutcome::NotFound => 404,
        ArticleOutcome::BodyUnreadable => 404,
        ArticleOutcome::ArchiveUnavailable => 500,
        ArticleOutcome::Body { .. } => 200,
    }
}

/// An article request with no prior upload is a client error, never a
/// server error: with the dataset unset the first step responds at once,
/// and its status is in the client range.
pub proof fn lemma_no_dataset_is_client_error()
    ensures
        400 <= spec_status_code(ArticleOutcome::NoDatasetLoaded) < 500,
{
}

} // verus!
