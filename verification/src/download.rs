//! The download protocol's decisions: how each HTTP response advances a
//! download, and the bound on how many redirects are followed before the
//! download fails. The network call itself is the caller's collaborator;
//! it feeds each response into `download_step`.

use vstd::prelude::*;

use crate::chars::{append_chars, chars_to_string, dec_rep, str_to_chars, u64_to_dec_chars};

verus! {

/// How many redirects a download follows before giving up.
pub const MAX_REDIRECTS: u64 = 10;

/// One HTTP response, reduced to what the protocol reads: success, a
/// redirect with its `location` header, or a failure status with its
/// reason phrase.
#[derive(Debug, PartialEq, Eq)]
pub enum HttpOutcome {
    Success,
    Redirect { location: Option<String> },
    Failure { code: u16, reason: String },
}

/// Specification-level counterpart of `HttpOutcome`.
pub enum HttpOutcomeView {
    Success,
    Redirect(Option<Seq<char>>),
    Failure(u16, Seq<char>),
}

impl View for HttpOutcome {
    type V = HttpOutcomeView;

    open spec fn view(&self) -> HttpOutcomeView {
        match self {
            HttpOutcome::Success => HttpOutcomeView::Success,
            HttpOutcome::Redirect { location } => HttpOutcomeView::Redirect(
                match location {
                    Some(l) => Some(l@),
                    None => None,
                },
            ),
            HttpOutcome::Failure { code, reason } => HttpOutcomeView::Failure(*code, reason@),
        }
    }
}

impl DeepView for HttpOutcome {
    type V = HttpOutcomeView;

    open spec fn deep_view(&self) -> HttpOutcomeView {
        self@
    }
}

/// What the protocol does after one response.
#[derive(Debug, PartialEq, Eq)]
pub enum DownloadStep {
    /// The artifact is fetched.
    Done,
    /// Fetch again from the redirect target.
    Follow { url: String },
    /// The download failed for good.
    Fail { message: String },
}

/// Specification-level counterpart of `DownloadStep`.
pub enum DownloadStepView {
    Done,
    Follow(Seq<char>),
    Fail(Seq<char>),
}

impl View for DownloadStep {
    type V = DownloadStepView;

    open spec fn view(&self) -> DownloadStepView {
        match self {
            DownloadStep::Done => DownloadStepView::Done,
            DownloadStep::Follow { url } => DownloadStepView::Follow(url@),
            DownloadStep::Fail { message } => DownloadStepView::Fail(message@),
        }
    }
}

/// The message for a download that kept being redirected.
pub open spec fn spec_redirect_budget_message(url: Seq<char>) -> Seq<char> {
    "Failed to download "@ + url + " after "@ + dec_rep(MAX_REDIRECTS as nat) + " redirects"@
}

/// The message for a response with a failure status.
pub open spec fn spec_http_error_message(url: Seq<char>, code: u16, reason: Seq<char>) -> Seq<
    char,
> {
    "HTTP Error "@ + dec_rep(code as nat) + " downloading "@ + url + " ("@ + reason + ")"@
}

/// The message for a redirect that carried no `location` header.
pub open spec fn spec_no_location_message() -> Seq<char> {
    "No location in HTTP redirect"@
}

/// Builds the redirect-budget failure message.
pub fn redirect_budget_message(url: &str) -> (r: String)
    ensures
        r@ == spec_redirect_budget_message(url@),
{
    let mut out: Vec<char> = Vec::new();
    let a = str_to_chars("Failed to download ");
    append_chars(&mut out, &a);
    let u = str_to_chars(url);
    append_chars(&mut out, &u);
    let b = str_to_chars(" after ");
    append_chars(&mut out, &b);
    let n = u64_to_dec_chars(MAX_REDIRECTS);
    append_chars(&mut out, &n);
    let c = str_to_chars(" redirects");
    append_chars(&mut out, &c);
    chars_to_string(&out)
}

/// Builds the failure-status message.
pub fn http_error_message(url: &str, code: u16, reason: &str) -> (r: String)
    ensures
        r@ == spec_http_error_message(url@, code, reason@),
{
    let mut out: Vec<char> = Vec::new();
    let a = str_to_chars("HTTP Error ");
    append_chars(&mut out, &a);
    let n = u64_to_dec_chars(code as u64);
    append_chars(&mut out, &n);
    let b = str_to_chars(" downloading ");
    append_chars(&mut out, &b);
    let u = str_to_chars(url);
    append_chars(&mut out, &u);
    let c = str_to_chars(" (");
    append_chars(&mut out, &c);
    let rs = str_to_chars(reason);
    append_chars(&mut out, &rs);
    let d = str_to_chars(")");
    append_chars(&mut out, &d);
    chars_to_string(&out)
}

/// What the protocol does with the response to attempt number `attempt`
/// (the first request is attempt 1): success finishes, a failure status is
/// fatal with its message, a redirect without a location is fatal, and a
/// redirect on the last allowed attempt fails with the redirect-budget
/// message instead of being followed.
pub open spec fn spec_download_step(
    original_url: Seq<char>,
    attempt: nat,
    outcome: HttpOutcomeView,
) -> DownloadStepView {
    match outcome {
        HttpOutcomeView::Success => DownloadStepView::Done,
        HttpOutcomeView::Failure(code, reason) => DownloadStepView::Fail(
            spec_http_error_message(original_url, code, reason),
        ),
        HttpOutcomeView::Redirect(loc) => match loc {
            None => DownloadStepView::Fail(spec_no_location_message()),
            Some(l) => if attempt >= MAX_REDIRECTS {
                DownloadStepView::Fail(spec_redirect_budget_message(original_url))
            } else {
                DownloadStepView::Follow(l)
            },
        },
    }
}

/// Decides what to do after one response; `original_url` is the URL the
/// download was asked for (failure messages name it, not the redirect
/// target), and `attempt` counts requests made so far, starting at 1.
pub fn download_step(original_url: &str, attempt: u64, outcome: &HttpOutcome) -> (r: DownloadStep)
    ensures
        r@ == spec_download_step(original_url@, attempt as nat, outcome@),
{
    match outcome {
        HttpOutcome::Success => DownloadStep::Done,
        HttpOutcome::Failure { code, reason } => DownloadStep::Fail {
            message: http_error_message(original_url, *code, reason.as_str()),
        },
        HttpOutcome::Redirect { location } => match location {
            None => DownloadStep::Fail {
                message: chars_to_string(&str_to_chars("No location in HTTP redirect")),
            },
            Some(l) => if attempt >= MAX_REDIRECTS {
                DownloadStep::Fail { message: redirect_budget_message(original_url) }
            } else {
                DownloadStep::Follow { url: l.clone() }
            },
        },
    }
}

/// Where a whole download run ends.
#[derive(Debug, PartialEq, Eq)]
pub enum DownloadRun {
    /// The artifact was fetched.
    Done,
    /// The download failed with this message.
    Fail { message: String },
    /// The response list ended while the protocol still expected one.
    NoResponse,
}

/// Specification-level counterpart of `DownloadRun`.
pub enum DownloadRunView {
    Done,
    Fail(Seq<char>),
    NoResponse,
}

impl View for DownloadRun {
    type V = DownloadRunView;

    open spec fn view(&self) -> DownloadRunView {
        match self {
            DownloadRun::Done => DownloadRunView::Done,
            DownloadRun::Fail { message } => DownloadRunView::Fail(message@),
            DownloadRun::NoResponse => DownloadRunView::NoResponse,
        }
    }
}

/// Where a download ends when the responses arrive in this order, request
/// number `attempt` being answered by `outcomes[0]`.
pub open spec fn spec_download_run(
    original_url: Seq<char>,
    outcomes: Seq<HttpOutcomeView>,
    attempt: nat,
) -> DownloadRunView
    decreases outcomes.len(),
{
    if outcomes.len() == 0 {
        DownloadRunView::NoResponse
    } else {
        match spec_download_step(original_url, attempt, outcomes[0]) {
            DownloadStepView::Done => DownloadRunView::Done,
            DownloadStepView::Fail(m) => DownloadRunView::Fail(m),
            DownloadStepView::Follow(_) => spec_download_run(
                original_url,
                outcomes.drop_first(),
                attempt + 1,
            ),
        }
    }
}

/// Replays a download against a recorded list of responses.
pub fn run_download(original_url: &str, outcomes: &Vec<HttpOutcome>) -> (r: DownloadRun)
    ensures
        r@ == spec_download_run(original_url@, outcomes.deep_view(), 1),
{
    let ghost dv = outcomes.deep_view();
    let mut i: usize = 0;
    let mut attempt: u64 = 1;
    proof {
        assert(dv.skip(0) =~= dv);
    }
    while i < outcomes.len()
        invariant
            dv == outcomes.deep_view(),
            dv.len() == outcomes@.len(),
            0 <= i <= outcomes@.len(),
            attempt == i + 1,
            spec_download_run(original_url@, dv, 1) == spec_download_run(
                original_url@,
                dv.skip(i as int),
                attempt as nat,
            ),
        decreases outcomes@.len() - i,
    {
        proof {
            assert(dv.skip(i as int)[0] == dv[i as int]);
            assert(dv[i as int] == outcomes@[i as int]@);
            assert(dv.skip(i as int).drop_first() =~= dv.skip(i + 1));
        }
        match download_step(original_url, attempt, &outcomes[i]) {
            DownloadStep::Done => {
                return DownloadRun::Done;
            },
            DownloadStep::Fail { message } => {
                return DownloadRun::Fail { message };
            },
            DownloadStep::Follow { url: _ } => {},
        }
        i += 1;
        attempt += 1;
    }
    proof {
        assert(dv.skip(dv.len() as int) =~= Seq::<HttpOutcomeView>::empty());
    }
    DownloadRun::NoResponse
}

/// Redirect bound: a download whose every response is a redirect fails
/// with the redirect-budget message once the allowed attempts are spent —
/// it never follows redirects forever.
pub proof fn lemma_redirect_bound(
    original_url: Seq<char>,
    outcomes: Seq<HttpOutcomeView>,
    attempt: nat,
)
    requires
        1 <= attempt <= MAX_REDIRECTS,
        outcomes.len() >= MAX_REDIRECTS + 1 - attempt,
        forall|i: int|
            0 <= i < outcomes.len() ==> ((#[trigger] outcomes[i]) matches HttpOutcomeView::Redirect(
                loc,
            ) && loc is Some),
    ensures
        spec_download_run(original_url, outcomes, attempt) == DownloadRunView::Fail(
            spec_redirect_budget_message(original_url),
        ),
    decreases MAX_REDIRECTS - attempt,
{
    assert(outcomes[0] matches HttpOutcomeView::Redirect(loc) && loc is Some);
    if attempt >= MAX_REDIRECTS {
    } else {
        assert forall|i: int| 0 <= i < outcomes.drop_first().len() implies ((
        #[trigger] outcomes.drop_first()[i]) matches HttpOutcomeView::Redirect(loc)
            && loc is Some) by {
            assert(outcomes.drop_first()[i] == outcomes[i + 1]);
        }
        lemma_redirect_bound(original_url, outcomes.drop_first(), attempt + 1);
    }
}

} // verus!
