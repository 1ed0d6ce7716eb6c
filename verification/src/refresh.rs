//! The credentials file that the daemon reads, and how it is kept up to date.
use crate::credentials;
use crate::exchange;
use crate::exchange::{Place, Reply, ReplyModel, Request, RequestModel};
use vstd::prelude::*;
use vstd::string::*;

verus! {

/// The profile under which credentials are written where no other is asked for.
pub const DEFAULT_PROFILE: &'static str = "nix-cache";

/// The seconds between two updates of the file where no others are asked for.
pub const DEFAULT_INTERVAL: u64 = 300;

/// What the file is to hold, and how often it is to be written.
pub struct Refresh {
    /// The name of the profile in the file.
    pub profile: String,
    /// The seconds between two updates.
    pub interval: u64,
}

/// What the updating of the file has asked for last.
#[derive(Clone, Copy, PartialEq, Eq, Structural)]
pub enum RefreshStep {
    /// Whether a provider is configured.
    Seeking,
    /// To have credentials.
    Fetching,
    /// To write them to a file of their own.
    Staging,
    /// To let that file take the place of the old one.
    Swapping,
    /// To wait for the next update.
    Resting,
    /// To end.
    Ended,
}

/// What is asked for first, and at the start of each update.
pub open spec fn begin() -> (RefreshStep, RequestModel) {
    (RefreshStep::Seeking, RequestModel::FindProvider)
}

/// What is asked for after an update, or one that failed.
pub open spec fn rest(job: Refresh) -> (RefreshStep, RequestModel) {
    (RefreshStep::Resting, RequestModel::Sleep(job.interval))
}

/// What is asked for after a reply.
pub open spec fn next(job: Refresh, step: RefreshStep, reply: ReplyModel) -> (
    RefreshStep,
    RequestModel,
) {
    match (step, reply) {
        (RefreshStep::Seeking, ReplyModel::Answer(found)) => if found {
            (RefreshStep::Fetching, RequestModel::FetchCredentials)
        } else {
            rest(job)
        },
        (RefreshStep::Fetching, ReplyModel::Credentials(c)) => (
            RefreshStep::Staging,
            RequestModel::WriteWithMode(
                Place::StagedCredentials,
                0o600,
                credentials::file_text(job.profile@, c),
            ),
        ),
        (RefreshStep::Fetching, ReplyModel::Failed(_)) => rest(job),
        (RefreshStep::Staging, ReplyModel::Done) => (
            RefreshStep::Swapping,
            RequestModel::Rename(Place::StagedCredentials, Place::CredentialsFile),
        ),
        (RefreshStep::Staging, ReplyModel::Failed(_)) => rest(job),
        (RefreshStep::Swapping, ReplyModel::Done) => rest(job),
        (RefreshStep::Swapping, ReplyModel::Failed(_)) => rest(job),
        (RefreshStep::Resting, ReplyModel::Done) => begin(),
        _ => (RefreshStep::Ended, exchange::stop(reply)),
    }
}

/// Where the updating stands after these replies.
pub open spec fn after(job: Refresh, replies: Seq<ReplyModel>) -> (RefreshStep, RequestModel)
    decreases replies.len(),
{
    if replies.len() == 0 {
        begin()
    } else {
        next(job, after(job, replies.drop_last()).0, replies.last())
    }
}

impl Refresh {
    /// What to ask for first, and at the start of each update.
    pub fn start(&self) -> (first: (RefreshStep, Request))
        ensures
            (first.0, first.1@) == begin(),
    {
        (RefreshStep::Seeking, Request::FindProvider)
    }

    /// Waits for the next update.
    fn wait(&self) -> (then: (RefreshStep, Request))
        ensures
            (then.0, then.1@) == rest(*self),
    {
        (RefreshStep::Resting, Request::Sleep(self.interval))
    }

    /// What to ask for after the reply to what `step` asked for.
    pub fn resume(&self, step: RefreshStep, reply: Reply) -> (then: (RefreshStep, Request))
        ensures
            (then.0, then.1@) == next(*self, step, reply@),
    {
        match (step, reply) {
            (RefreshStep::Seeking, Reply::Answer(found)) => {
                if found {
                    (RefreshStep::Fetching, Request::FetchCredentials)
                } else {
                    self.wait()
                }
            },
            (RefreshStep::Fetching, Reply::Credentials(c)) => {
                let file = credentials::credentials_file(self.profile.as_str(), &c);
                (
                    RefreshStep::Staging,
                    Request::WriteWithMode(Place::StagedCredentials, 0o600, file),
                )
            },
            (RefreshStep::Fetching, Reply::Failed(_)) => self.wait(),
            (RefreshStep::Staging, Reply::Done) => (
                RefreshStep::Swapping,
                Request::Rename(Place::StagedCredentials, Place::CredentialsFile),
            ),
            (RefreshStep::Staging, Reply::Failed(_)) => self.wait(),
            (RefreshStep::Swapping, Reply::Done) => self.wait(),
            (RefreshStep::Swapping, Reply::Failed(_)) => self.wait(),
            (RefreshStep::Resting, Reply::Done) => self.start(),
            (_, reply) => (RefreshStep::Ended, exchange::give_up(reply)),
        }
    }
}

/// The credentials file changes in one way only, and at once: a file that holds the credentials of
/// the moment, complete, and that nobody but its owner can read, takes its place.
pub proof fn law_file_changes_at_once(job: Refresh, replies: Seq<ReplyModel>)
    ensures
        ({
            let request = after(job, replies).1;
            &&& exchange::changes_files(request) ==> request is WriteWithMode || request is Rename
            &&& request matches RequestModel::WriteWithMode(place, mode, _) ==> place
                == Place::StagedCredentials && mode == 0o600
            &&& request matches RequestModel::Rename(from, to) ==> {
                let n = replies.len();
                &&& from == Place::StagedCredentials
                &&& to == Place::CredentialsFile
                &&& n >= 2
                &&& replies[n - 1] == ReplyModel::Done
                &&& replies[n - 2] matches ReplyModel::Credentials(c) && after(
                    job,
                    replies.drop_last(),
                ).1 == RequestModel::WriteWithMode(
                    Place::StagedCredentials,
                    0o600,
                    credentials::file_text(job.profile@, c),
                )
            }
        }),
{
    if replies.len() > 0 && replies.drop_last().len() > 0 {
        let less = replies.drop_last();
        assert(less.last() == replies[replies.len() - 2]);
    }
}

/// An update that nothing stops puts the credentials of the moment into the file.
pub proof fn law_updates_reach_the_file(
    job: Refresh,
    replies: Seq<ReplyModel>,
    c: credentials::CredentialsModel,
)
    requires
        after(job, replies).1 is FindProvider,
    ensures
        ({
            let given = replies.push(ReplyModel::Answer(true)).push(ReplyModel::Credentials(c));
            &&& after(job, given).1 == RequestModel::WriteWithMode(
                Place::StagedCredentials,
                0o600,
                credentials::file_text(job.profile@, c),
            )
            &&& after(job, given.push(ReplyModel::Done)).1 == RequestModel::Rename(
                Place::StagedCredentials,
                Place::CredentialsFile,
            )
            &&& after(job, given.push(ReplyModel::Done).push(ReplyModel::Done)) == rest(job)
        }),
{
    let found = replies.push(ReplyModel::Answer(true));
    let given = found.push(ReplyModel::Credentials(c));
    let staged = given.push(ReplyModel::Done);
    assert(found.drop_last() == replies);
    assert(after(job, found).0 == RefreshStep::Fetching);
    assert(given.drop_last() == found);
    assert(after(job, given).0 == RefreshStep::Staging);
    assert(staged.drop_last() == given);
    assert(after(job, staged).0 == RefreshStep::Swapping);
    assert(staged.push(ReplyModel::Done).drop_last() == staged);
}

/// Whether a reply says that an update cannot go on: no provider is configured, or what was asked
/// for has failed.
pub open spec fn fails(request: RequestModel, reply: ReplyModel) -> bool {
    match request {
        RequestModel::FindProvider => reply == ReplyModel::Answer(false),
        RequestModel::FetchCredentials => reply is Failed,
        RequestModel::WriteWithMode(_, _, _) => reply is Failed,
        RequestModel::Rename(_, _) => reply is Failed,
        _ => false,
    }
}

/// Where an update fails, or no provider of credentials is configured, the file stays as it is, and
/// the next update is tried at its time.
pub proof fn law_failed_updates_are_tried_again(
    job: Refresh,
    replies: Seq<ReplyModel>,
    reply: ReplyModel,
)
    requires
        fails(after(job, replies).1, reply),
    ensures
        ({
            let failed = replies.push(reply);
            &&& after(job, failed).1 == RequestModel::Sleep(job.interval)
            &&& after(job, failed.push(ReplyModel::Done)) == begin()
        }),
{
    let failed = replies.push(reply);
    assert(failed.drop_last() == replies);
    assert(failed.push(ReplyModel::Done).drop_last() == failed);
}

/// Each update starts as many seconds after the last one ended as were asked for.
pub proof fn law_updates_keep_their_distance(job: Refresh, replies: Seq<ReplyModel>, secs: u64)
    requires
        after(job, replies).1 == RequestModel::Sleep(secs),
    ensures
        secs == job.interval,
        after(job, replies.push(ReplyModel::Done)) == begin(),
{
    assert(replies.push(ReplyModel::Done).drop_last() == replies);
}

/// The updating never ends, as long as each reply is about what was asked for.
pub proof fn law_updates_never_end(job: Refresh, replies: Seq<ReplyModel>, reply: ReplyModel)
    requires
        exchange::answers(after(job, replies).1, reply),
    ensures
        !(after(job, replies.push(reply)).1 is Finish),
{
    assert(replies.push(reply).drop_last() == replies);
}

/// An update begins with the provider. What it gives is written, under the profile asked for, to a
/// file that nobody but its owner can read, with the keys as they are and the session token exactly
/// where there is one. That file takes the place of the old one, and the next update follows after
/// the seconds asked for.
pub proof fn law_round(job: Refresh, replies: Seq<ReplyModel>, c: credentials::CredentialsModel)
    requires
        after(job, replies).1 == RequestModel::FindProvider,
    ensures
        ({
            let found = replies.push(ReplyModel::Answer(true));
            let given = found.push(ReplyModel::Credentials(c));
            let staged = given.push(ReplyModel::Done);
            let swapped = staged.push(ReplyModel::Done);
            let token = match c.session_token {
                Some(token) => "aws_session_token = "@ + token + "\n"@,
                None => ""@,
            };
            &&& after(job, found).1 == RequestModel::FetchCredentials
            &&& after(job, given).1 == RequestModel::WriteWithMode(
                Place::StagedCredentials,
                0o600,
                "["@ + job.profile@ + "]\naws_access_key_id = "@ + c.access_key_id
                    + "\naws_secret_access_key = "@ + c.secret_access_key + "\n"@ + token,
            )
            &&& after(job, staged).1 == RequestModel::Rename(
                Place::StagedCredentials,
                Place::CredentialsFile,
            )
            &&& after(job, swapped).1 == RequestModel::Sleep(job.interval)
            &&& after(job, swapped.push(ReplyModel::Done)).1 == RequestModel::FindProvider
        }),
{
    let found = replies.push(ReplyModel::Answer(true));
    let given = found.push(ReplyModel::Credentials(c));
    let staged = given.push(ReplyModel::Done);
    let swapped = staged.push(ReplyModel::Done);
    let keys = "["@ + job.profile@ + "]\naws_access_key_id = "@ + c.access_key_id
        + "\naws_secret_access_key = "@ + c.secret_access_key + "\n"@;
    credentials::law_file_holds_the_credentials(job.profile@, c);
    reveal_strlit("");
    assert(keys + ""@ == keys);
    if let Some(token) = c.session_token {
        assert(keys + "aws_session_token = "@ + token + "\n"@ == keys + ("aws_session_token = "@
            + token + "\n"@));
    }
    assert(found.drop_last() == replies);
    assert(after(job, found).0 == RefreshStep::Fetching);
    assert(given.drop_last() == found);
    assert(after(job, given).0 == RefreshStep::Staging);
    assert(staged.drop_last() == given);
    assert(after(job, staged).0 == RefreshStep::Swapping);
    assert(swapped.drop_last() == staged);
    assert(after(job, swapped).0 == RefreshStep::Resting);
    assert(swapped.push(ReplyModel::Done).drop_last() == swapped);
}

/// The first thing asked for is the provider. Where none is configured, or credentials cannot be
/// had, written or put in place, the next update follows after the seconds asked for.
pub proof fn law_nothing_stops_the_updates(
    job: Refresh,
    replies: Seq<ReplyModel>,
    error: Seq<char>,
)
    ensures
        after(job, Seq::empty()).1 == RequestModel::FindProvider,
        after(job, replies).1 is FindProvider ==> after(
            job,
            replies.push(ReplyModel::Answer(false)),
        ).1 == RequestModel::Sleep(job.interval),
        after(job, replies).1 is FetchCredentials || after(job, replies).1 is WriteWithMode
            || after(job, replies).1 is Rename ==> after(
            job,
            replies.push(ReplyModel::Failed(error)),
        ).1 == RequestModel::Sleep(job.interval),
        after(job, replies).1 is Sleep ==> after(job, replies.push(ReplyModel::Done)).1
            == RequestModel::FindProvider,
{
    assert(replies.push(ReplyModel::Answer(false)).drop_last() == replies);
    assert(replies.push(ReplyModel::Failed(error)).drop_last() == replies);
    assert(replies.push(ReplyModel::Done).drop_last() == replies);
}

/// A reply to something that was not asked ends the updating.
pub proof fn law_out_of_step(job: Refresh, replies: Seq<ReplyModel>, reply: ReplyModel)
    requires
        !(after(job, replies).1 is Finish),
        !exchange::answers(after(job, replies).1, reply),
    ensures
        after(job, replies.push(reply)).1 is Finish,
{
    assert(replies.push(reply).drop_last() == replies);
}

/// A run of the updating is its first step, and one more step for each reply.
pub proof fn law_run(job: Refresh, replies: Seq<ReplyModel>, reply: ReplyModel)
    ensures
        after(job, Seq::empty()) == begin(),
        after(job, replies.push(reply)) == next(job, after(job, replies).0, reply),
{
    assert(replies.push(reply).drop_last() == replies);
}

} // verus!
