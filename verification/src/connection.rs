//! One client of the proxy: it is sent the credentials of the moment.
use crate::credentials;
use crate::exchange;
use crate::exchange::{OutcomeModel, Reply, ReplyModel, Request, RequestModel};
use crate::expiry;
use vstd::prelude::*;
use vstd::string::*;

verus! {

/// What a connection has asked for last.
#[derive(Clone, Copy, PartialEq, Eq, Structural)]
pub enum ConnectionStep {
    /// Whether a provider is configured.
    Seeking,
    /// To have credentials.
    Fetching,
    /// To send the response.
    Responding,
    /// To shut the connection down.
    Closing,
    /// To end.
    Ended,
}

/// What a connection asks for first.
pub open spec fn begin() -> (ConnectionStep, RequestModel) {
    (ConnectionStep::Seeking, RequestModel::FindProvider)
}

/// What a connection asks for after a reply.
pub open spec fn next(step: ConnectionStep, reply: ReplyModel) -> (ConnectionStep, RequestModel) {
    match (step, reply) {
        (ConnectionStep::Seeking, ReplyModel::Answer(found)) => if found {
            (ConnectionStep::Fetching, RequestModel::FetchCredentials)
        } else {
            (ConnectionStep::Ended, exchange::failure("no credentials provider configured"@))
        },
        (ConnectionStep::Fetching, ReplyModel::Credentials(c)) => (
            ConnectionStep::Responding,
            RequestModel::Respond(credentials::response(c)),
        ),
        (ConnectionStep::Fetching, ReplyModel::Failed(error)) => (
            ConnectionStep::Ended,
            exchange::failure("credential error: "@ + error),
        ),
        (ConnectionStep::Responding, ReplyModel::Done) => (
            ConnectionStep::Closing,
            RequestModel::Shutdown,
        ),
        (ConnectionStep::Closing, ReplyModel::Done) => (
            ConnectionStep::Ended,
            exchange::success(),
        ),
        _ => (ConnectionStep::Ended, exchange::stop(reply)),
    }
}

/// Where a connection stands after these replies.
pub open spec fn after(replies: Seq<ReplyModel>) -> (ConnectionStep, RequestModel)
    decreases replies.len(),
{
    if replies.len() == 0 {
        begin()
    } else {
        next(after(replies.drop_last()).0, replies.last())
    }
}

/// What to ask for first.
pub fn start() -> (first: (ConnectionStep, Request))
    ensures
        (first.0, first.1@) == begin(),
{
    (ConnectionStep::Seeking, Request::FindProvider)
}

/// What to ask for after the reply to what `step` asked for.
pub fn resume(step: ConnectionStep, reply: Reply) -> (then: (ConnectionStep, Request))
    ensures
        (then.0, then.1@) == next(step, reply@),
{
    match (step, reply) {
        (ConnectionStep::Seeking, Reply::Answer(found)) => {
            if found {
                (ConnectionStep::Fetching, Request::FetchCredentials)
            } else {
                (
                    ConnectionStep::Ended,
                    exchange::fail("no credentials provider configured".to_owned()),
                )
            }
        },
        (ConnectionStep::Fetching, Reply::Credentials(c)) => (
            ConnectionStep::Responding,
            Request::Respond(credentials::credential_response(c)),
        ),
        (ConnectionStep::Fetching, Reply::Failed(error)) => (
            ConnectionStep::Ended,
            exchange::fail("credential error: ".to_owned().concat(error.as_str())),
        ),
        (ConnectionStep::Responding, Reply::Done) => (ConnectionStep::Closing, Request::Shutdown),
        (ConnectionStep::Closing, Reply::Done) => (ConnectionStep::Ended, exchange::succeed()),
        (_, reply) => (ConnectionStep::Ended, exchange::give_up(reply)),
    }
}

/// Nothing is sent to a client but the credentials that the provider has just given for it.
pub proof fn law_what_is_sent(replies: Seq<ReplyModel>, sent: credentials::ResponseModel)
    requires
        after(replies).1 == RequestModel::Respond(sent),
    ensures
        replies.len() > 0,
        after(replies.drop_last()).1 == RequestModel::FetchCredentials,
        replies.last() matches ReplyModel::Credentials(c) && sent == credentials::response(c),
{
}

/// A client whose connection ends well was sent the credentials, and nothing after them.
pub proof fn law_success_means_sent(replies: Seq<ReplyModel>)
    requires
        after(replies).1 == exchange::success(),
    ensures
        replies.len() == 4,
        replies[0] == ReplyModel::Answer(true),
        replies[1] matches ReplyModel::Credentials(c) && after(replies.take(2)).1
            == RequestModel::Respond(credentials::response(c)),
        replies[2] == ReplyModel::Done,
        replies[3] == ReplyModel::Done,
{
    lemma_places(replies.drop_last());
    let sent = replies.drop_last().drop_last();
    lemma_places(sent);
    assert(sent == replies.take(2));
    assert(replies[1] == sent.last());
}

/// How many replies bring a connection to a step.
proof fn lemma_places(replies: Seq<ReplyModel>)
    ensures
        ({
            let step = after(replies).0;
            &&& step == ConnectionStep::Seeking ==> replies.len() == 0
            &&& step == ConnectionStep::Fetching ==> replies.len() == 1 && replies[0]
                == ReplyModel::Answer(true)
            &&& step == ConnectionStep::Responding ==> replies.len() == 2 && replies[0]
                == ReplyModel::Answer(true) && (replies[1] matches ReplyModel::Credentials(c)
                && after(replies).1 == RequestModel::Respond(credentials::response(c)))
            &&& step == ConnectionStep::Closing ==> replies.len() == 3 && replies[0]
                == ReplyModel::Answer(true) && replies[2] == ReplyModel::Done && after(
                replies.drop_last(),
            ).0 == ConnectionStep::Responding
        }),
    decreases replies.len(),
{
    if replies.len() > 0 {
        let less = replies.drop_last();
        lemma_places(less);
        assert(replies.len() > 1 ==> replies[0] == less[0]);
    }
}

/// How far a step is from the start, at the most.
spec fn rank(step: ConnectionStep) -> nat {
    match step {
        ConnectionStep::Seeking => 0,
        ConnectionStep::Fetching => 1,
        ConnectionStep::Responding => 2,
        ConnectionStep::Closing => 3,
        ConnectionStep::Ended => 0,
    }
}

/// No step is reached later than its rank says.
proof fn lemma_ranks(replies: Seq<ReplyModel>)
    ensures
        after(replies).0 != ConnectionStep::Ended ==> replies.len() <= rank(
            after(replies).0,
        ),
    decreases replies.len(),
{
    if replies.len() > 0 {
        lemma_ranks(replies.drop_last());
    }
}

/// Every connection ends, after no more than 4 replies. No reply about what was asked for
/// puts it out of step.
pub proof fn law_runs_end(replies: Seq<ReplyModel>, reply: ReplyModel)
    ensures
        replies.len() > 3 ==> after(replies).0 == ConnectionStep::Ended,
        exchange::answers(after(replies).1, reply) ==> after(replies.push(reply)).1
            != RequestModel::Finish(OutcomeModel::OutOfStep),
{
    lemma_ranks(replies);
    assert(replies.push(reply).drop_last() == replies);
}

/// Credentials are fetched for each client anew, where a provider is configured; where none is, the
/// connection fails and says so.
pub proof fn law_provider_is_asked(replies: Seq<ReplyModel>)
    ensures
        after(Seq::empty()).1 == RequestModel::FindProvider,
        after(replies).1 == RequestModel::FindProvider ==> {
            &&& after(replies.push(ReplyModel::Answer(true))).1 == RequestModel::FetchCredentials
            &&& after(replies.push(ReplyModel::Answer(false))).1 == RequestModel::Finish(
                OutcomeModel::Failure("no credentials provider configured"@),
            )
        },
{
    assert(replies.push(ReplyModel::Answer(true)).drop_last() == replies);
    assert(replies.push(ReplyModel::Answer(false)).drop_last() == replies);
}

/// What the provider gives is sent to the client part by part: the keys and the session token as
/// they are, and the text of the expiry exactly where there is one. Then the connection is shut
/// down, and ends well.
pub proof fn law_client_is_sent_the_credentials(
    replies: Seq<ReplyModel>,
    c: credentials::CredentialsModel,
)
    requires
        after(replies).1 == RequestModel::FetchCredentials,
    ensures
        ({
            let given = replies.push(ReplyModel::Credentials(c));
            let sent = given.push(ReplyModel::Done);
            &&& after(given).1 matches RequestModel::Respond(r) && {
                &&& r.version == 1
                &&& r.access_key_id == c.access_key_id
                &&& r.secret_access_key == c.secret_access_key
                &&& r.session_token == c.session_token
                &&& r.expiration is None <==> c.expiry is None
                &&& c.expiry matches Some(moment) ==> r.expiration == Some(
                    expiry::expiry_text(moment),
                )
            }
            &&& after(sent).1 == RequestModel::Shutdown
            &&& after(sent.push(ReplyModel::Done)).1 == RequestModel::Finish(OutcomeModel::Success)
        }),
{
    let given = replies.push(ReplyModel::Credentials(c));
    let sent = given.push(ReplyModel::Done);
    assert(given.drop_last() == replies);
    assert(after(given).0 == ConnectionStep::Responding);
    assert(sent.drop_last() == given);
    assert(after(sent).0 == ConnectionStep::Closing);
    assert(sent.push(ReplyModel::Done).drop_last() == sent);
}

/// Whatever fails ends the connection with the message of what failed, and credentials that could
/// not be had are named as the reason; a reply to something that was not asked ends it too.
pub proof fn law_failures_end_the_connection(
    replies: Seq<ReplyModel>,
    reply: ReplyModel,
    message: Seq<char>,
)
    requires
        !(after(replies).1 is Finish),
    ensures
        after(replies.push(ReplyModel::Failed(message))).1 == RequestModel::Finish(
            OutcomeModel::Failure(
                if after(replies).1 is FetchCredentials {
                    "credential error: "@ + message
                } else {
                    message
                },
            ),
        ),
        !exchange::answers(after(replies).1, reply) && !(reply is Failed) ==> after(
            replies.push(reply),
        ).1 == RequestModel::Finish(OutcomeModel::OutOfStep),
{
    assert(replies.push(ReplyModel::Failed(message)).drop_last() == replies);
    assert(replies.push(reply).drop_last() == replies);
}

/// A connection is its first step, and one more step for each reply.
pub proof fn law_run(replies: Seq<ReplyModel>, reply: ReplyModel)
    ensures
        after(Seq::empty()) == begin(),
        after(replies.push(reply)) == next(after(replies).0, reply),
{
    assert(replies.push(reply).drop_last() == replies);
}

} // verus!
