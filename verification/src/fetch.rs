//! The command `fetch`: it prints the credentials that the proxy sends, for the AWS SDK to read.
use crate::credentials;
use crate::exchange;
use crate::exchange::{OutcomeModel, Reply, ReplyModel, Request, RequestModel};
use vstd::prelude::*;
use vstd::string::*;

verus! {

/// What `fetch` is asked for.
pub struct Fetch {
    /// The path of the socket, as it is displayed.
    pub socket: String,
}

/// What `fetch` has asked for last.
#[derive(Clone, Copy, PartialEq, Eq, Structural)]
pub enum FetchStep {
    /// To connect to the proxy.
    Connecting,
    /// To read what it sends.
    Reading,
    /// To print that.
    Printing,
    /// To print a line feed behind it.
    Terminating,
    /// To end.
    Ended,
}

/// The message of the error with which serde_json's `from_slice` refuses to read bytes as a
/// `Value`; none where it reads them.
pub uninterp spec fn json_error(bytes: Seq<u8>) -> Option<Seq<char>>;

/// serde_json's `from_slice` for a `Value`, and the `Display` of its error.
///
/// Whether the bytes are JSON, and the message where they are not, are a function of the bytes.
/// No bytes are not JSON.
#[verifier::external_body]
fn check_json(bytes: &Vec<u8>) -> (error: Option<String>)
    ensures
        json_error(bytes@) == credentials::opt_view(error),
        bytes@.len() == 0 ==> error is Some,
{
    match serde_json::from_slice::<serde_json::Value>(bytes) {
        Ok(_) => None,
        Err(error) => Some(error.to_string()),
    }
}

/// The message where the proxy cannot be reached.
pub open spec fn unreachable_message(job: Fetch, error: Seq<char>) -> Seq<char> {
    "cannot connect to "@ + job.socket@ + ": "@ + error
        + "\nIs `aws-nix-cache serve` running?"@
}

/// What becomes of bytes that were read, by the error that they give as JSON.
pub open spec fn judged(bytes: Seq<u8>, error: Option<Seq<char>>) -> (FetchStep, RequestModel) {
    match error {
        None => (FetchStep::Printing, RequestModel::PrintBytes(bytes)),
        Some(error) => (
            FetchStep::Ended,
            exchange::failure("invalid response from server: "@ + error),
        ),
    }
}

/// What `fetch` asks for first.
pub open spec fn begin() -> (FetchStep, RequestModel) {
    (FetchStep::Connecting, RequestModel::Connect)
}

/// What `fetch` asks for after a reply.
pub open spec fn next(job: Fetch, step: FetchStep, reply: ReplyModel) -> (FetchStep, RequestModel) {
    match (step, reply) {
        (FetchStep::Connecting, ReplyModel::Done) => (FetchStep::Reading, RequestModel::ReadAll),
        (FetchStep::Connecting, ReplyModel::Failed(error)) => (
            FetchStep::Ended,
            exchange::failure(unreachable_message(job, error)),
        ),
        (FetchStep::Reading, ReplyModel::Bytes(bytes)) => judged(bytes, json_error(bytes)),
        (FetchStep::Printing, ReplyModel::Done) => (
            FetchStep::Terminating,
            RequestModel::Print("\n"@),
        ),
        (FetchStep::Terminating, ReplyModel::Done) => (FetchStep::Ended, exchange::success()),
        _ => (FetchStep::Ended, exchange::stop(reply)),
    }
}

/// Where `fetch` stands after these replies.
pub open spec fn after(job: Fetch, replies: Seq<ReplyModel>) -> (FetchStep, RequestModel)
    decreases replies.len(),
{
    if replies.len() == 0 {
        begin()
    } else {
        next(job, after(job, replies.drop_last()).0, replies.last())
    }
}

/// What becomes of bytes that were read, by the error that they give as JSON: they are printed
/// where there is none.
pub fn judge(bytes: Vec<u8>, error: Option<String>) -> (then: (FetchStep, Request))
    ensures
        (then.0, then.1@) == judged(bytes@, credentials::opt_view(error)),
{
    match error {
        None => (FetchStep::Printing, Request::PrintBytes(bytes)),
        Some(error) => (
            FetchStep::Ended,
            exchange::fail("invalid response from server: ".to_owned().concat(error.as_str())),
        ),
    }
}

impl Fetch {
    /// What to ask for first.
    pub fn start(&self) -> (first: (FetchStep, Request))
        ensures
            (first.0, first.1@) == begin(),
    {
        (FetchStep::Connecting, Request::Connect)
    }

    /// What to ask for after the reply to what `step` asked for. A proxy that sends nothing, as one
    /// does that turns the client away, is a failure.
    pub fn resume(&self, step: FetchStep, reply: Reply) -> (then: (FetchStep, Request))
        ensures
            (then.0, then.1@) == next(*self, step, reply@),
            step == FetchStep::Reading && reply@ == ReplyModel::Bytes(Seq::empty())
                ==> then.1@ matches RequestModel::Finish(OutcomeModel::Failure(_)),
    {
        match (step, reply) {
            (FetchStep::Connecting, Reply::Done) => (FetchStep::Reading, Request::ReadAll),
            (FetchStep::Connecting, Reply::Failed(error)) => {
                let message = "cannot connect to ".to_owned().concat(self.socket.as_str()).concat(
                    ": ",
                ).concat(error.as_str()).concat("\nIs `aws-nix-cache serve` running?");
                (FetchStep::Ended, exchange::fail(message))
            },
            (FetchStep::Reading, Reply::Bytes(bytes)) => {
                let error = check_json(&bytes);
                judge(bytes, error)
            },
            (FetchStep::Printing, Reply::Done) => (
                FetchStep::Terminating,
                Request::Print("\n".to_owned()),
            ),
            (FetchStep::Terminating, Reply::Done) => (FetchStep::Ended, exchange::succeed()),
            (_, reply) => (FetchStep::Ended, exchange::give_up(reply)),
        }
    }
}

/// What is printed is what the proxy sent, byte for byte, and it is JSON.
pub proof fn law_what_is_printed(job: Fetch, replies: Seq<ReplyModel>, bytes: Seq<u8>)
    requires
        after(job, replies).1 == RequestModel::PrintBytes(bytes),
    ensures
        replies.len() == 2,
        replies[0] == ReplyModel::Done,
        replies[1] == ReplyModel::Bytes(bytes),
        json_error(bytes) is None,
{
    lemma_places(job, replies);
}

/// How many replies bring `fetch` to a step.
proof fn lemma_places(job: Fetch, replies: Seq<ReplyModel>)
    ensures
        ({
            let (step, request) = after(job, replies);
            &&& step == FetchStep::Connecting ==> replies.len() == 0
            &&& step == FetchStep::Reading ==> replies.len() == 1 && replies[0] == ReplyModel::Done
            &&& step == FetchStep::Printing ==> replies.len() == 2 && replies[0]
                == ReplyModel::Done && (replies[1] matches ReplyModel::Bytes(bytes) && json_error(
                bytes,
            ) is None && request == RequestModel::PrintBytes(bytes))
            &&& step == FetchStep::Terminating ==> replies.len() == 3
            &&& request is PrintBytes ==> step == FetchStep::Printing
        }),
    decreases replies.len(),
{
    if replies.len() > 0 {
        let less = replies.drop_last();
        lemma_places(job, less);
        assert(replies.len() > 1 ==> replies[0] == less[0]);
    }
}

/// A response that is JSON is printed, a line feed follows it, and the command succeeds.
pub proof fn law_json_is_printed(job: Fetch, bytes: Seq<u8>)
    requires
        json_error(bytes) is None,
    ensures
        ({
            let read = seq![ReplyModel::Done, ReplyModel::Bytes(bytes)];
            &&& after(job, read).1 == RequestModel::PrintBytes(bytes)
            &&& after(job, read.push(ReplyModel::Done)).1 == RequestModel::Print("\n"@)
            &&& after(job, read.push(ReplyModel::Done).push(ReplyModel::Done)).1
                == exchange::success()
        }),
{
    let connected = seq![ReplyModel::Done];
    let read = seq![ReplyModel::Done, ReplyModel::Bytes(bytes)];
    let printed = read.push(ReplyModel::Done);
    assert(connected.drop_last() == Seq::<ReplyModel>::empty());
    assert(after(job, Seq::empty()) == begin());
    assert(after(job, connected).0 == FetchStep::Reading);
    assert(read.drop_last() == connected);
    assert(after(job, read).0 == FetchStep::Printing);
    assert(printed.drop_last() == read);
    assert(printed.push(ReplyModel::Done).drop_last() == printed);
}

/// A response that is not JSON is not printed: the command fails, with the reason.
pub proof fn law_other_responses_fail(job: Fetch, bytes: Seq<u8>, error: Seq<char>)
    requires
        json_error(bytes) == Some(error),
    ensures
        after(job, seq![ReplyModel::Done, ReplyModel::Bytes(bytes)]).1 == exchange::failure(
            "invalid response from server: "@ + error,
        ),
{
    let connected = seq![ReplyModel::Done];
    assert(connected.drop_last() == Seq::<ReplyModel>::empty());
    assert(after(job, Seq::empty()) == begin());
    assert(after(job, connected).0 == FetchStep::Reading);
    assert(seq![ReplyModel::Done, ReplyModel::Bytes(bytes)].drop_last() == connected);
}

/// How far a step is from the start, at the most.
spec fn rank(step: FetchStep) -> nat {
    match step {
        FetchStep::Connecting => 0,
        FetchStep::Reading => 1,
        FetchStep::Printing => 2,
        FetchStep::Terminating => 3,
        FetchStep::Ended => 0,
    }
}

/// No step is reached later than its rank says.
proof fn lemma_ranks(job: Fetch, replies: Seq<ReplyModel>)
    ensures
        after(job, replies).0 != FetchStep::Ended ==> replies.len() <= rank(
            after(job, replies).0,
        ),
    decreases replies.len(),
{
    if replies.len() > 0 {
        lemma_ranks(job, replies.drop_last());
    }
}

/// Every run of `fetch` ends, after no more than 4 replies. No reply about what was asked for
/// puts it out of step.
pub proof fn law_runs_end(job: Fetch, replies: Seq<ReplyModel>, reply: ReplyModel)
    ensures
        replies.len() > 3 ==> after(job, replies).0 == FetchStep::Ended,
        exchange::answers(after(job, replies).1, reply) ==> after(job, replies.push(reply)).1
            != RequestModel::Finish(OutcomeModel::OutOfStep),
{
    lemma_ranks(job, replies);
    assert(replies.push(reply).drop_last() == replies);
}

/// The proxy is connected to, and then read from to the end. Where it cannot be reached, the
/// command fails, names the socket and the reason, and asks whether the proxy is running.
pub proof fn law_proxy_is_read(job: Fetch, error: Seq<char>)
    ensures
        after(job, Seq::empty()).1 == RequestModel::Connect,
        after(job, seq![ReplyModel::Done]).1 == RequestModel::ReadAll,
        after(job, seq![ReplyModel::Failed(error)]).1 == RequestModel::Finish(
            OutcomeModel::Failure(
                "cannot connect to "@ + job.socket@ + ": "@ + error
                    + "\nIs `aws-nix-cache serve` running?"@,
            ),
        ),
{
    assert(seq![ReplyModel::Done].drop_last() == Seq::<ReplyModel>::empty());
    assert(seq![ReplyModel::Failed(error)].drop_last() == Seq::<ReplyModel>::empty());
    assert(after(job, Seq::empty()) == begin());
}

/// Bytes are printed as they are exactly where they give no error as JSON; otherwise the command
/// fails, with that error.
pub proof fn law_judged(bytes: Seq<u8>, error: Seq<char>)
    ensures
        judged(bytes, None).1 == RequestModel::PrintBytes(bytes),
        judged(bytes, Some(error)).1 == RequestModel::Finish(
            OutcomeModel::Failure("invalid response from server: "@ + error),
        ),
{
}

/// What was read is printed, with a line feed behind it, and the command ends well, exactly where
/// it is JSON.
pub proof fn law_response_is_printed_if_it_is_json(
    job: Fetch,
    replies: Seq<ReplyModel>,
    bytes: Seq<u8>,
)
    requires
        after(job, replies).1 == RequestModel::ReadAll,
    ensures
        ({
            let read = replies.push(ReplyModel::Bytes(bytes));
            let printed = read.push(ReplyModel::Done);
            &&& json_error(bytes) is None ==> {
                &&& after(job, read).1 == RequestModel::PrintBytes(bytes)
                &&& after(job, printed).1 == RequestModel::Print("\n"@)
                &&& after(job, printed.push(ReplyModel::Done)).1 == RequestModel::Finish(
                    OutcomeModel::Success,
                )
            }
            &&& json_error(bytes) matches Some(error) ==> after(job, read).1
                == RequestModel::Finish(
                OutcomeModel::Failure("invalid response from server: "@ + error),
            )
        }),
{
    let read = replies.push(ReplyModel::Bytes(bytes));
    let printed = read.push(ReplyModel::Done);
    assert(read.drop_last() == replies);
    assert(json_error(bytes) is None ==> after(job, read).0 == FetchStep::Printing);
    assert(printed.drop_last() == read);
    assert(json_error(bytes) is None ==> after(job, printed).0 == FetchStep::Terminating);
    assert(printed.push(ReplyModel::Done).drop_last() == printed);
}

/// Whatever fails, once the proxy is connected to, ends the command with the message of what
/// failed; and a reply to something that was not asked ends it too.
pub proof fn law_failures_end_the_command(
    job: Fetch,
    replies: Seq<ReplyModel>,
    reply: ReplyModel,
    message: Seq<char>,
)
    requires
        !(after(job, replies).1 is Finish),
    ensures
        !(after(job, replies).1 is Connect) ==> after(
            job,
            replies.push(ReplyModel::Failed(message)),
        ).1 == RequestModel::Finish(OutcomeModel::Failure(message)),
        !exchange::answers(after(job, replies).1, reply) && !(reply is Failed) ==> after(
            job,
            replies.push(reply),
        ).1 == RequestModel::Finish(OutcomeModel::OutOfStep),
{
    assert(replies.push(ReplyModel::Failed(message)).drop_last() == replies);
    assert(replies.push(reply).drop_last() == replies);
}

/// A run of `fetch` is its first step, and one more step for each reply.
pub proof fn law_run(job: Fetch, replies: Seq<ReplyModel>, reply: ReplyModel)
    ensures
        after(job, Seq::empty()) == begin(),
        after(job, replies.push(reply)) == next(job, after(job, replies).0, reply),
{
    assert(replies.push(reply).drop_last() == replies);
}

} // verus!
