//! The command `check`: it says whom the AWS API takes the user for.
use crate::credentials;
use crate::exchange;
use crate::exchange::{
    Identity, IdentityModel, OutcomeModel, Reply, ReplyModel, Request, RequestModel,
};
use crate::expiry;
use crate::expiry::Moment;
use crate::text;
use vstd::prelude::*;
use vstd::string::*;

verus! {

/// What `check` is asked for.
pub struct Check {
    /// The AWS profile to check, where one is named.
    pub aws_profile: Option<String>,
}

/// What `check` has asked for last.
#[derive(Clone, Copy, PartialEq, Eq, Structural)]
pub enum CheckStep {
    /// To load the AWS configuration.
    Loading,
    /// Who the caller is.
    Asking,
    /// To say who it is.
    Reporting,
    /// Whether a provider is configured.
    Seeking,
    /// To have credentials.
    Fetching,
    /// To say when they expire.
    Dating,
    /// To end.
    Ended,
}

/// A name, or a word for one that is not known.
pub open spec fn known(name: Option<Seq<char>>) -> Seq<char> {
    match name {
        Some(name) => name,
        None => "unknown"@,
    }
}

/// What is said of the caller.
pub open spec fn report(identity: IdentityModel) -> Seq<char> {
    "AWS credentials valid:\n  Account: "@ + known(identity.account) + "\n  Arn:     "@ + known(
        identity.arn,
    ) + "\n  UserId:  "@ + known(identity.user_id) + "\n"@
}

/// What is said of the expiry of the credentials.
pub open spec fn expiry_line(moment: Moment) -> Seq<char> {
    "  Expires: "@ + expiry::expiry_text(moment) + "\n"@
}

/// What `check` asks for first.
pub open spec fn begin(job: Check) -> (CheckStep, RequestModel) {
    (CheckStep::Loading, RequestModel::LoadConfig(credentials::opt_view(job.aws_profile)))
}

/// What `check` asks for after a reply.
pub open spec fn next(step: CheckStep, reply: ReplyModel) -> (CheckStep, RequestModel) {
    match (step, reply) {
        (CheckStep::Loading, ReplyModel::Done) => (CheckStep::Asking, RequestModel::GetIdentity),
        (CheckStep::Asking, ReplyModel::Identity(identity)) => (
            CheckStep::Reporting,
            RequestModel::Print(report(identity)),
        ),
        (CheckStep::Asking, ReplyModel::Failed(error)) => (
            CheckStep::Ended,
            exchange::failure("failed to validate AWS credentials: "@ + error),
        ),
        (CheckStep::Reporting, ReplyModel::Done) => (CheckStep::Seeking, RequestModel::FindProvider),
        (CheckStep::Seeking, ReplyModel::Answer(found)) => if found {
            (CheckStep::Fetching, RequestModel::FetchCredentials)
        } else {
            (CheckStep::Ended, exchange::success())
        },
        (CheckStep::Fetching, ReplyModel::Credentials(c)) => match c.expiry {
            Some(moment) => (CheckStep::Dating, RequestModel::Print(expiry_line(moment))),
            None => (CheckStep::Ended, exchange::success()),
        },
        // The identity is what matters: that it has no expiry to show is no failure.
        (CheckStep::Fetching, ReplyModel::Failed(_)) => (CheckStep::Ended, exchange::success()),
        (CheckStep::Dating, ReplyModel::Done) => (CheckStep::Ended, exchange::success()),
        _ => (CheckStep::Ended, exchange::stop(reply)),
    }
}

/// Where `check` stands after these replies.
pub open spec fn after(job: Check, replies: Seq<ReplyModel>) -> (CheckStep, RequestModel)
    decreases replies.len(),
{
    if replies.len() == 0 {
        begin(job)
    } else {
        next(after(job, replies.drop_last()).0, replies.last())
    }
}

/// A name, or a word for one that is not known.
fn known_or(name: Option<String>) -> (s: String)
    ensures
        s@ == known(credentials::opt_view(name)),
{
    match name {
        Some(name) => name,
        None => "unknown".to_owned(),
    }
}

/// What is said of the caller.
pub fn identity_report(identity: Identity) -> (s: String)
    ensures
        s@ == report(identity@),
{
    "AWS credentials valid:\n  Account: ".to_owned().concat(
        known_or(identity.account).as_str(),
    ).concat("\n  Arn:     ").concat(known_or(identity.arn).as_str()).concat(
        "\n  UserId:  ",
    ).concat(known_or(identity.user_id).as_str()).concat("\n")
}

impl Check {
    /// What to ask for first.
    pub fn start(&self) -> (first: (CheckStep, Request))
        ensures
            (first.0, first.1@) == begin(*self),
    {
        (CheckStep::Loading, exchange::load_config(&self.aws_profile))
    }

    /// What to ask for after the reply to what `step` asked for.
    pub fn resume(&self, step: CheckStep, reply: Reply) -> (then: (CheckStep, Request))
        ensures
            (then.0, then.1@) == next(step, reply@),
    {
        match (step, reply) {
            (CheckStep::Loading, Reply::Done) => (CheckStep::Asking, Request::GetIdentity),
            (CheckStep::Asking, Reply::Identity(identity)) => (
                CheckStep::Reporting,
                Request::Print(identity_report(identity)),
            ),
            (CheckStep::Asking, Reply::Failed(error)) => (
                CheckStep::Ended,
                exchange::fail(
                    "failed to validate AWS credentials: ".to_owned().concat(error.as_str()),
                ),
            ),
            (CheckStep::Reporting, Reply::Done) => (CheckStep::Seeking, Request::FindProvider),
            (CheckStep::Seeking, Reply::Answer(found)) => {
                if found {
                    (CheckStep::Fetching, Request::FetchCredentials)
                } else {
                    (CheckStep::Ended, exchange::succeed())
                }
            },
            (CheckStep::Fetching, Reply::Credentials(c)) => {
                match c.expiry {
                    Some(moment) => {
                        let line = "  Expires: ".to_owned().concat(
                            expiry::format_expiry(moment).as_str(),
                        ).concat("\n");
                        (CheckStep::Dating, Request::Print(line))
                    },
                    None => (CheckStep::Ended, exchange::succeed()),
                }
            },
            (CheckStep::Fetching, Reply::Failed(_)) => (CheckStep::Ended, exchange::succeed()),
            (CheckStep::Dating, Reply::Done) => (CheckStep::Ended, exchange::succeed()),
            (_, reply) => (CheckStep::Ended, exchange::give_up(reply)),
        }
    }
}

/// The profile that is checked is the one asked for: its configuration is loaded first, and no
/// other one later.
pub proof fn law_profile_is_the_one_asked_for(
    job: Check,
    replies: Seq<ReplyModel>,
    profile: Option<Seq<char>>,
)
    ensures
        after(job, Seq::empty()).1 == RequestModel::LoadConfig(
            credentials::opt_view(job.aws_profile),
        ),
        after(job, replies).1 == RequestModel::LoadConfig(profile) ==> replies.len() == 0,
        after(job, replies).1 == RequestModel::GetIdentity ==> replies == seq![ReplyModel::Done],
{
    if replies.len() > 0 {
        lemma_identified(job, replies.drop_last());
        if after(job, replies).1 == RequestModel::GetIdentity {
            assert(replies == replies.drop_last().push(ReplyModel::Done));
        }
    }
}

/// The command fails where the AWS API does not name the caller, and says why.
pub proof fn law_unidentified_means_failure(
    job: Check,
    replies: Seq<ReplyModel>,
    error: Seq<char>,
)
    requires
        after(job, replies).1 == RequestModel::GetIdentity,
    ensures
        after(job, replies.push(ReplyModel::Failed(error))).1 == exchange::failure(
            "failed to validate AWS credentials: "@ + error,
        ),
{
    assert(replies.push(ReplyModel::Failed(error)).drop_last() == replies);
}

/// The command succeeds only where the AWS API has named the caller, and it has said whom.
pub proof fn law_success_means_identified(job: Check, replies: Seq<ReplyModel>)
    requires
        after(job, replies).1 == exchange::success(),
    ensures
        replies.len() >= 4,
        after(job, replies.take(1)).1 == RequestModel::GetIdentity,
        replies[1] matches ReplyModel::Identity(identity) && after(job, replies.take(2)).1
            == RequestModel::Print(report(identity)),
{
    lemma_identified(job, replies.drop_last());
    let less = replies.drop_last();
    assert(replies[1] == less[1]);
    assert(replies.take(1) == less.take(1));
    assert(replies.take(2) == less.take(2));
}

/// Whether the caller was asked for, named and reported in the course of these replies.
spec fn named(job: Check, replies: Seq<ReplyModel>) -> bool {
    &&& replies.len() >= 2
    &&& after(job, replies.take(1)).1 == RequestModel::GetIdentity
    &&& replies[1] matches ReplyModel::Identity(identity) && after(job, replies.take(2)).1
        == RequestModel::Print(report(identity))
}

/// Every step behind the question has the caller's identity to start from.
proof fn lemma_identified(job: Check, replies: Seq<ReplyModel>)
    ensures
        ({
            let (step, request) = after(job, replies);
            &&& step == CheckStep::Loading ==> replies.len() == 0
            &&& step == CheckStep::Asking ==> replies.len() == 1 && request
                == RequestModel::GetIdentity
            &&& step == CheckStep::Reporting ==> named(job, replies)
            &&& step == CheckStep::Seeking || step == CheckStep::Fetching || step
                == CheckStep::Dating ==> named(job, replies) && replies.len() >= 3
        }),
    decreases replies.len(),
{
    if replies.len() > 0 {
        let less = replies.drop_last();
        lemma_identified(job, less);
        if less.len() >= 2 {
            assert(replies[1] == less[1]);
            assert(replies.take(1) == less.take(1));
            assert(replies.take(2) == less.take(2));
        } else if less.len() == 1 {
            assert(replies.take(1) == less);
            assert(replies.take(2) == replies);
        }
    }
}

/// Once the caller is named, the command fails no more, whatever is found of an expiry.
pub proof fn law_expiry_is_optional(job: Check, replies: Seq<ReplyModel>, found: ReplyModel)
    requires
        after(job, replies).1 == RequestModel::FetchCredentials,
        found is Credentials || found is Failed,
    ensures
        ({
            let then = after(job, replies.push(found)).1;
            ||| then == exchange::success()
            ||| then is Print && after(job, replies.push(found).push(ReplyModel::Done)).1
                == exchange::success()
        }),
{
    let more = replies.push(found);
    assert(more.drop_last() == replies);
    assert(more.push(ReplyModel::Done).drop_last() == more);
}

/// How far a step is from the start, at the most.
spec fn rank(step: CheckStep) -> nat {
    match step {
        CheckStep::Loading => 0,
        CheckStep::Asking => 1,
        CheckStep::Reporting => 2,
        CheckStep::Seeking => 3,
        CheckStep::Fetching => 4,
        CheckStep::Dating => 5,
        CheckStep::Ended => 0,
    }
}

/// No step is reached later than its rank says.
proof fn lemma_ranks(job: Check, replies: Seq<ReplyModel>)
    ensures
        after(job, replies).0 != CheckStep::Ended ==> replies.len() <= rank(
            after(job, replies).0,
        ),
    decreases replies.len(),
{
    if replies.len() > 0 {
        lemma_ranks(job, replies.drop_last());
    }
}

/// Every run of `check` ends, after no more than 6 replies. No reply about what was asked for
/// puts it out of step.
pub proof fn law_runs_end(job: Check, replies: Seq<ReplyModel>, reply: ReplyModel)
    ensures
        replies.len() > 5 ==> after(job, replies).0 == CheckStep::Ended,
        exchange::answers(after(job, replies).1, reply) ==> after(job, replies.push(reply)).1
            != RequestModel::Finish(OutcomeModel::OutOfStep),
{
    lemma_ranks(job, replies);
    assert(replies.push(reply).drop_last() == replies);
}

/// The configuration of the profile asked for is loaded, and then the AWS API is asked who the
/// caller is.
pub proof fn law_profile_asked_for_is_checked(job: Check)
    ensures
        after(job, Seq::empty()).1 == RequestModel::LoadConfig(
            match job.aws_profile {
                Some(name) => Some(name@),
                None => None,
            },
        ),
        after(job, seq![ReplyModel::Done]).1 == RequestModel::GetIdentity,
{
    assert(seq![ReplyModel::Done].drop_last() == Seq::<ReplyModel>::empty());
    assert(after(job, Seq::empty()) == begin(job));
}

/// A name that is known, or the word for one that is not.
proof fn lemma_known(name: Option<Seq<char>>)
    requires
        name matches Some(name) ==> text::one_line(name),
    ensures
        name matches Some(name) ==> known(Some(name)) == name,
        name is None ==> known(name) == "unknown"@,
        text::one_line(known(name)),
{
    reveal_strlit("unknown");
}

/// What is said of the caller has four lines: that the credentials are valid, and the account, the
/// ARN and the user id that the API gave, each one behind its name. Only a part that the API did
/// not give is said to be unknown.
pub proof fn law_report_names_the_caller(
    job: Check,
    replies: Seq<ReplyModel>,
    identity: IdentityModel,
)
    requires
        after(job, replies).1 == RequestModel::GetIdentity,
        identity.account matches Some(name) ==> text::one_line(name),
        identity.arn matches Some(name) ==> text::one_line(name),
        identity.user_id matches Some(name) ==> text::one_line(name),
    ensures
        after(job, replies.push(ReplyModel::Identity(identity))).1 matches RequestModel::Print(said)
            && {
            let account = match identity.account {
                Some(name) => name,
                None => "unknown"@,
            };
            let arn = match identity.arn {
                Some(name) => name,
                None => "unknown"@,
            };
            let user_id = match identity.user_id {
                Some(name) => name,
                None => "unknown"@,
            };
            text::lines(said) == seq![
                "AWS credentials valid:\n"@,
                ("  Account: "@ + account).push('\n'),
                ("  Arn:     "@ + arn).push('\n'),
                ("  UserId:  "@ + user_id).push('\n'),
            ]
        },
{
    assert(replies.push(ReplyModel::Identity(identity)).drop_last() == replies);
    lemma_report_lines(identity);
}

/// The lines of what is said of a caller.
proof fn lemma_report_lines(identity: IdentityModel)
    requires
        identity.account matches Some(name) ==> text::one_line(name),
        identity.arn matches Some(name) ==> text::one_line(name),
        identity.user_id matches Some(name) ==> text::one_line(name),
    ensures
        text::lines(report(identity)) == seq![
            "AWS credentials valid:\n"@,
            ("  Account: "@ + known(identity.account)).push('\n'),
            ("  Arn:     "@ + known(identity.arn)).push('\n'),
            ("  UserId:  "@ + known(identity.user_id)).push('\n'),
        ],
{
    let a = "AWS credentials valid:\n"@;
    let b = ("  Account: "@ + known(identity.account)).push('\n');
    let c = ("  Arn:     "@ + known(identity.arn)).push('\n');
    let d = ("  UserId:  "@ + known(identity.user_id)).push('\n');
    lemma_report_parts(identity);
    assert(text::single(a)) by {
        reveal_strlit("AWS credentials valid:\n");
    }
    assert(text::whole(a)) by {
        reveal_strlit("AWS credentials valid:\n");
    }
    assert(text::single(b)) by {
        reveal_strlit("  Account: ");
        lemma_known(identity.account);
        lemma_label("  Account: "@, known(identity.account));
    }
    assert(text::single(c)) by {
        reveal_strlit("  Arn:     ");
        lemma_known(identity.arn);
        lemma_label("  Arn:     "@, known(identity.arn));
    }
    assert(text::single(d)) by {
        reveal_strlit("  UserId:  ");
        lemma_known(identity.user_id);
        lemma_label("  UserId:  "@, known(identity.user_id));
    }
    text::lemma_lines_one(a);
    text::lemma_lines_one(b);
    text::lemma_lines_one(c);
    text::lemma_lines_one(d);
    text::lemma_lines_add(a, b);
    assert((a + b).last() == '\n');
    text::lemma_lines_add(a + b, c);
    assert((a + b + c).last() == '\n');
    text::lemma_lines_add(a + b + c, d);
    assert(seq![a] + seq![b] + seq![c] + seq![d] == seq![a, b, c, d]);
}

/// A name behind its label is one line.
proof fn lemma_label(label: Seq<char>, name: Seq<char>)
    requires
        text::one_line(label),
        text::one_line(name),
    ensures
        text::single((label + name).push('\n')),
{
    assert((label + name).push('\n').drop_last() == label + name);
}

/// What is said of a caller, cut at its line feeds.
proof fn lemma_report_parts(identity: IdentityModel)
    ensures
        report(identity) == "AWS credentials valid:\n"@ + ("  Account: "@ + known(
            identity.account,
        )).push('\n') + ("  Arn:     "@ + known(identity.arn)).push('\n') + ("  UserId:  "@ + known(
            identity.user_id,
        )).push('\n'),
{
    reveal_strlit("AWS credentials valid:\n  Account: ");
    reveal_strlit("AWS credentials valid:\n");
    reveal_strlit("  Account: ");
    reveal_strlit("\n  Arn:     ");
    reveal_strlit("  Arn:     ");
    reveal_strlit("\n  UserId:  ");
    reveal_strlit("  UserId:  ");
    reveal_strlit("\n");
    let (x, y, z) = (known(identity.account), known(identity.arn), known(identity.user_id));
    let a = "AWS credentials valid:\n"@ + ("  Account: "@ + x).push('\n');
    assert("AWS credentials valid:\n  Account: "@ == "AWS credentials valid:\n"@ + "  Account: "@);
    assert("\n  Arn:     "@ == seq!['\n'] + "  Arn:     "@);
    assert("\n  UserId:  "@ == seq!['\n'] + "  UserId:  "@);
    assert("\n"@ == seq!['\n']);
    assert("AWS credentials valid:\n  Account: "@ + x + "\n  Arn:     "@ == a + "  Arn:     "@);
    let b = a + ("  Arn:     "@ + y).push('\n');
    assert(a + "  Arn:     "@ + y + "\n  UserId:  "@ == b + "  UserId:  "@);
    assert(b + "  UserId:  "@ + z + "\n"@ == b + ("  UserId:  "@ + z).push('\n'));
}

/// What is said of the caller, whatever the API gave: a part that it gave is said as it is.
pub proof fn law_report_text(
    job: Check,
    replies: Seq<ReplyModel>,
    identity: IdentityModel,
)
    requires
        after(job, replies).1 == RequestModel::GetIdentity,
    ensures
        ({
            let account = match identity.account {
                Some(name) => name,
                None => "unknown"@,
            };
            let arn = match identity.arn {
                Some(name) => name,
                None => "unknown"@,
            };
            let user_id = match identity.user_id {
                Some(name) => name,
                None => "unknown"@,
            };
            after(job, replies.push(ReplyModel::Identity(identity))).1 == RequestModel::Print(
                "AWS credentials valid:\n  Account: "@ + account + "\n  Arn:     "@ + arn
                    + "\n  UserId:  "@ + user_id + "\n"@,
            )
        }),
{
    assert(replies.push(ReplyModel::Identity(identity)).drop_last() == replies);
}

/// What is said tells callers apart: where the same is said of two, each part that the API gave of
/// both is the same.
pub proof fn law_reports_tell_callers_apart(one: IdentityModel, other: IdentityModel)
    requires
        one.account matches Some(name) ==> text::one_line(name),
        one.arn matches Some(name) ==> text::one_line(name),
        one.user_id matches Some(name) ==> text::one_line(name),
        other.account matches Some(name) ==> text::one_line(name),
        other.arn matches Some(name) ==> text::one_line(name),
        other.user_id matches Some(name) ==> text::one_line(name),
        report(one) == report(other),
    ensures
        one.account is Some && other.account is Some ==> one.account == other.account,
        one.arn is Some && other.arn is Some ==> one.arn == other.arn,
        one.user_id is Some && other.user_id is Some ==> one.user_id == other.user_id,
{
    lemma_report_lines(one);
    lemma_report_lines(other);
    let (x, y) = (text::lines(report(one)), text::lines(report(other)));
    lemma_behind("  Account: "@, known(one.account), known(other.account), x[1], y[1]);
    lemma_behind("  Arn:     "@, known(one.arn), known(other.arn), x[2], y[2]);
    lemma_behind("  UserId:  "@, known(one.user_id), known(other.user_id), x[3], y[3]);
}

/// Two lines with the same beginning are the same only where they go on in the same way.
proof fn lemma_behind(label: Seq<char>, a: Seq<char>, b: Seq<char>, x: Seq<char>, y: Seq<char>)
    requires
        x == (label + a).push('\n'),
        y == (label + b).push('\n'),
        x == y,
    ensures
        a == b,
{
    let n = label.len() as int;
    assert(a == x.subrange(n, x.len() - 1));
    assert(b == y.subrange(n, y.len() - 1));
}

/// Once the caller is named, the expiry of the credentials is said where a provider gives
/// credentials that have one. Where it does not, the command is over; it succeeds in every case.
pub proof fn law_expiry_is_said_where_there_is_one(
    job: Check,
    replies: Seq<ReplyModel>,
    c: credentials::CredentialsModel,
    error: Seq<char>,
)
    requires
        after(job, replies).1 is Print,
        replies.last() is Identity,
    ensures
        ({
            let said = replies.push(ReplyModel::Done);
            let found = said.push(ReplyModel::Answer(true));
            let given = found.push(ReplyModel::Credentials(c));
            let success = RequestModel::Finish(OutcomeModel::Success);
            &&& after(job, said).1 == RequestModel::FindProvider
            &&& after(job, said.push(ReplyModel::Answer(false))).1 == success
            &&& after(job, found).1 == RequestModel::FetchCredentials
            &&& after(job, found.push(ReplyModel::Failed(error))).1 == success
            &&& c.expiry is None ==> after(job, given).1 == success
            &&& c.expiry matches Some(moment) ==> after(job, given).1 == RequestModel::Print(
                "  Expires: "@ + expiry::expiry_text(moment) + "\n"@,
            ) && after(job, given.push(ReplyModel::Done)).1 == success
        }),
{
    let said = replies.push(ReplyModel::Done);
    let found = said.push(ReplyModel::Answer(true));
    let given = found.push(ReplyModel::Credentials(c));
    assert(said.drop_last() == replies);
    assert(after(job, said).0 == CheckStep::Seeking);
    assert(said.push(ReplyModel::Answer(false)).drop_last() == said);
    assert(found.drop_last() == said);
    assert(after(job, found).0 == CheckStep::Fetching);
    assert(found.push(ReplyModel::Failed(error)).drop_last() == found);
    assert(given.drop_last() == found);
    assert(c.expiry is Some ==> after(job, given).0 == CheckStep::Dating);
    assert(given.push(ReplyModel::Done).drop_last() == given);
}

/// Whatever fails ends the command with the message of what failed, apart from credentials that
/// could not be had for their expiry; what the AWS API refuses is said to be the validation. A
/// reply to something that was not asked ends the command too.
pub proof fn law_failures_end_the_command(
    job: Check,
    replies: Seq<ReplyModel>,
    reply: ReplyModel,
    message: Seq<char>,
)
    requires
        !(after(job, replies).1 is Finish),
    ensures
        !(after(job, replies).1 is FetchCredentials) ==> after(
            job,
            replies.push(ReplyModel::Failed(message)),
        ).1 == RequestModel::Finish(
            OutcomeModel::Failure(
                if after(job, replies).1 is GetIdentity {
                    "failed to validate AWS credentials: "@ + message
                } else {
                    message
                },
            ),
        ),
        !exchange::answers(after(job, replies).1, reply) && !(reply is Failed) ==> after(
            job,
            replies.push(reply),
        ).1 == RequestModel::Finish(OutcomeModel::OutOfStep),
{
    assert(replies.push(ReplyModel::Failed(message)).drop_last() == replies);
    assert(replies.push(reply).drop_last() == replies);
}

/// A run of `check` is its first step, and one more step for each reply.
pub proof fn law_run(job: Check, replies: Seq<ReplyModel>, reply: ReplyModel)
    ensures
        after(job, Seq::empty()) == begin(job),
        after(job, replies.push(reply)) == next(after(job, replies).0, reply),
{
    assert(replies.push(reply).drop_last() == replies);
}

} // verus!
