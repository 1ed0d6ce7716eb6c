//! The command `serve`: it prepares the socket, and lets in those who may have the credentials.
use crate::credentials;
use crate::exchange;
use crate::exchange::{OutcomeModel, Place, Reply, ReplyModel, Request, RequestModel};
use vstd::prelude::*;

verus! {

/// What `serve` is asked for.
pub struct Serve {
    /// Whether the path of the socket has a parent.
    pub has_parent: bool,
    /// The user's AWS profile, where one is named.
    pub aws_profile: Option<String>,
}

/// What `serve` has asked for last.
#[derive(Clone, Copy, PartialEq, Eq, Structural)]
pub enum ServeStep {
    /// To create the directory of the socket.
    MakingDir,
    /// To close the directory to others.
    ClosingDir,
    /// Whether a socket is there from an earlier run.
    SeekingStale,
    /// To remove it.
    RemovingStale,
    /// To bind the socket.
    Binding,
    /// To close the socket to all but its owner and their group.
    ClosingSocket,
    /// To load the user's AWS configuration.
    Loading,
    /// To try whether credentials can be had.
    Probing,
    /// To answer clients.
    Listening,
    /// To remove the socket at the end.
    Cleaning,
    /// To end.
    Ended,
}

/// The request for the AWS configuration that `serve` reads credentials by.
pub open spec fn config(job: Serve) -> RequestModel {
    RequestModel::LoadConfig(credentials::opt_view(job.aws_profile))
}

/// What `serve` asks for first.
pub open spec fn begin(job: Serve) -> (ServeStep, RequestModel) {
    if job.has_parent {
        (ServeStep::MakingDir, RequestModel::CreateDirs(Place::SocketDir))
    } else {
        (ServeStep::SeekingStale, RequestModel::Exists(Place::Socket))
    }
}

/// What `serve` asks for after a reply.
pub open spec fn next(job: Serve, step: ServeStep, reply: ReplyModel) -> (ServeStep, RequestModel) {
    match (step, reply) {
        (ServeStep::MakingDir, ReplyModel::Done) => (
            ServeStep::ClosingDir,
            RequestModel::SetMode(Place::SocketDir, 0o700),
        ),
        (ServeStep::ClosingDir, ReplyModel::Done) => (
            ServeStep::SeekingStale,
            RequestModel::Exists(Place::Socket),
        ),
        (ServeStep::SeekingStale, ReplyModel::Answer(there)) => if there {
            (ServeStep::RemovingStale, RequestModel::Remove(Place::Socket))
        } else {
            (ServeStep::Binding, RequestModel::Bind)
        },
        (ServeStep::RemovingStale, ReplyModel::Done) => (ServeStep::Binding, RequestModel::Bind),
        (ServeStep::Binding, ReplyModel::Done) => (
            ServeStep::ClosingSocket,
            RequestModel::SetMode(Place::Socket, 0o660),
        ),
        (ServeStep::ClosingSocket, ReplyModel::Done) => (
            ServeStep::Loading,
            config(job),
        ),
        (ServeStep::Loading, ReplyModel::Done) => (ServeStep::Probing, RequestModel::Probe),
        // Credentials that cannot be had now may be had when a client asks.
        (ServeStep::Probing, _) => (ServeStep::Listening, RequestModel::Listen),
        (ServeStep::Listening, ReplyModel::Interrupted) => (
            ServeStep::Cleaning,
            RequestModel::Remove(Place::Socket),
        ),
        // A socket that cannot be removed is removed at the next start.
        (ServeStep::Cleaning, _) => (ServeStep::Ended, exchange::success()),
        _ => (ServeStep::Ended, exchange::stop(reply)),
    }
}

/// Where `serve` stands after these replies.
pub open spec fn after(job: Serve, replies: Seq<ReplyModel>) -> (ServeStep, RequestModel)
    decreases replies.len(),
{
    if replies.len() == 0 {
        begin(job)
    } else {
        next(job, after(job, replies.drop_last()).0, replies.last())
    }
}

impl Serve {
    /// What to ask for first.
    pub fn start(&self) -> (first: (ServeStep, Request))
        ensures
            (first.0, first.1@) == begin(*self),
    {
        if self.has_parent {
            (ServeStep::MakingDir, Request::CreateDirs(Place::SocketDir))
        } else {
            (ServeStep::SeekingStale, Request::Exists(Place::Socket))
        }
    }

    /// What to ask for after the reply to what `step` asked for.
    pub fn resume(&self, step: ServeStep, reply: Reply) -> (then: (ServeStep, Request))
        ensures
            (then.0, then.1@) == next(*self, step, reply@),
    {
        match (step, reply) {
            (ServeStep::MakingDir, Reply::Done) => (
                ServeStep::ClosingDir,
                Request::SetMode(Place::SocketDir, 0o700),
            ),
            (ServeStep::ClosingDir, Reply::Done) => (
                ServeStep::SeekingStale,
                Request::Exists(Place::Socket),
            ),
            (ServeStep::SeekingStale, Reply::Answer(there)) => {
                if there {
                    (ServeStep::RemovingStale, Request::Remove(Place::Socket))
                } else {
                    (ServeStep::Binding, Request::Bind)
                }
            },
            (ServeStep::RemovingStale, Reply::Done) => (ServeStep::Binding, Request::Bind),
            (ServeStep::Binding, Reply::Done) => (
                ServeStep::ClosingSocket,
                Request::SetMode(Place::Socket, 0o660),
            ),
            (ServeStep::ClosingSocket, Reply::Done) => (
                ServeStep::Loading,
                exchange::load_config(&self.aws_profile),
            ),
            (ServeStep::Loading, Reply::Done) => (ServeStep::Probing, Request::Probe),
            (ServeStep::Probing, _) => (ServeStep::Listening, Request::Listen),
            (ServeStep::Listening, Reply::Interrupted) => (
                ServeStep::Cleaning,
                Request::Remove(Place::Socket),
            ),
            (ServeStep::Cleaning, _) => (ServeStep::Ended, exchange::succeed()),
            (_, reply) => (ServeStep::Ended, exchange::give_up(reply)),
        }
    }
}

/// Whether `request` was made and done in the course of these replies.
pub open spec fn done(job: Serve, replies: Seq<ReplyModel>, request: RequestModel) -> bool {
    exists|k: int|
        0 <= k < replies.len() && replies[k] == ReplyModel::Done && (#[trigger] after(
            job,
            replies.take(k),
        )).1 == request
}

/// What was done before a step is done before the next one.
proof fn lemma_done_still(job: Serve, replies: Seq<ReplyModel>, request: RequestModel)
    requires
        replies.len() > 0,
        done(job, replies.drop_last(), request) || (replies.last() == ReplyModel::Done && after(
            job,
            replies.drop_last(),
        ).1 == request),
    ensures
        done(job, replies, request),
{
    let less = replies.drop_last();
    if done(job, less, request) {
        let k = choose|k: int|
            0 <= k < less.len() && less[k] == ReplyModel::Done && (#[trigger] after(
                job,
                less.take(k),
            )).1 == request;
        assert(replies.take(k) == less.take(k));
        assert(replies[k] == ReplyModel::Done);
        assert(after(job, replies.take(k)).1 == request);
    } else {
        assert(replies.take(replies.len() - 1) == less);
        assert(after(job, replies.take(replies.len() - 1)).1 == request);
    }
}

/// Which of the preparations are made when `serve` is at a step.
proof fn lemma_done(job: Serve, replies: Seq<ReplyModel>)
    ensures
        ({
            let (step, request) = after(job, replies);
            let dir = RequestModel::SetMode(Place::SocketDir, 0o700);
            let bind = RequestModel::Bind;
            let socket = RequestModel::SetMode(Place::Socket, 0o660);
            let dir_done = job.has_parent ==> done(job, replies, dir);
            &&& step == ServeStep::MakingDir ==> job.has_parent
            &&& step == ServeStep::ClosingDir ==> request == dir
            &&& step == ServeStep::SeekingStale ==> dir_done
            &&& step == ServeStep::RemovingStale ==> dir_done
            &&& step == ServeStep::Binding ==> dir_done && request == bind
            &&& step == ServeStep::ClosingSocket ==> dir_done && done(job, replies, bind) && request
                == socket
            &&& step == ServeStep::Loading || step == ServeStep::Probing || step
                == ServeStep::Listening ==> dir_done && done(job, replies, bind) && done(
                job,
                replies,
                socket,
            )
            &&& step == ServeStep::Loading ==> request == config(job)
            &&& step == ServeStep::Probing || step == ServeStep::Listening ==> done(
                job,
                replies,
                config(job),
            )
        }),
    decreases replies.len(),
{
    if replies.len() > 0 {
        let less = replies.drop_last();
        let dir = RequestModel::SetMode(Place::SocketDir, 0o700);
        let bind = RequestModel::Bind;
        let socket = RequestModel::SetMode(Place::Socket, 0o660);
        lemma_done(job, less);
        if done(job, less, dir) || (replies.last() == ReplyModel::Done && after(job, less).1
            == dir) {
            lemma_done_still(job, replies, dir);
        }
        if done(job, less, bind) || (replies.last() == ReplyModel::Done && after(job, less).1
            == bind) {
            lemma_done_still(job, replies, bind);
        }
        if done(job, less, socket) || (replies.last() == ReplyModel::Done && after(job, less).1
            == socket) {
            lemma_done_still(job, replies, socket);
        }
        if done(job, less, config(job)) || (replies.last() == ReplyModel::Done && after(job, less).1
            == config(job)) {
            lemma_done_still(job, replies, config(job));
        }
    }
}

/// The socket is bound only where its directory is closed to everyone but its owner.
pub proof fn law_bound_in_a_private_directory(job: Serve, replies: Seq<ReplyModel>)
    requires
        after(job, replies).1 == RequestModel::Bind,
        job.has_parent,
    ensures
        done(job, replies, RequestModel::SetMode(Place::SocketDir, 0o700)),
{
    lemma_done(job, replies);
}

/// Clients are answered only once the directory of the socket is closed to everyone but its owner,
/// and the socket itself to everyone but its owner and their group.
pub proof fn law_closed_before_it_listens(job: Serve, replies: Seq<ReplyModel>)
    requires
        after(job, replies).1 == RequestModel::Listen,
    ensures
        job.has_parent ==> done(job, replies, RequestModel::SetMode(Place::SocketDir, 0o700)),
        done(job, replies, RequestModel::Bind),
        done(job, replies, RequestModel::SetMode(Place::Socket, 0o660)),
{
    lemma_done(job, replies);
}

/// Credentials come by the profile that was asked for: its configuration is the only one that is
/// loaded, and it is loaded before credentials are tried and clients are answered.
pub proof fn law_profile_is_the_one_asked_for(
    job: Serve,
    replies: Seq<ReplyModel>,
    profile: Option<Seq<char>>,
)
    ensures
        after(job, replies).1 == RequestModel::LoadConfig(profile) ==> profile
            == credentials::opt_view(job.aws_profile),
        after(job, replies).1 == RequestModel::Probe || after(job, replies).1
            == RequestModel::Listen ==> done(job, replies, config(job)),
{
    lemma_done(job, replies);
}

/// Whether credentials can be had at the start does not matter: clients are answered all the same.
pub proof fn law_credentials_are_not_needed_to_start(
    job: Serve,
    replies: Seq<ReplyModel>,
    found: ReplyModel,
)
    requires
        after(job, replies).1 == RequestModel::Probe,
    ensures
        after(job, replies.push(found)).1 == RequestModel::Listen,
{
    assert(replies.push(found).drop_last() == replies);
}

/// When the user interrupts, the socket is removed, and the command succeeds whatever comes of
/// that; and it succeeds in no other way.
pub proof fn law_interruption_cleans_up(job: Serve, replies: Seq<ReplyModel>, came: ReplyModel)
    ensures
        after(job, replies).1 == RequestModel::Listen ==> ({
            let stopping = replies.push(ReplyModel::Interrupted);
            &&& after(job, stopping).1 == RequestModel::Remove(Place::Socket)
            &&& after(job, stopping.push(came)).1 == exchange::success()
        }),
        after(job, replies).1 == exchange::success() ==> replies.len() >= 2
            && replies[replies.len() - 2] == ReplyModel::Interrupted && after(
            job,
            replies.drop_last(),
        ).1 == RequestModel::Remove(Place::Socket),
{
    let stopping = replies.push(ReplyModel::Interrupted);
    assert(stopping.drop_last() == replies);
    assert(stopping.push(came).drop_last() == stopping);
}

/// How far a step is from the start, at the most.
spec fn rank(step: ServeStep) -> nat {
    match step {
        ServeStep::MakingDir => 0,
        ServeStep::ClosingDir => 1,
        ServeStep::SeekingStale => 2,
        ServeStep::RemovingStale => 3,
        ServeStep::Binding => 4,
        ServeStep::ClosingSocket => 5,
        ServeStep::Loading => 6,
        ServeStep::Probing => 7,
        ServeStep::Listening => 8,
        ServeStep::Cleaning => 9,
        ServeStep::Ended => 0,
    }
}

/// No step is reached later than its rank says.
proof fn lemma_ranks(job: Serve, replies: Seq<ReplyModel>)
    ensures
        after(job, replies).0 != ServeStep::Ended ==> replies.len() <= rank(
            after(job, replies).0,
        ),
    decreases replies.len(),
{
    if replies.len() > 0 {
        lemma_ranks(job, replies.drop_last());
    }
}

/// Every run of `serve` ends, after no more than 10 replies. No reply about what was asked for
/// puts it out of step.
pub proof fn law_runs_end(job: Serve, replies: Seq<ReplyModel>, reply: ReplyModel)
    ensures
        replies.len() > 9 ==> after(job, replies).0 == ServeStep::Ended,
        exchange::answers(after(job, replies).1, reply) ==> after(job, replies.push(reply)).1
            != RequestModel::Finish(OutcomeModel::OutOfStep),
{
    lemma_ranks(job, replies);
    assert(replies.push(reply).drop_last() == replies);
}

/// Who may have the credentials: root, which the Nix daemon runs as, and the user who started the
/// proxy.
pub open spec fn allowed(owner: u32, peer: u32) -> bool {
    peer == 0 || peer == owner
}

/// The door of the proxy, for the user who started it.
#[derive(Clone, Copy)]
pub struct Door {
    pub owner: u32,
}

/// What the door has asked for last.
#[derive(Clone, Copy, PartialEq, Eq, Structural)]
pub enum DoorStep {
    /// To wait for a client.
    Waiting,
    /// Which user the client runs as.
    Identifying,
    /// To let the client in, or to turn it away.
    Parting,
    /// To end.
    Ended,
}

/// What the door asks for after a reply.
pub open spec fn door_next(door: Door, step: DoorStep, reply: ReplyModel) -> (
    DoorStep,
    RequestModel,
) {
    match (step, reply) {
        (DoorStep::Waiting, ReplyModel::Done) => (DoorStep::Identifying, RequestModel::Identify),
        (DoorStep::Identifying, ReplyModel::Peer(peer)) => (
            DoorStep::Parting,
            if allowed(door.owner, peer) {
                RequestModel::Serve
            } else {
                RequestModel::Refuse
            },
        ),
        // A client that could not be answered is no reason to keep others waiting.
        (DoorStep::Parting, ReplyModel::Done) => (DoorStep::Waiting, RequestModel::Accept),
        (DoorStep::Parting, ReplyModel::Failed(_)) => (DoorStep::Waiting, RequestModel::Accept),
        _ => (DoorStep::Ended, exchange::stop(reply)),
    }
}

/// Where the door stands after these replies.
pub open spec fn door_after(door: Door, replies: Seq<ReplyModel>) -> (DoorStep, RequestModel)
    decreases replies.len(),
{
    if replies.len() == 0 {
        (DoorStep::Waiting, RequestModel::Accept)
    } else {
        door_next(door, door_after(door, replies.drop_last()).0, replies.last())
    }
}

impl Door {
    /// Whether the user `peer` may have the credentials.
    pub fn admits(&self, peer: u32) -> (yes: bool)
        ensures
            yes == allowed(self.owner, peer),
    {
        peer == 0 || peer == self.owner
    }

    /// What to ask for first.
    pub fn start(&self) -> (first: (DoorStep, Request))
        ensures
            (first.0, first.1@) == door_after(*self, Seq::empty()),
    {
        (DoorStep::Waiting, Request::Accept)
    }

    /// What to ask for after the reply to what `step` asked for.
    pub fn resume(&self, step: DoorStep, reply: Reply) -> (then: (DoorStep, Request))
        ensures
            (then.0, then.1@) == door_next(*self, step, reply@),
    {
        match (step, reply) {
            (DoorStep::Waiting, Reply::Done) => (DoorStep::Identifying, Request::Identify),
            (DoorStep::Identifying, Reply::Peer(peer)) => {
                if self.admits(peer) {
                    (DoorStep::Parting, Request::Serve)
                } else {
                    (DoorStep::Parting, Request::Refuse)
                }
            },
            (DoorStep::Parting, Reply::Done) => (DoorStep::Waiting, Request::Accept),
            (DoorStep::Parting, Reply::Failed(_)) => (DoorStep::Waiting, Request::Accept),
            (_, reply) => (DoorStep::Ended, exchange::give_up(reply)),
        }
    }
}

/// No client is answered before it is known to run as root or as the owner.
pub proof fn law_only_root_and_owner_are_served(door: Door, replies: Seq<ReplyModel>)
    requires
        door_after(door, replies).1 == RequestModel::Serve,
    ensures
        replies.len() > 0,
        door_after(door, replies.drop_last()).1 == RequestModel::Identify,
        replies.last() matches ReplyModel::Peer(peer) && (peer == 0 || peer == door.owner),
{
}

/// Root and the owner are always answered, anyone else is turned away, and then the next client
/// has its turn, whatever came of it.
pub proof fn law_everyone_has_their_turn(
    door: Door,
    replies: Seq<ReplyModel>,
    peer: u32,
    came: ReplyModel,
)
    requires
        door_after(door, replies).1 == RequestModel::Identify,
        came is Done || came is Failed,
    ensures
        door_after(door, replies.push(ReplyModel::Peer(peer))).1 == if peer == 0 || peer
            == door.owner {
            RequestModel::Serve
        } else {
            RequestModel::Refuse
        },
        door_after(door, replies.push(ReplyModel::Peer(peer)).push(came)).1
            == RequestModel::Accept,
{
    let known = replies.push(ReplyModel::Peer(peer));
    assert(known.drop_last() == replies);
    assert(known.push(came).drop_last() == known);
}

/// As long as each reply is about what was asked for, the door never loses its step.
pub proof fn law_door_keeps_its_step(door: Door, replies: Seq<ReplyModel>, reply: ReplyModel)
    requires
        exchange::answers(door_after(door, replies).1, reply),
    ensures
        door_after(door, replies.push(reply)).1 != RequestModel::Finish(OutcomeModel::OutOfStep),
{
    assert(replies.push(reply).drop_last() == replies);
}

/// The door never ends well. As long as it is open, it fails only where a client could not be
/// waited for or identified, and with the message of that.
pub proof fn law_door_stays_open(door: Door, replies: Seq<ReplyModel>, message: Seq<char>)
    ensures
        door_after(door, replies).1 != exchange::success(),
        door_after(door, replies).1 == exchange::failure(message) ==> {
            &&& replies.len() > 0
            &&& replies.last() == ReplyModel::Failed(message)
            &&& door_after(door, replies.drop_last()).0 != DoorStep::Ended ==> {
                ||| door_after(door, replies.drop_last()).1 == RequestModel::Accept
                ||| door_after(door, replies.drop_last()).1 == RequestModel::Identify
            }
        },
{
}

/// Where a client cannot be waited for or identified, the door closes with the message of that
/// failure.
pub proof fn law_door_passes_its_failures_on(
    door: Door,
    replies: Seq<ReplyModel>,
    message: Seq<char>,
)
    requires
        door_after(door, replies).1 == RequestModel::Accept || door_after(door, replies).1
            == RequestModel::Identify,
    ensures
        door_after(door, replies.push(ReplyModel::Failed(message))).1 == exchange::failure(message),
{
    assert(replies.push(ReplyModel::Failed(message)).drop_last() == replies);
}

/// The directory of the socket is created, and closed to everyone but its owner, where the path has
/// one. Then `serve` asks for a socket from an earlier run.
pub proof fn law_directory_comes_first(job: Serve)
    ensures
        !job.has_parent ==> after(job, Seq::empty()).1 == RequestModel::Exists(Place::Socket),
        job.has_parent ==> {
            &&& after(job, Seq::empty()).1 == RequestModel::CreateDirs(Place::SocketDir)
            &&& after(job, seq![ReplyModel::Done]).1 == RequestModel::SetMode(
                Place::SocketDir,
                0o700,
            )
            &&& after(job, seq![ReplyModel::Done, ReplyModel::Done]).1 == RequestModel::Exists(
                Place::Socket,
            )
        },
{
    let made = seq![ReplyModel::Done];
    assert(made.drop_last() == Seq::<ReplyModel>::empty());
    assert(after(job, Seq::empty()) == begin(job));
    assert(seq![ReplyModel::Done, ReplyModel::Done].drop_last() == made);
    assert(job.has_parent ==> after(job, made).0 == ServeStep::ClosingDir);
}

/// A socket is removed before the bind exactly where one was found.
pub proof fn law_only_a_stale_socket_is_removed(job: Serve, replies: Seq<ReplyModel>)
    requires
        after(job, replies).1 == RequestModel::Exists(Place::Socket),
    ensures
        ({
            let found = replies.push(ReplyModel::Answer(true));
            &&& after(job, replies.push(ReplyModel::Answer(false))).1 == RequestModel::Bind
            &&& after(job, found).1 == RequestModel::Remove(Place::Socket)
            &&& after(job, found.push(ReplyModel::Done)).1 == RequestModel::Bind
        }),
{
    let found = replies.push(ReplyModel::Answer(true));
    assert(replies.push(ReplyModel::Answer(false)).drop_last() == replies);
    assert(found.drop_last() == replies);
    assert(after(job, found).0 == ServeStep::RemovingStale);
    assert(found.push(ReplyModel::Done).drop_last() == found);
}

/// A socket that is bound is closed to all but its owner and their group. Then the configuration of
/// the profile asked for is loaded, credentials are tried, and clients are answered.
pub proof fn law_bound_socket_is_listened_on(job: Serve, replies: Seq<ReplyModel>, tried: ReplyModel)
    requires
        after(job, replies).1 == RequestModel::Bind,
    ensures
        ({
            let bound = replies.push(ReplyModel::Done);
            let closed = bound.push(ReplyModel::Done);
            let loaded = closed.push(ReplyModel::Done);
            &&& after(job, bound).1 == RequestModel::SetMode(Place::Socket, 0o660)
            &&& after(job, closed).1 == RequestModel::LoadConfig(
                match job.aws_profile {
                    Some(name) => Some(name@),
                    None => None,
                },
            )
            &&& after(job, loaded).1 == RequestModel::Probe
            &&& after(job, loaded.push(tried)).1 == RequestModel::Listen
        }),
{
    let bound = replies.push(ReplyModel::Done);
    let closed = bound.push(ReplyModel::Done);
    let loaded = closed.push(ReplyModel::Done);
    assert(bound.drop_last() == replies);
    assert(after(job, bound).0 == ServeStep::ClosingSocket);
    assert(closed.drop_last() == bound);
    assert(after(job, closed).0 == ServeStep::Loading);
    assert(loaded.drop_last() == closed);
    assert(after(job, loaded).0 == ServeStep::Probing);
    assert(loaded.push(tried).drop_last() == loaded);
}

/// Once clients were answered, an interruption has the socket removed, and the command succeeds
/// whatever comes of that.
pub proof fn law_interruption_removes_the_socket(
    job: Serve,
    replies: Seq<ReplyModel>,
    came: ReplyModel,
)
    requires
        after(job, replies).1 == RequestModel::Listen,
    ensures
        ({
            let stopping = replies.push(ReplyModel::Interrupted);
            &&& after(job, stopping).1 == RequestModel::Remove(Place::Socket)
            &&& after(job, stopping.push(came)).1 == RequestModel::Finish(OutcomeModel::Success)
        }),
{
    law_interruption_cleans_up(job, replies, came);
}

/// Whatever fails ends the command with the message of what failed, and a reply to something that
/// was not asked ends it too; apart from the trial of credentials, and from the removal of the
/// socket at the end.
pub proof fn law_failures_end_the_command(
    job: Serve,
    replies: Seq<ReplyModel>,
    reply: ReplyModel,
    message: Seq<char>,
)
    requires
        !(after(job, replies).1 is Finish),
        !(after(job, replies).1 is Probe),
        !(after(job, replies).1 is Remove && replies.last() is Interrupted),
    ensures
        after(job, replies.push(ReplyModel::Failed(message))).1 == RequestModel::Finish(
            OutcomeModel::Failure(message),
        ),
        !exchange::answers(after(job, replies).1, reply) && !(reply is Failed) ==> after(
            job,
            replies.push(reply),
        ).1 == RequestModel::Finish(OutcomeModel::OutOfStep),
{
    assert(replies.push(ReplyModel::Failed(message)).drop_last() == replies);
    assert(replies.push(reply).drop_last() == replies);
}

/// The door waits for a client, and asks which user each one runs as.
pub proof fn law_every_client_is_identified(door: Door, replies: Seq<ReplyModel>)
    ensures
        door_after(door, Seq::empty()).1 == RequestModel::Accept,
        door_after(door, replies).1 == RequestModel::Accept ==> door_after(
            door,
            replies.push(ReplyModel::Done),
        ).1 == RequestModel::Identify,
{
    assert(replies.push(ReplyModel::Done).drop_last() == replies);
}

/// A reply to something that was not asked closes the door.
pub proof fn law_door_out_of_step(door: Door, replies: Seq<ReplyModel>, reply: ReplyModel)
    requires
        !(door_after(door, replies).1 is Finish),
        !exchange::answers(door_after(door, replies).1, reply),
        !(reply is Failed),
    ensures
        door_after(door, replies.push(reply)).1 == RequestModel::Finish(OutcomeModel::OutOfStep),
{
    assert(replies.push(reply).drop_last() == replies);
}

/// The users that the door admits are root and its owner.
pub proof fn law_allowed(owner: u32, peer: u32)
    ensures
        allowed(owner, peer) <==> peer == 0 || peer == owner,
{
}

/// A run of `serve` is its first step, and one more step for each reply.
pub proof fn law_run(job: Serve, replies: Seq<ReplyModel>, reply: ReplyModel)
    ensures
        after(job, Seq::empty()) == begin(job),
        after(job, replies.push(reply)) == next(job, after(job, replies).0, reply),
{
    assert(replies.push(reply).drop_last() == replies);
}

/// What happens at the door is its first step, and one more step for each reply.
pub proof fn law_door_run(door: Door, replies: Seq<ReplyModel>, reply: ReplyModel)
    ensures
        door_after(door, Seq::empty()) == (DoorStep::Waiting, RequestModel::Accept),
        door_after(door, replies.push(reply)) == door_next(door, door_after(door, replies).0, reply),
{
    assert(replies.push(reply).drop_last() == replies);
}

} // verus!
