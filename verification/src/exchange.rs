//! What the commands ask of the world around them, and what they hear back.
//!
//! A command is a sequence of steps. Each step asks for one thing, and the reply to it decides the
//! next step. Whoever runs a command performs what it asks for and hands back what came of it.
use crate::credentials;
use crate::credentials::{CredentialProcessResponse, Credentials, CredentialsModel, ResponseModel};
use crate::text;
use vstd::prelude::*;
use vstd::string::*;

verus! {

/// A file or a directory that a command works on.
#[derive(Clone, Copy, PartialEq, Eq, Structural)]
pub enum Place {
    /// The socket of the proxy.
    Socket,
    /// The directory of the socket.
    SocketDir,
    /// The AWS config file of the daemon's user.
    ConfigFile,
    /// The directory of the config file.
    ConfigDir,
    /// The unit file of the service.
    UnitFile,
    /// The directory of the unit file.
    UnitDir,
    /// The credentials file that the daemon reads.
    CredentialsFile,
    /// A file beside the credentials file, which becomes that file once it is complete.
    StagedCredentials,
}

/// How a command ends.
pub enum Outcome {
    /// It did what it was asked for.
    Success,
    /// It failed, with this message.
    Failure(String),
    /// It ends the program with this exit code, having said why.
    Exit(i32),
    /// It was given a reply to something that it had not asked.
    OutOfStep,
}

/// The view of `Outcome`.
pub enum OutcomeModel {
    Success,
    Failure(Seq<char>),
    Exit(i32),
    OutOfStep,
}

impl View for Outcome {
    type V = OutcomeModel;

    open spec fn view(&self) -> OutcomeModel {
        match self {
            Outcome::Success => OutcomeModel::Success,
            Outcome::Failure(message) => OutcomeModel::Failure(message@),
            Outcome::Exit(code) => OutcomeModel::Exit(*code),
            Outcome::OutOfStep => OutcomeModel::OutOfStep,
        }
    }
}

/// The caller of the AWS API, as the API names it.
pub struct Identity {
    pub account: Option<String>,
    pub arn: Option<String>,
    pub user_id: Option<String>,
}

/// The view of `Identity`.
pub struct IdentityModel {
    pub account: Option<Seq<char>>,
    pub arn: Option<Seq<char>>,
    pub user_id: Option<Seq<char>>,
}

impl View for Identity {
    type V = IdentityModel;

    open spec fn view(&self) -> IdentityModel {
        IdentityModel {
            account: credentials::opt_view(self.account),
            arn: credentials::opt_view(self.arn),
            user_id: credentials::opt_view(self.user_id),
        }
    }
}

/// What a command asks for.
pub enum Request {
    /// Write this text to the standard output.
    Print(String),
    /// Write these bytes to the standard output.
    PrintBytes(Vec<u8>),
    /// Write this text to the standard error.
    Warn(String),
    /// Say whether there is such a file or directory.
    Exists(Place),
    /// Create a directory, and those above it.
    CreateDirs(Place),
    /// Give a file or directory these permission bits.
    SetMode(Place, u32),
    /// Read a file as text.
    Read(Place),
    /// Write a file: this text and nothing else.
    Write(Place, String),
    /// Write a new file, which has these permission bits from the start: this text and nothing else.
    WriteWithMode(Place, u32, String),
    /// Let the first file take the place of the second.
    Rename(Place, Place),
    /// Remove a file.
    Remove(Place),
    /// Run `systemctl` with these arguments.
    Systemctl(Vec<String>),
    /// Bind the socket.
    Bind,
    /// Load the user's AWS configuration: that of this profile, or of the profile that the AWS SDK
    /// takes where none is named.
    LoadConfig(Option<String>),
    /// Try whether credentials can be had, for the log.
    Probe,
    /// Answer clients until something fails or the user interrupts.
    Listen,
    /// Wait for a client to connect.
    Accept,
    /// Say which user the client runs as.
    Identify,
    /// Answer the client.
    Serve,
    /// Close the connection to the client.
    Refuse,
    /// Say whether a provider of credentials is configured.
    FindProvider,
    /// Have the provider give credentials.
    FetchCredentials,
    /// Send this response to the client, as JSON.
    Respond(CredentialProcessResponse),
    /// Shut the connection to the client down.
    Shutdown,
    /// Connect to the proxy.
    Connect,
    /// Read all that the proxy sends.
    ReadAll,
    /// Ask the AWS API who the caller is.
    GetIdentity,
    /// Wait for this many seconds.
    Sleep(u64),
    /// End the command.
    Finish(Outcome),
}

/// The view of `Request`.
pub enum RequestModel {
    Print(Seq<char>),
    PrintBytes(Seq<u8>),
    Warn(Seq<char>),
    Exists(Place),
    CreateDirs(Place),
    SetMode(Place, u32),
    Read(Place),
    Write(Place, Seq<char>),
    WriteWithMode(Place, u32, Seq<char>),
    Rename(Place, Place),
    Remove(Place),
    Systemctl(Seq<Seq<char>>),
    Bind,
    LoadConfig(Option<Seq<char>>),
    Probe,
    Listen,
    Accept,
    Identify,
    Serve,
    Refuse,
    FindProvider,
    FetchCredentials,
    Respond(ResponseModel),
    Shutdown,
    Connect,
    ReadAll,
    GetIdentity,
    Sleep(u64),
    Finish(OutcomeModel),
}

impl View for Request {
    type V = RequestModel;

    open spec fn view(&self) -> RequestModel {
        match self {
            Request::Print(s) => RequestModel::Print(s@),
            Request::PrintBytes(bytes) => RequestModel::PrintBytes(bytes@),
            Request::Warn(s) => RequestModel::Warn(s@),
            Request::Exists(place) => RequestModel::Exists(*place),
            Request::CreateDirs(place) => RequestModel::CreateDirs(*place),
            Request::SetMode(place, mode) => RequestModel::SetMode(*place, *mode),
            Request::Read(place) => RequestModel::Read(*place),
            Request::Write(place, s) => RequestModel::Write(*place, s@),
            Request::WriteWithMode(place, mode, s) => RequestModel::WriteWithMode(
                *place,
                *mode,
                s@,
            ),
            Request::Rename(from, to) => RequestModel::Rename(*from, *to),
            Request::Remove(place) => RequestModel::Remove(*place),
            Request::Systemctl(list) => RequestModel::Systemctl(text::views(list@)),
            Request::Bind => RequestModel::Bind,
            Request::LoadConfig(profile) => RequestModel::LoadConfig(
                credentials::opt_view(*profile),
            ),
            Request::Probe => RequestModel::Probe,
            Request::Listen => RequestModel::Listen,
            Request::Accept => RequestModel::Accept,
            Request::Identify => RequestModel::Identify,
            Request::Serve => RequestModel::Serve,
            Request::Refuse => RequestModel::Refuse,
            Request::FindProvider => RequestModel::FindProvider,
            Request::FetchCredentials => RequestModel::FetchCredentials,
            Request::Respond(response) => RequestModel::Respond(response@),
            Request::Shutdown => RequestModel::Shutdown,
            Request::Connect => RequestModel::Connect,
            Request::ReadAll => RequestModel::ReadAll,
            Request::GetIdentity => RequestModel::GetIdentity,
            Request::Sleep(secs) => RequestModel::Sleep(*secs),
            Request::Finish(outcome) => RequestModel::Finish(outcome@),
        }
    }
}

/// What a command hears of what it asked for.
pub enum Reply {
    /// It is done.
    Done,
    /// It failed, with this message.
    Failed(String),
    /// Yes or no.
    Answer(bool),
    /// The text that was read.
    Text(String),
    /// The bytes that were read.
    Bytes(Vec<u8>),
    /// A program was run: whether it succeeded, and the status it left, in words.
    Ran(bool, String),
    /// The user that the client runs as.
    Peer(u32),
    /// The credentials that the provider gave.
    Credentials(Credentials),
    /// The caller of the AWS API.
    Identity(Identity),
    /// The user interrupted.
    Interrupted,
}

/// The view of `Reply`.
pub enum ReplyModel {
    Done,
    Failed(Seq<char>),
    Answer(bool),
    Text(Seq<char>),
    Bytes(Seq<u8>),
    Ran(bool, Seq<char>),
    Peer(u32),
    Credentials(CredentialsModel),
    Identity(IdentityModel),
    Interrupted,
}

impl View for Reply {
    type V = ReplyModel;

    open spec fn view(&self) -> ReplyModel {
        match self {
            Reply::Done => ReplyModel::Done,
            Reply::Failed(message) => ReplyModel::Failed(message@),
            Reply::Answer(yes) => ReplyModel::Answer(*yes),
            Reply::Text(s) => ReplyModel::Text(s@),
            Reply::Bytes(bytes) => ReplyModel::Bytes(bytes@),
            Reply::Ran(success, status) => ReplyModel::Ran(*success, status@),
            Reply::Peer(uid) => ReplyModel::Peer(*uid),
            Reply::Credentials(c) => ReplyModel::Credentials(c@),
            Reply::Identity(identity) => ReplyModel::Identity(identity@),
            Reply::Interrupted => ReplyModel::Interrupted,
        }
    }
}

/// Whether a request changes a file or a directory.
pub open spec fn changes_files(request: RequestModel) -> bool {
    match request {
        RequestModel::CreateDirs(_) => true,
        RequestModel::SetMode(_, _) => true,
        RequestModel::Write(_, _) => true,
        RequestModel::WriteWithMode(_, _, _) => true,
        RequestModel::Rename(_, _) => true,
        RequestModel::Remove(_) => true,
        _ => false,
    }
}

/// Whether a reply is about what was asked for.
pub open spec fn answers(request: RequestModel, reply: ReplyModel) -> bool {
    match request {
        RequestModel::Finish(_) => false,
        RequestModel::Exists(_) => reply is Answer,
        RequestModel::FindProvider => reply is Answer,
        RequestModel::Read(_) => reply is Text || reply is Failed,
        RequestModel::Systemctl(_) => reply is Ran || reply is Failed,
        RequestModel::Listen => reply is Interrupted || reply is Failed,
        RequestModel::Identify => reply is Peer || reply is Failed,
        RequestModel::FetchCredentials => reply is Credentials || reply is Failed,
        RequestModel::ReadAll => reply is Bytes || reply is Failed,
        RequestModel::GetIdentity => reply is Identity || reply is Failed,
        RequestModel::Sleep(_) => reply is Done,
        _ => reply is Done || reply is Failed,
    }
}

/// The end of a command that did what it was asked for.
pub open spec fn success() -> RequestModel {
    RequestModel::Finish(OutcomeModel::Success)
}

/// The end of a command that failed.
pub open spec fn failure(message: Seq<char>) -> RequestModel {
    RequestModel::Finish(OutcomeModel::Failure(message))
}

/// The end of a command that cannot go on after a reply: what it asked for failed, or was not what
/// the reply is about.
pub open spec fn stop(reply: ReplyModel) -> RequestModel {
    match reply {
        ReplyModel::Failed(message) => failure(message),
        _ => RequestModel::Finish(OutcomeModel::OutOfStep),
    }
}

/// Asks for the AWS configuration of a profile, where one is named.
pub fn load_config(profile: &Option<String>) -> (request: Request)
    ensures
        request@ == RequestModel::LoadConfig(credentials::opt_view(*profile)),
{
    match profile {
        Some(name) => Request::LoadConfig(Some(name.as_str().to_owned())),
        None => Request::LoadConfig(None),
    }
}

/// Ends a command that did what it was asked for.
pub fn succeed() -> (request: Request)
    ensures
        request@ == success(),
{
    Request::Finish(Outcome::Success)
}

/// Ends a command that failed.
pub fn fail(message: String) -> (request: Request)
    ensures
        request@ == failure(message@),
{
    Request::Finish(Outcome::Failure(message))
}

/// Ends a command that cannot go on after `reply`.
pub fn give_up(reply: Reply) -> (request: Request)
    ensures
        request@ == stop(reply@),
{
    match reply {
        Reply::Failed(message) => fail(message),
        _ => Request::Finish(Outcome::OutOfStep),
    }
}

/// A command ends with a failure exactly where what it cannot go on after is one, and with the same
/// message.
pub proof fn law_stop(reply: ReplyModel, message: Seq<char>)
    ensures
        success() == RequestModel::Finish(OutcomeModel::Success),
        stop(ReplyModel::Failed(message)) == RequestModel::Finish(OutcomeModel::Failure(message)),
        !(reply is Failed) ==> stop(reply) == RequestModel::Finish(OutcomeModel::OutOfStep),
{
}

/// The view of a request leaves nothing out.
pub proof fn law_view_of_a_request(request: Request)
    ensures
        match request {
            Request::Print(s) => request@ == RequestModel::Print(s@),
            Request::PrintBytes(bytes) => request@ == RequestModel::PrintBytes(bytes@),
            Request::Warn(s) => request@ == RequestModel::Warn(s@),
            Request::Exists(place) => request@ == RequestModel::Exists(place),
            Request::CreateDirs(place) => request@ == RequestModel::CreateDirs(place),
            Request::SetMode(place, mode) => request@ == RequestModel::SetMode(place, mode),
            Request::Read(place) => request@ == RequestModel::Read(place),
            Request::Write(place, s) => request@ == RequestModel::Write(place, s@),
            Request::WriteWithMode(place, mode, s) => request@ == RequestModel::WriteWithMode(
                place,
                mode,
                s@,
            ),
            Request::Rename(from, to) => request@ == RequestModel::Rename(from, to),
            Request::Remove(place) => request@ == RequestModel::Remove(place),
            Request::Systemctl(list) => (request@ matches RequestModel::Systemctl(args)
                && args.len() == list@.len() && forall|i: int|
                0 <= i < args.len() ==> #[trigger] args[i] == list@[i]@),
            Request::Bind => request@ == RequestModel::Bind,
            Request::LoadConfig(None) => request@ == RequestModel::LoadConfig(None),
            Request::LoadConfig(Some(profile)) => request@ == RequestModel::LoadConfig(
                Some(profile@),
            ),
            Request::Probe => request@ == RequestModel::Probe,
            Request::Listen => request@ == RequestModel::Listen,
            Request::Accept => request@ == RequestModel::Accept,
            Request::Identify => request@ == RequestModel::Identify,
            Request::Serve => request@ == RequestModel::Serve,
            Request::Refuse => request@ == RequestModel::Refuse,
            Request::FindProvider => request@ == RequestModel::FindProvider,
            Request::FetchCredentials => request@ == RequestModel::FetchCredentials,
            Request::Respond(response) => request@ == RequestModel::Respond(response@),
            Request::Shutdown => request@ == RequestModel::Shutdown,
            Request::Connect => request@ == RequestModel::Connect,
            Request::ReadAll => request@ == RequestModel::ReadAll,
            Request::GetIdentity => request@ == RequestModel::GetIdentity,
            Request::Sleep(secs) => request@ == RequestModel::Sleep(secs),
            Request::Finish(Outcome::Success) => request@ == RequestModel::Finish(
                OutcomeModel::Success,
            ),
            Request::Finish(Outcome::Failure(message)) => request@ == RequestModel::Finish(
                OutcomeModel::Failure(message@),
            ),
            Request::Finish(Outcome::Exit(code)) => request@ == RequestModel::Finish(
                OutcomeModel::Exit(code),
            ),
            Request::Finish(Outcome::OutOfStep) => request@ == RequestModel::Finish(
                OutcomeModel::OutOfStep,
            ),
        },
{
}

/// The view of a reply leaves nothing out.
pub proof fn law_view_of_a_reply(reply: Reply)
    ensures
        match reply {
            Reply::Done => reply@ == ReplyModel::Done,
            Reply::Failed(message) => reply@ == ReplyModel::Failed(message@),
            Reply::Answer(yes) => reply@ == ReplyModel::Answer(yes),
            Reply::Text(s) => reply@ == ReplyModel::Text(s@),
            Reply::Bytes(bytes) => reply@ == ReplyModel::Bytes(bytes@),
            Reply::Ran(success, status) => reply@ == ReplyModel::Ran(success, status@),
            Reply::Peer(uid) => reply@ == ReplyModel::Peer(uid),
            Reply::Credentials(c) => reply@ == ReplyModel::Credentials(c@),
            Reply::Identity(identity) => (reply@ matches ReplyModel::Identity(model) && {
                &&& identity.account is None <==> model.account is None
                &&& identity.account is Some ==> model.account == Some(identity.account->0@)
                &&& identity.arn is None <==> model.arn is None
                &&& identity.arn is Some ==> model.arn == Some(identity.arn->0@)
                &&& identity.user_id is None <==> model.user_id is None
                &&& identity.user_id is Some ==> model.user_id == Some(identity.user_id->0@)
            }),
            Reply::Interrupted => reply@ == ReplyModel::Interrupted,
        },
{
}

} // verus!
