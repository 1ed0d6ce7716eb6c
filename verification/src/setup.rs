//! The command `setup`: it makes the daemon's AWS config fetch credentials from the proxy.
use crate::exchange;
use crate::exchange::{Outcome, OutcomeModel, Place, Reply, ReplyModel, Request, RequestModel};
use crate::profile;
use crate::profile_laws;
use crate::text;
use vstd::prelude::*;
use vstd::string::*;

verus! {

/// What `setup` is asked for, and by whom.
pub struct Setup {
    /// The profile to write.
    pub profile: String,
    /// The path of the socket, as it is displayed.
    pub socket: String,
    /// The path of the running executable, where it is known.
    pub exe: Option<String>,
    /// The path of the config file, as it is displayed.
    pub config_file: String,
    /// Whether that path has a parent.
    pub has_parent: bool,
    /// Whether to show the section in place of writing it.
    pub dry_run: bool,
    /// The user that runs the command.
    pub uid: u32,
}

/// What `setup` has asked for last.
#[derive(Clone, Copy, PartialEq, Eq, Structural)]
pub enum SetupStep {
    /// To show the section.
    Showing,
    /// To say that the command is for root.
    Refusing,
    /// Whether the directory is there.
    SeekingDir,
    /// To create the directory.
    MakingDir,
    /// To close the directory to others.
    ClosingDir,
    /// Whether the file is there.
    SeekingFile,
    /// To read the file.
    Reading,
    /// To write the updated file.
    Updating,
    /// To write a new file.
    Creating,
    /// To say what was written.
    Reporting,
    /// To close the file to others.
    ClosingFile,
    /// To say what to do next.
    Advising,
    /// To end.
    Ended,
}

/// What `setup` says when it is over.
pub const NEXT_STEPS: &'static str = "\n\
    next steps:\n  \
      1. run `aws-nix-cache serve` as your user\n  \
      2. restart nix-daemon: sudo systemctl restart nix-daemon\n";

/// The setting that a run of `setup` is to write.
pub open spec fn setting(job: Setup) -> Seq<char> {
    profile::process_line(crate::credentials::opt_view(job.exe), job.socket@)
}

/// The section that a run of `setup` is to write.
pub open spec fn fresh(job: Setup) -> Seq<char> {
    profile::block(profile::header(job.profile@), setting(job))
}

/// A config file after that section was written to it.
pub open spec fn updated(job: Setup, existing: Seq<char>) -> Seq<char> {
    profile::updated(existing, profile::header(job.profile@), setting(job))
}

/// What a user who is not root is told.
pub open spec fn refusal(job: Setup) -> Seq<char> {
    "error: setup must run as root to write "@ + job.config_file@
        + "\n\n  sudo aws-nix-cache setup --profile "@ + job.profile@
        + "\n\nOr preview with --dry-run:\n  aws-nix-cache setup --profile "@ + job.profile@
        + " --dry-run\n"@
}

/// What is said after a file was updated.
pub open spec fn update_report(job: Setup) -> Seq<char> {
    "updated profile ["@ + job.profile@ + "] in "@ + job.config_file@ + "\n"@
}

/// What is said after a file was created.
pub open spec fn create_report(job: Setup) -> Seq<char> {
    "created "@ + job.config_file@ + "\n"@
}

/// What `setup` asks for first.
pub open spec fn begin(job: Setup) -> (SetupStep, RequestModel) {
    if job.dry_run {
        (SetupStep::Showing, RequestModel::Print(text::terminated(fresh(job))))
    } else if job.uid != 0 {
        (SetupStep::Refusing, RequestModel::Warn(refusal(job)))
    } else if job.has_parent {
        (SetupStep::SeekingDir, RequestModel::Exists(Place::ConfigDir))
    } else {
        (SetupStep::SeekingFile, RequestModel::Exists(Place::ConfigFile))
    }
}

/// What `setup` asks for after a reply.
pub open spec fn next(job: Setup, step: SetupStep, reply: ReplyModel) -> (SetupStep, RequestModel) {
    match (step, reply) {
        (SetupStep::Showing, ReplyModel::Done) => (SetupStep::Ended, exchange::success()),
        (SetupStep::Refusing, ReplyModel::Done) => (
            SetupStep::Ended,
            RequestModel::Finish(OutcomeModel::Exit(1)),
        ),
        (SetupStep::SeekingDir, ReplyModel::Answer(there)) => if there {
            (SetupStep::SeekingFile, RequestModel::Exists(Place::ConfigFile))
        } else {
            (SetupStep::MakingDir, RequestModel::CreateDirs(Place::ConfigDir))
        },
        (SetupStep::MakingDir, ReplyModel::Done) => (
            SetupStep::ClosingDir,
            RequestModel::SetMode(Place::ConfigDir, 0o700),
        ),
        (SetupStep::ClosingDir, ReplyModel::Done) => (
            SetupStep::SeekingFile,
            RequestModel::Exists(Place::ConfigFile),
        ),
        (SetupStep::SeekingFile, ReplyModel::Answer(there)) => if there {
            (SetupStep::Reading, RequestModel::Read(Place::ConfigFile))
        } else {
            (SetupStep::Creating, RequestModel::Write(Place::ConfigFile, fresh(job)))
        },
        (SetupStep::Reading, ReplyModel::Text(existing)) => (
            SetupStep::Updating,
            RequestModel::Write(Place::ConfigFile, updated(job, existing)),
        ),
        (SetupStep::Updating, ReplyModel::Done) => (
            SetupStep::Reporting,
            RequestModel::Warn(update_report(job)),
        ),
        (SetupStep::Creating, ReplyModel::Done) => (
            SetupStep::Reporting,
            RequestModel::Warn(create_report(job)),
        ),
        (SetupStep::Reporting, ReplyModel::Done) => (
            SetupStep::ClosingFile,
            RequestModel::SetMode(Place::ConfigFile, 0o600),
        ),
        (SetupStep::ClosingFile, ReplyModel::Done) => (
            SetupStep::Advising,
            RequestModel::Warn(NEXT_STEPS@),
        ),
        (SetupStep::Advising, ReplyModel::Done) => (SetupStep::Ended, exchange::success()),
        _ => (SetupStep::Ended, exchange::stop(reply)),
    }
}

/// Where `setup` stands after these replies.
pub open spec fn after(job: Setup, replies: Seq<ReplyModel>) -> (SetupStep, RequestModel)
    decreases replies.len(),
{
    if replies.len() == 0 {
        begin(job)
    } else {
        next(job, after(job, replies.drop_last()).0, replies.last())
    }
}

impl Setup {
    /// The path of the running executable, where it is known.
    fn exe(&self) -> (exe: Option<&str>)
        ensures
            profile::opt_view(exe) == crate::credentials::opt_view(self.exe),
    {
        match &self.exe {
            Some(path) => Some(path.as_str()),
            None => None,
        }
    }

    /// The section to write.
    fn section(&self) -> (section: String)
        ensures
            section@ == fresh(*self),
    {
        profile::generate_aws_config(self.profile.as_str(), self.exe(), self.socket.as_str())
    }

    /// What to ask for first.
    pub fn start(&self) -> (first: (SetupStep, Request))
        ensures
            (first.0, first.1@) == begin(*self),
    {
        if self.dry_run {
            let mut shown = self.section();
            shown.push('\n');
            (SetupStep::Showing, Request::Print(shown))
        } else if self.uid != 0 {
            let message = "error: setup must run as root to write ".to_owned().concat(
                self.config_file.as_str(),
            ).concat("\n\n  sudo aws-nix-cache setup --profile ").concat(
                self.profile.as_str(),
            ).concat(
                "\n\nOr preview with --dry-run:\n  aws-nix-cache setup --profile ",
            ).concat(self.profile.as_str()).concat(" --dry-run\n");
            (SetupStep::Refusing, Request::Warn(message))
        } else if self.has_parent {
            (SetupStep::SeekingDir, Request::Exists(Place::ConfigDir))
        } else {
            (SetupStep::SeekingFile, Request::Exists(Place::ConfigFile))
        }
    }

    /// What to ask for after the reply to what `step` asked for.
    pub fn resume(&self, step: SetupStep, reply: Reply) -> (then: (SetupStep, Request))
        ensures
            (then.0, then.1@) == next(*self, step, reply@),
    {
        match (step, reply) {
            (SetupStep::Showing, Reply::Done) => (SetupStep::Ended, exchange::succeed()),
            (SetupStep::Refusing, Reply::Done) => (
                SetupStep::Ended,
                Request::Finish(Outcome::Exit(1)),
            ),
            (SetupStep::SeekingDir, Reply::Answer(there)) => {
                if there {
                    (SetupStep::SeekingFile, Request::Exists(Place::ConfigFile))
                } else {
                    (SetupStep::MakingDir, Request::CreateDirs(Place::ConfigDir))
                }
            },
            (SetupStep::MakingDir, Reply::Done) => (
                SetupStep::ClosingDir,
                Request::SetMode(Place::ConfigDir, 0o700),
            ),
            (SetupStep::ClosingDir, Reply::Done) => (
                SetupStep::SeekingFile,
                Request::Exists(Place::ConfigFile),
            ),
            (SetupStep::SeekingFile, Reply::Answer(there)) => {
                if there {
                    (SetupStep::Reading, Request::Read(Place::ConfigFile))
                } else {
                    (SetupStep::Creating, Request::Write(Place::ConfigFile, self.section()))
                }
            },
            (SetupStep::Reading, Reply::Text(existing)) => {
                let file = profile::update_profile_in_config(
                    existing.as_str(),
                    self.profile.as_str(),
                    self.exe(),
                    self.socket.as_str(),
                );
                (SetupStep::Updating, Request::Write(Place::ConfigFile, file))
            },
            (SetupStep::Updating, Reply::Done) => {
                let message = "updated profile [".to_owned().concat(self.profile.as_str()).concat(
                    "] in ",
                ).concat(self.config_file.as_str()).concat("\n");
                (SetupStep::Reporting, Request::Warn(message))
            },
            (SetupStep::Creating, Reply::Done) => {
                let message = "created ".to_owned().concat(self.config_file.as_str()).concat("\n");
                (SetupStep::Reporting, Request::Warn(message))
            },
            (SetupStep::Reporting, Reply::Done) => (
                SetupStep::ClosingFile,
                Request::SetMode(Place::ConfigFile, 0o600),
            ),
            (SetupStep::ClosingFile, Reply::Done) => (
                SetupStep::Advising,
                Request::Warn(NEXT_STEPS.to_owned()),
            ),
            (SetupStep::Advising, Reply::Done) => (SetupStep::Ended, exchange::succeed()),
            (_, reply) => (SetupStep::Ended, exchange::give_up(reply)),
        }
    }
}

/// A dry run shows the section that would be written, and changes no file whatever it is told.
pub proof fn law_dry_run_changes_nothing(job: Setup, replies: Seq<ReplyModel>)
    requires
        job.dry_run,
    ensures
        after(job, Seq::empty()).1 == RequestModel::Print(text::terminated(fresh(job))),
        !exchange::changes_files(after(job, replies).1),
    decreases replies.len(),
{
    lemma_dry_run(job, replies);
}

proof fn lemma_dry_run(job: Setup, replies: Seq<ReplyModel>)
    requires
        job.dry_run,
    ensures
        after(job, replies).0 == SetupStep::Showing || after(job, replies).0 == SetupStep::Ended,
        !exchange::changes_files(after(job, replies).1),
    decreases replies.len(),
{
    if replies.len() > 0 {
        lemma_dry_run(job, replies.drop_last());
    }
}

/// Nobody but root has `setup` change a file; another user is told so, and the exit code is 1.
pub proof fn law_only_root_changes_files(job: Setup, replies: Seq<ReplyModel>)
    requires
        job.uid != 0,
    ensures
        !exchange::changes_files(after(job, replies).1),
        !job.dry_run ==> after(job, Seq::empty()).1 == RequestModel::Warn(refusal(job)),
        !job.dry_run ==> after(job, seq![ReplyModel::Done]).1 == RequestModel::Finish(
            OutcomeModel::Exit(1),
        ),
{
    lemma_not_root(job, replies);
    assert(seq![ReplyModel::Done].drop_last() == Seq::<ReplyModel>::empty());
}

proof fn lemma_not_root(job: Setup, replies: Seq<ReplyModel>)
    requires
        job.uid != 0,
    ensures
        after(job, replies).0 == SetupStep::Showing || after(job, replies).0 == SetupStep::Refusing
            || after(job, replies).0 == SetupStep::Ended,
        !exchange::changes_files(after(job, replies).1),
    decreases replies.len(),
{
    if replies.len() > 0 {
        lemma_not_root(job, replies.drop_last());
    }
}

/// The permissions of a directory change only where `setup` has found it missing and created it.
pub proof fn law_existing_dirs_keep_their_mode(job: Setup, replies: Seq<ReplyModel>, mode: u32)
    requires
        after(job, replies).1 == RequestModel::SetMode(Place::ConfigDir, mode),
    ensures
        mode == 0o700,
        replies.len() >= 2,
        replies.last() == ReplyModel::Done,
        after(job, replies.drop_last()).1 == RequestModel::CreateDirs(Place::ConfigDir),
        replies[replies.len() - 2] == ReplyModel::Answer(false),
        after(job, replies.drop_last().drop_last()).1 == RequestModel::Exists(Place::ConfigDir),
{
    lemma_requests(job, replies);
    lemma_requests(job, replies.drop_last());
    lemma_requests(job, replies.drop_last().drop_last());
}

/// The request that goes with each step.
proof fn lemma_requests(job: Setup, replies: Seq<ReplyModel>)
    ensures
        ({
            let (step, request) = after(job, replies);
            &&& step == SetupStep::SeekingDir ==> request == RequestModel::Exists(Place::ConfigDir)
            &&& step == SetupStep::MakingDir ==> request == RequestModel::CreateDirs(
                Place::ConfigDir,
            )
            &&& step == SetupStep::ClosingDir ==> request == RequestModel::SetMode(
                Place::ConfigDir,
                0o700,
            )
            &&& step == SetupStep::SeekingFile ==> request == RequestModel::Exists(
                Place::ConfigFile,
            )
            &&& step == SetupStep::Reading ==> request == RequestModel::Read(Place::ConfigFile)
            &&& step == SetupStep::ClosingFile ==> request == RequestModel::SetMode(
                Place::ConfigFile,
                0o600,
            )
        }),
{
}

/// Everything that `setup` writes goes to the config file: the section alone where there was no
/// file, or else the file that was read, with the section updated.
pub proof fn law_what_is_written(
    job: Setup,
    replies: Seq<ReplyModel>,
    place: Place,
    file: Seq<char>,
)
    requires
        after(job, replies).1 == RequestModel::Write(place, file),
    ensures
        place == Place::ConfigFile,
        replies.len() > 0,
        match replies.last() {
            ReplyModel::Answer(there) => !there && file == fresh(job) && after(
                job,
                replies.drop_last(),
            ).1 == RequestModel::Exists(Place::ConfigFile),
            ReplyModel::Text(existing) => file == updated(job, existing) && after(
                job,
                replies.drop_last(),
            ).1 == RequestModel::Read(Place::ConfigFile),
            _ => false,
        },
{
    lemma_requests(job, replies.drop_last());
}

/// A run that writes the config file and succeeds has written it and then closed it to everyone
/// but its owner.
pub proof fn law_success_leaves_a_private_file(job: Setup, replies: Seq<ReplyModel>)
    requires
        !job.dry_run,
        after(job, replies).1 == exchange::success(),
    ensures
        replies.len() >= 4,
        ({
            let n = replies.len();
            &&& replies[n - 2] == ReplyModel::Done
            &&& after(job, replies.take(n - 2)).1 == RequestModel::SetMode(
                Place::ConfigFile,
                0o600,
            )
            &&& replies[n - 4] == ReplyModel::Done
            &&& after(job, replies.take(n - 4)).1 is Write
        }),
{
    let n = replies.len();
    lemma_shown(job, replies.drop_last());
    assert(after(job, replies.drop_last()).0 == SetupStep::Advising);
    let told = replies.drop_last();
    assert(after(job, told.drop_last()).0 == SetupStep::ClosingFile);
    assert(told.drop_last() == replies.take(n - 2));
    lemma_requests(job, replies.take(n - 2));
    let closed = told.drop_last();
    assert(after(job, closed.drop_last()).0 == SetupStep::Reporting);
    let reported = closed.drop_last();
    assert(reported.drop_last() == replies.take(n - 4));
    lemma_written(job, reported.drop_last());
}

/// Without a dry run the section is not shown.
proof fn lemma_shown(job: Setup, replies: Seq<ReplyModel>)
    requires
        !job.dry_run,
    ensures
        after(job, replies).0 != SetupStep::Showing,
    decreases replies.len(),
{
    if replies.len() > 0 {
        lemma_shown(job, replies.drop_last());
    }
}

/// The steps that write the file.
proof fn lemma_written(job: Setup, replies: Seq<ReplyModel>)
    ensures
        after(job, replies).0 == SetupStep::Updating || after(job, replies).0 == SetupStep::Creating
            ==> after(job, replies).1 is Write,
{
}

/// `setup` fails only where what it asked for has failed, and with the same message.
pub proof fn law_failures_are_passed_on(job: Setup, replies: Seq<ReplyModel>, message: Seq<char>)
    requires
        after(job, replies).1 == exchange::failure(message),
    ensures
        replies.len() > 0,
        replies.last() == ReplyModel::Failed(message),
{
}

/// A later run for the same profile, with another socket or executable, leaves what it would have
/// left had it come first.
///
/// The profile and the setting are as `profile_laws::law_last_update_wins` has them.
pub proof fn law_last_run_wins(job: Setup, replies: Seq<ReplyModel>, file: Seq<char>, later: Setup)
    requires
        after(job, replies).1 == RequestModel::Write(Place::ConfigFile, file),
        later.profile@ == job.profile@,
        text::one_line(job.profile@),
        profile_laws::settles(setting(job)),
    ensures
        replies.len() > 0,
        updated(later, file) == match replies.last() {
            ReplyModel::Text(existing) => updated(later, existing),
            _ => fresh(later),
        },
{
    law_what_is_written(job, replies, Place::ConfigFile, file);
    match replies.last() {
        ReplyModel::Text(existing) => {
            profile_laws::law_last_update_wins(
                existing,
                job.profile@,
                setting(job),
                setting(later),
            );
        },
        _ => {
            profile_laws::law_update_of_a_new_file(job.profile@, setting(job), setting(later));
        },
    }
}

/// A second run finds the file as the first one left it, and writes the same again.
///
/// The profile and the setting are as `profile_laws::law_update_twice` has them.
pub proof fn law_second_run_changes_nothing(
    job: Setup,
    replies: Seq<ReplyModel>,
    file: Seq<char>,
)
    requires
        after(job, replies).1 == RequestModel::Write(Place::ConfigFile, file),
        text::one_line(job.profile@),
        profile_laws::settles(setting(job)),
    ensures
        updated(job, file) == file,
{
    law_what_is_written(job, replies, Place::ConfigFile, file);
    law_last_run_wins(job, replies, file, job);
}

/// How far a step is from the start, at the most.
spec fn rank(step: SetupStep) -> nat {
    match step {
        SetupStep::Showing => 0,
        SetupStep::Refusing => 0,
        SetupStep::SeekingDir => 0,
        SetupStep::MakingDir => 1,
        SetupStep::ClosingDir => 2,
        SetupStep::SeekingFile => 3,
        SetupStep::Reading => 4,
        SetupStep::Updating => 5,
        SetupStep::Creating => 4,
        SetupStep::Reporting => 6,
        SetupStep::ClosingFile => 7,
        SetupStep::Advising => 8,
        SetupStep::Ended => 0,
    }
}

/// No step is reached later than its rank says.
proof fn lemma_ranks(job: Setup, replies: Seq<ReplyModel>)
    ensures
        after(job, replies).0 != SetupStep::Ended ==> replies.len() <= rank(
            after(job, replies).0,
        ),
    decreases replies.len(),
{
    if replies.len() > 0 {
        lemma_ranks(job, replies.drop_last());
    }
}

/// Every run of `setup` ends, after no more than 9 replies. No reply about what was asked for
/// puts it out of step.
pub proof fn law_runs_end(job: Setup, replies: Seq<ReplyModel>, reply: ReplyModel)
    ensures
        replies.len() > 8 ==> after(job, replies).0 == SetupStep::Ended,
        exchange::answers(after(job, replies).1, reply) ==> after(job, replies.push(reply)).1
            != RequestModel::Finish(OutcomeModel::OutOfStep),
{
    lemma_ranks(job, replies);
    assert(replies.push(reply).drop_last() == replies);
}

/// A dry run prints the section of the profile asked for, with the program and the socket of the
/// run, and an empty line behind it; and that is all.
pub proof fn law_what_is_shown(job: Setup)
    requires
        job.dry_run,
    ensures
        ({
            let program = match job.exe {
                Some(path) => path@,
                None => "aws-nix-cache"@,
            };
            let head = if job.profile@ == "default"@ {
                "[default]"@
            } else {
                "[profile "@ + job.profile@ + "]"@
            };
            let setting = "credential_process = "@ + program + " fetch --socket "@ + job.socket@;
            after(job, Seq::empty()).1 == RequestModel::Print(
                head + seq!['\n'] + setting + seq!['\n', '\n'],
            )
        }),
        after(job, seq![ReplyModel::Done]).1 == RequestModel::Finish(OutcomeModel::Success),
{
    lemma_fresh(job);
    assert(seq![ReplyModel::Done].drop_last() == Seq::<ReplyModel>::empty());
    assert(after(job, Seq::empty()) == begin(job));
}

/// The section, by the parts of the job.
proof fn lemma_fresh(job: Setup)
    ensures
        ({
            let head = profile::header(job.profile@);
            &&& fresh(job) == head + seq!['\n'] + setting(job) + seq!['\n']
            &&& text::terminated(fresh(job)) == head + seq!['\n'] + setting(job) + seq!['\n', '\n']
        }),
{
}

/// Root begins with the directory of the config file, where its path has one, or else with the
/// file. Another user is told to use `sudo`, or a dry run, for the same profile, and the exit code
/// is 1.
pub proof fn law_who_may_begin(job: Setup)
    requires
        !job.dry_run,
    ensures
        job.uid == 0 && job.has_parent ==> after(job, Seq::empty()).1 == RequestModel::Exists(
            Place::ConfigDir,
        ),
        job.uid == 0 && !job.has_parent ==> after(job, Seq::empty()).1 == RequestModel::Exists(
            Place::ConfigFile,
        ),
        job.uid != 0 ==> {
            &&& after(job, Seq::empty()).1 == RequestModel::Warn(
                "error: setup must run as root to write "@ + job.config_file@
                    + "\n\n  sudo aws-nix-cache setup --profile "@ + job.profile@
                    + "\n\nOr preview with --dry-run:\n  aws-nix-cache setup --profile "@
                    + job.profile@ + " --dry-run\n"@,
            )
            &&& after(job, seq![ReplyModel::Done]).1 == RequestModel::Finish(OutcomeModel::Exit(1))
        },
{
    assert(seq![ReplyModel::Done].drop_last() == Seq::<ReplyModel>::empty());
    assert(after(job, Seq::empty()) == begin(job));
}

/// A directory that is there is left alone. One that is missing is created, and closed to everyone
/// but its owner. Then comes the file.
pub proof fn law_missing_directory_is_created(job: Setup, replies: Seq<ReplyModel>)
    requires
        after(job, replies).1 == RequestModel::Exists(Place::ConfigDir),
    ensures
        ({
            let missing = replies.push(ReplyModel::Answer(false));
            let made = missing.push(ReplyModel::Done);
            let closed = made.push(ReplyModel::Done);
            &&& after(job, replies.push(ReplyModel::Answer(true))).1 == RequestModel::Exists(
                Place::ConfigFile,
            )
            &&& after(job, missing).1 == RequestModel::CreateDirs(Place::ConfigDir)
            &&& after(job, made).1 == RequestModel::SetMode(Place::ConfigDir, 0o700)
            &&& after(job, closed).1 == RequestModel::Exists(Place::ConfigFile)
        }),
{
    let missing = replies.push(ReplyModel::Answer(false));
    let made = missing.push(ReplyModel::Done);
    assert(replies.push(ReplyModel::Answer(true)).drop_last() == replies);
    assert(missing.drop_last() == replies);
    assert(after(job, missing).0 == SetupStep::MakingDir);
    assert(made.drop_last() == missing);
    assert(after(job, made).0 == SetupStep::ClosingDir);
    assert(made.push(ReplyModel::Done).drop_last() == made);
}

/// The file that is written holds the section of the profile asked for, with the program and the
/// socket of the run: it alone where there was no file, and otherwise in the file that was read, as
/// an update of that profile puts it there.
pub proof fn law_profile_asked_for_is_written(
    job: Setup,
    replies: Seq<ReplyModel>,
    existing: Seq<char>,
)
    requires
        after(job, replies).1 == RequestModel::Exists(Place::ConfigFile),
    ensures
        ({
            let program = match job.exe {
                Some(path) => path@,
                None => "aws-nix-cache"@,
            };
            let head = if job.profile@ == "default"@ {
                "[default]"@
            } else {
                "[profile "@ + job.profile@ + "]"@
            };
            let setting = "credential_process = "@ + program + " fetch --socket "@ + job.socket@;
            let there = replies.push(ReplyModel::Answer(true));
            &&& after(job, replies.push(ReplyModel::Answer(false))).1 == RequestModel::Write(
                Place::ConfigFile,
                head + seq!['\n'] + setting + seq!['\n'],
            )
            &&& after(job, there).1 == RequestModel::Read(Place::ConfigFile)
            &&& after(job, there.push(ReplyModel::Text(existing))).1 == RequestModel::Write(
                Place::ConfigFile,
                profile::updated(existing, head, setting),
            )
        }),
{
    let there = replies.push(ReplyModel::Answer(true));
    assert(replies.push(ReplyModel::Answer(false)).drop_last() == replies);
    assert(there.drop_last() == replies);
    assert(after(job, there).0 == SetupStep::Reading);
    assert(there.push(ReplyModel::Text(existing)).drop_last() == there);
    lemma_fresh(job);
}

/// Runs for two profiles write different files, where there was none.
pub proof fn law_profiles_are_told_apart(
    one: Setup,
    other: Setup,
    replies: Seq<ReplyModel>,
    replies2: Seq<ReplyModel>,
    file: Seq<char>,
)
    requires
        after(one, replies).1 == RequestModel::Write(Place::ConfigFile, file),
        after(other, replies2).1 == RequestModel::Write(Place::ConfigFile, file),
        replies.last() is Answer,
        replies2.last() is Answer,
        text::one_line(one.profile@),
        text::one_line(other.profile@),
    ensures
        one.profile@ == other.profile@,
{
    law_what_is_written(one, replies, Place::ConfigFile, file);
    law_what_is_written(other, replies2, Place::ConfigFile, file);
    if one.profile@ != other.profile@ {
        profile_laws::lemma_headers_differ(one.profile@, other.profile@);
        profile_laws::lemma_block_lines_of(one.profile@, setting(one));
        profile_laws::lemma_block_lines_of(other.profile@, setting(other));
        let (a, b) = (profile::header(one.profile@), profile::header(other.profile@));
        assert(text::lines(file)[0] == text::terminated(a));
        assert(text::lines(file)[0] == text::terminated(b));
        assert(a == text::terminated(a).drop_last());
        assert(b == text::terminated(b).drop_last());
    }
}

/// Once the file is written, the user is told which one, and whether it was created or which
/// profile was updated in it. Then it is closed to everyone but its owner, the next steps are
/// named, and the command succeeds.
pub proof fn law_written_file_is_reported_and_closed(
    job: Setup,
    replies: Seq<ReplyModel>,
    file: Seq<char>,
)
    requires
        after(job, replies).1 == RequestModel::Write(Place::ConfigFile, file),
    ensures
        ({
            let written = replies.push(ReplyModel::Done);
            let told = written.push(ReplyModel::Done);
            let closed = told.push(ReplyModel::Done);
            &&& after(job, written).1 == RequestModel::Warn(
                if replies.last() is Text {
                    "updated profile ["@ + job.profile@ + "] in "@ + job.config_file@ + "\n"@
                } else {
                    "created "@ + job.config_file@ + "\n"@
                },
            )
            &&& after(job, told).1 == RequestModel::SetMode(Place::ConfigFile, 0o600)
            &&& after(job, closed).1 == RequestModel::Warn(
                "\nnext steps:\n  1. run `aws-nix-cache serve` as your user\n  2. restart nix-daemon: sudo systemctl restart nix-daemon\n"@,
            )
            &&& after(job, closed.push(ReplyModel::Done)).1 == RequestModel::Finish(
                OutcomeModel::Success,
            )
        }),
{
    let written = replies.push(ReplyModel::Done);
    let told = written.push(ReplyModel::Done);
    let closed = told.push(ReplyModel::Done);
    assert(written.drop_last() == replies);
    assert(after(job, written).0 == SetupStep::Reporting);
    assert(told.drop_last() == written);
    assert(after(job, told).0 == SetupStep::ClosingFile);
    assert(closed.drop_last() == told);
    assert(after(job, closed).0 == SetupStep::Advising);
    assert(closed.push(ReplyModel::Done).drop_last() == closed);
}

/// Whatever fails ends the command, with the message of what failed; and a reply to something that
/// was not asked ends it too.
pub proof fn law_failures_end_the_command(
    job: Setup,
    replies: Seq<ReplyModel>,
    reply: ReplyModel,
    message: Seq<char>,
)
    requires
        !(after(job, replies).1 is Finish),
    ensures
        after(job, replies.push(ReplyModel::Failed(message))).1 == RequestModel::Finish(
            OutcomeModel::Failure(message),
        ),
        !exchange::answers(after(job, replies).1, reply) && !(reply is Failed) ==> after(
            job,
            replies.push(reply),
        ).1 == RequestModel::Finish(OutcomeModel::OutOfStep),
{
    assert(replies.push(ReplyModel::Failed(message)).drop_last() == replies);
    assert(replies.push(reply).drop_last() == replies);
}

/// A run of `setup` is its first step, and one more step for each reply.
pub proof fn law_run(job: Setup, replies: Seq<ReplyModel>, reply: ReplyModel)
    ensures
        after(job, Seq::empty()) == begin(job),
        after(job, replies.push(reply)) == next(job, after(job, replies).0, reply),
{
    assert(replies.push(reply).drop_last() == replies);
}

} // verus!
