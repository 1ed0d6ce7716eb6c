//! The command `install-service`: it installs the proxy as a systemd service of the user.
use crate::credentials;
use crate::exchange;
use crate::exchange::{OutcomeModel, Place, Reply, ReplyModel, Request, RequestModel};
use crate::paths;
use crate::profile;
use crate::text;
use crate::unit;
use vstd::prelude::*;
use vstd::string::*;

verus! {

/// What `install-service` is asked for, and by whom.
pub struct Install {
    /// The path of the socket, as it is displayed.
    pub socket: String,
    /// The path of the running executable, where it is known.
    pub exe: Option<String>,
    /// The AWS profile that the proxy is to read.
    pub aws_profile: Option<String>,
    /// Whether to show the unit file in place of installing it.
    pub dry_run: bool,
    /// The home directory of the user, where it is known.
    pub home: Option<String>,
}

/// What `install-service` has asked for last.
#[derive(Clone, Copy, PartialEq, Eq, Structural)]
pub enum InstallStep {
    /// To show the unit file.
    Showing,
    /// To create the directory of the unit file.
    MakingDir,
    /// To write the unit file.
    Writing,
    /// To say what was written.
    Reporting,
    /// To have systemd read its units again.
    Reloading,
    /// To say that it did not.
    Warning,
    /// To have systemd start the service, now and from now on.
    Enabling,
    /// To say what came of it.
    Telling,
    /// To end.
    Ended,
}

/// The message where the home directory is not known.
pub const NO_HOME: &'static str = "HOME not set — cannot determine user systemd path";

/// The unit file that a run of `install-service` is to write.
pub open spec fn unit_of(job: Install) -> Seq<char> {
    unit::unit_text(
        credentials::opt_view(job.exe),
        job.socket@,
        credentials::opt_view(job.aws_profile),
    )
}

/// The arguments that have systemd read its units again.
pub open spec fn reload_args() -> Seq<Seq<char>> {
    seq!["--user"@, "daemon-reload"@]
}

/// The arguments that have systemd start the service.
pub open spec fn enable_args() -> Seq<Seq<char>> {
    seq!["--user"@, "enable"@, "--now"@, "aws-nix-cache.service"@]
}

/// What is said where `systemctl daemon-reload` could not be run.
pub open spec fn reload_warning(error: Seq<char>) -> Seq<char> {
    "warning: systemctl daemon-reload failed: "@ + error
        + "\nrun manually: systemctl --user daemon-reload\n"@
}

/// What is said where the service was not enabled.
pub open spec fn enable_warning(status: Seq<char>) -> Seq<char> {
    "warning: systemctl enable --now exited with "@ + status
        + "\nrun manually: systemctl --user enable --now aws-nix-cache.service\n"@
}

/// What is said where `systemctl enable` could not be run.
pub open spec fn run_warning(error: Seq<char>) -> Seq<char> {
    "warning: could not run systemctl: "@ + error
        + "\nrun manually:\n  systemctl --user daemon-reload\n  systemctl --user enable --now aws-nix-cache.service\n"@
}

/// What `install-service` asks for first.
pub open spec fn begin(job: Install) -> (InstallStep, RequestModel) {
    if job.dry_run {
        (InstallStep::Showing, RequestModel::Print(text::terminated(unit_of(job))))
    } else if job.home is None {
        (InstallStep::Ended, exchange::failure(NO_HOME@))
    } else {
        (InstallStep::MakingDir, RequestModel::CreateDirs(Place::UnitDir))
    }
}

/// What `install-service` asks for after a reply.
pub open spec fn next(job: Install, step: InstallStep, reply: ReplyModel) -> (
    InstallStep,
    RequestModel,
) {
    match (step, reply) {
        (InstallStep::Showing, ReplyModel::Done) => (InstallStep::Ended, exchange::success()),
        (InstallStep::MakingDir, ReplyModel::Done) => (
            InstallStep::Writing,
            RequestModel::Write(Place::UnitFile, unit_of(job)),
        ),
        (InstallStep::Writing, ReplyModel::Done) => match job.home {
            Some(home) => (
                InstallStep::Reporting,
                RequestModel::Warn("wrote "@ + paths::unit_file(home@) + "\n"@),
            ),
            None => (InstallStep::Ended, exchange::failure(NO_HOME@)),
        },
        (InstallStep::Reporting, ReplyModel::Done) => (
            InstallStep::Reloading,
            RequestModel::Systemctl(reload_args()),
        ),
        (InstallStep::Reloading, ReplyModel::Ran(_, _)) => (
            InstallStep::Enabling,
            RequestModel::Systemctl(enable_args()),
        ),
        (InstallStep::Reloading, ReplyModel::Failed(error)) => (
            InstallStep::Warning,
            RequestModel::Warn(reload_warning(error)),
        ),
        (InstallStep::Warning, ReplyModel::Done) => (
            InstallStep::Enabling,
            RequestModel::Systemctl(enable_args()),
        ),
        (InstallStep::Enabling, ReplyModel::Ran(success, status)) => (
            InstallStep::Telling,
            RequestModel::Warn(
                if success {
                    "service enabled and started\n"@
                } else {
                    enable_warning(status)
                },
            ),
        ),
        (InstallStep::Enabling, ReplyModel::Failed(error)) => (
            InstallStep::Telling,
            RequestModel::Warn(run_warning(error)),
        ),
        (InstallStep::Telling, ReplyModel::Done) => (InstallStep::Ended, exchange::success()),
        _ => (InstallStep::Ended, exchange::stop(reply)),
    }
}

/// Where `install-service` stands after these replies.
pub open spec fn after(job: Install, replies: Seq<ReplyModel>) -> (InstallStep, RequestModel)
    decreases replies.len(),
{
    if replies.len() == 0 {
        begin(job)
    } else {
        next(job, after(job, replies.drop_last()).0, replies.last())
    }
}

/// The request to have systemd read its units again.
fn reload() -> (request: Request)
    ensures
        request@ == RequestModel::Systemctl(reload_args()),
{
    let args: Vec<String> = vec!["--user".to_owned(), "daemon-reload".to_owned()];
    assert(text::views(args@) == reload_args());
    Request::Systemctl(args)
}

/// The request to have systemd start the service.
fn enable() -> (request: Request)
    ensures
        request@ == RequestModel::Systemctl(enable_args()),
{
    let args: Vec<String> = vec![
        "--user".to_owned(),
        "enable".to_owned(),
        "--now".to_owned(),
        "aws-nix-cache.service".to_owned(),
    ];
    assert(text::views(args@) == enable_args());
    Request::Systemctl(args)
}

impl Install {
    /// The unit file to write.
    fn unit(&self) -> (unit: String)
        ensures
            unit@ == unit_of(*self),
    {
        let exe = match &self.exe {
            Some(path) => Some(path.as_str()),
            None => None,
        };
        let aws_profile = match &self.aws_profile {
            Some(name) => Some(name.as_str()),
            None => None,
        };
        unit::generate_unit_file(exe, self.socket.as_str(), aws_profile)
    }

    /// What to ask for first.
    pub fn start(&self) -> (first: (InstallStep, Request))
        ensures
            (first.0, first.1@) == begin(*self),
    {
        if self.dry_run {
            let mut shown = self.unit();
            shown.push('\n');
            (InstallStep::Showing, Request::Print(shown))
        } else if self.home.is_none() {
            (InstallStep::Ended, exchange::fail(NO_HOME.to_owned()))
        } else {
            (InstallStep::MakingDir, Request::CreateDirs(Place::UnitDir))
        }
    }

    /// What to ask for after the reply to what `step` asked for.
    pub fn resume(&self, step: InstallStep, reply: Reply) -> (then: (InstallStep, Request))
        ensures
            (then.0, then.1@) == next(*self, step, reply@),
    {
        match (step, reply) {
            (InstallStep::Showing, Reply::Done) => (InstallStep::Ended, exchange::succeed()),
            (InstallStep::MakingDir, Reply::Done) => (
                InstallStep::Writing,
                Request::Write(Place::UnitFile, self.unit()),
            ),
            (InstallStep::Writing, Reply::Done) => {
                match &self.home {
                    Some(home) => {
                        let message = "wrote ".to_owned().concat(
                            paths::unit_file_path(home.as_str()).as_str(),
                        ).concat("\n");
                        (InstallStep::Reporting, Request::Warn(message))
                    },
                    None => (InstallStep::Ended, exchange::fail(NO_HOME.to_owned())),
                }
            },
            (InstallStep::Reporting, Reply::Done) => (InstallStep::Reloading, reload()),
            (InstallStep::Reloading, Reply::Ran(_, _)) => (InstallStep::Enabling, enable()),
            (InstallStep::Reloading, Reply::Failed(error)) => {
                let message = "warning: systemctl daemon-reload failed: ".to_owned().concat(
                    error.as_str(),
                ).concat("\nrun manually: systemctl --user daemon-reload\n");
                (InstallStep::Warning, Request::Warn(message))
            },
            (InstallStep::Warning, Reply::Done) => (InstallStep::Enabling, enable()),
            (InstallStep::Enabling, Reply::Ran(success, status)) => {
                let message = if success {
                    "service enabled and started\n".to_owned()
                } else {
                    "warning: systemctl enable --now exited with ".to_owned().concat(
                        status.as_str(),
                    ).concat(
                        "\nrun manually: systemctl --user enable --now aws-nix-cache.service\n",
                    )
                };
                (InstallStep::Telling, Request::Warn(message))
            },
            (InstallStep::Enabling, Reply::Failed(error)) => {
                let message = "warning: could not run systemctl: ".to_owned().concat(
                    error.as_str(),
                ).concat(
                    "\nrun manually:\n  systemctl --user daemon-reload\n  systemctl --user enable --now aws-nix-cache.service\n",
                );
                (InstallStep::Telling, Request::Warn(message))
            },
            (InstallStep::Telling, Reply::Done) => (InstallStep::Ended, exchange::succeed()),
            (_, reply) => (InstallStep::Ended, exchange::give_up(reply)),
        }
    }
}

/// A dry run shows the unit file, and changes no file and runs nothing whatever it is told.
pub proof fn law_dry_run_changes_nothing(job: Install, replies: Seq<ReplyModel>)
    requires
        job.dry_run,
    ensures
        after(job, Seq::empty()).1 == RequestModel::Print(text::terminated(unit_of(job))),
        !exchange::changes_files(after(job, replies).1),
        !(after(job, replies).1 is Systemctl),
{
    lemma_dry_run(job, replies);
}

proof fn lemma_dry_run(job: Install, replies: Seq<ReplyModel>)
    requires
        job.dry_run,
    ensures
        after(job, replies).0 == InstallStep::Showing || after(job, replies).0
            == InstallStep::Ended,
        !exchange::changes_files(after(job, replies).1),
        !(after(job, replies).1 is Systemctl),
    decreases replies.len(),
{
    if replies.len() > 0 {
        lemma_dry_run(job, replies.drop_last());
    }
}

/// Where the home directory is not known, nothing is installed, and the message says so.
pub proof fn law_no_home_no_service(job: Install, replies: Seq<ReplyModel>)
    requires
        !job.dry_run,
        job.home is None,
    ensures
        after(job, Seq::empty()).1 == exchange::failure(NO_HOME@),
        !exchange::changes_files(after(job, replies).1),
        !(after(job, replies).1 is Systemctl),
{
    lemma_no_home(job, replies);
}

proof fn lemma_no_home(job: Install, replies: Seq<ReplyModel>)
    requires
        !job.dry_run,
        job.home is None,
    ensures
        after(job, replies).0 == InstallStep::Ended,
        !exchange::changes_files(after(job, replies).1),
        !(after(job, replies).1 is Systemctl),
    decreases replies.len(),
{
    if replies.len() > 0 {
        lemma_no_home(job, replies.drop_last());
    }
}

/// The only file that is written is the unit file, and it holds the unit.
pub proof fn law_what_is_written(
    job: Install,
    replies: Seq<ReplyModel>,
    place: Place,
    file: Seq<char>,
)
    requires
        after(job, replies).1 == RequestModel::Write(place, file),
    ensures
        place == Place::UnitFile,
        file == unit_of(job),
{
}

/// Whether `request` was made and done in the course of these replies.
pub open spec fn done(job: Install, replies: Seq<ReplyModel>, request: RequestModel) -> bool {
    exists|k: int|
        0 <= k < replies.len() && replies[k] == ReplyModel::Done && (#[trigger] after(
            job,
            replies.take(k),
        )).1 == request
}

/// `systemctl` is run only once the directory is there and the unit file is written.
pub proof fn law_systemctl_runs_last(job: Install, replies: Seq<ReplyModel>)
    requires
        after(job, replies).1 is Systemctl,
    ensures
        done(job, replies, RequestModel::CreateDirs(Place::UnitDir)),
        done(job, replies, RequestModel::Write(Place::UnitFile, unit_of(job))),
{
    lemma_done(job, replies);
}

/// What was done before a step is done before the next one.
proof fn lemma_done_still(
    job: Install,
    replies: Seq<ReplyModel>,
    request: RequestModel,
)
    requires
        replies.len() > 0,
        done(job, replies.drop_last(), request) || (replies.last() == ReplyModel::Done && after(
            job,
            replies.drop_last(),
        ).1 == request),
    ensures
        done(job, replies, request),
{
    let less = replies.drop_last();
    if done(job, less, request) {
        let k = choose|k: int|
            0 <= k < less.len() && less[k] == ReplyModel::Done && (#[trigger] after(
                job,
                less.take(k),
            )).1 == request;
        assert(replies.take(k) == less.take(k));
        assert(replies[k] == ReplyModel::Done);
        assert(after(job, replies.take(k)).1 == request);
    } else {
        assert(replies.take(replies.len() - 1) == less);
        assert(after(job, replies.take(replies.len() - 1)).1 == request);
    }
}

proof fn lemma_done(job: Install, replies: Seq<ReplyModel>)
    ensures
        ({
            let step = after(job, replies).0;
            let dir = RequestModel::CreateDirs(Place::UnitDir);
            let file = RequestModel::Write(Place::UnitFile, unit_of(job));
            &&& step == InstallStep::MakingDir ==> after(job, replies).1 == dir
            &&& step == InstallStep::Writing ==> after(job, replies).1 == file
            &&& step == InstallStep::Writing ==> done(job, replies, dir)
            &&& step == InstallStep::Reporting || step == InstallStep::Reloading || step
                == InstallStep::Warning || step == InstallStep::Enabling ==> done(
                job,
                replies,
                dir,
            ) && done(job, replies, file)
        }),
    decreases replies.len(),
{
    if replies.len() > 0 {
        let less = replies.drop_last();
        let dir = RequestModel::CreateDirs(Place::UnitDir);
        let file = RequestModel::Write(Place::UnitFile, unit_of(job));
        lemma_done(job, less);
        if done(job, less, dir) || (replies.last() == ReplyModel::Done && after(job, less).1
            == dir) {
            lemma_done_still(job, replies, dir);
        }
        if done(job, less, file) || (replies.last() == ReplyModel::Done && after(job, less).1
            == file) {
            lemma_done_still(job, replies, file);
        }
    }
}

/// The service is enabled only after systemd was asked to read its units again.
pub proof fn law_reload_comes_first(job: Install, replies: Seq<ReplyModel>)
    requires
        after(job, replies).1 == RequestModel::Systemctl(enable_args()),
    ensures
        exists|k: int|
            0 <= k < replies.len() && (#[trigger] after(job, replies.take(k))).1
                == RequestModel::Systemctl(reload_args()),
{
    let less = replies.drop_last();
    assert(less == replies.take(replies.len() - 1));
    assert(enable_args().len() != reload_args().len());
    if after(job, less).0 == InstallStep::Warning {
        assert(less.drop_last() == replies.take(replies.len() - 2));
        assert(after(job, less.drop_last()).0 == InstallStep::Reloading);
        lemma_reloading(job, less.drop_last());
    } else {
        assert(after(job, less).0 == InstallStep::Reloading);
        lemma_reloading(job, less);
    }
}

/// What is asked for at the step that has systemd read its units again.
proof fn lemma_reloading(job: Install, replies: Seq<ReplyModel>)
    ensures
        after(job, replies).0 == InstallStep::Reloading ==> after(job, replies).1
            == RequestModel::Systemctl(reload_args()),
{
}

/// Whatever comes of `systemctl`, the command goes on and succeeds: the user is told what is left
/// to do by hand.
pub proof fn law_systemctl_never_fails_the_command(
    job: Install,
    replies: Seq<ReplyModel>,
    came: ReplyModel,
)
    requires
        after(job, replies).1 is Systemctl,
        came is Ran || came is Failed,
    ensures
        ({
            let then = after(job, replies.push(came)).1;
            ||| then == RequestModel::Systemctl(enable_args())
            ||| then is Warn && (after(job, replies.push(came).push(ReplyModel::Done)).1
                == RequestModel::Systemctl(enable_args()) || after(
                job,
                replies.push(came).push(ReplyModel::Done),
            ).1 == exchange::success())
        }),
{
    let more = replies.push(came);
    assert(more.drop_last() == replies);
    assert(more.push(ReplyModel::Done).drop_last() == more);
}

/// How far a step is from the start, at the most.
spec fn rank(step: InstallStep) -> nat {
    match step {
        InstallStep::Showing => 0,
        InstallStep::MakingDir => 0,
        InstallStep::Writing => 1,
        InstallStep::Reporting => 2,
        InstallStep::Reloading => 3,
        InstallStep::Warning => 4,
        InstallStep::Enabling => 5,
        InstallStep::Telling => 6,
        InstallStep::Ended => 0,
    }
}

/// No step is reached later than its rank says.
proof fn lemma_ranks(job: Install, replies: Seq<ReplyModel>)
    ensures
        after(job, replies).0 != InstallStep::Ended ==> replies.len() <= rank(
            after(job, replies).0,
        ),
    decreases replies.len(),
{
    if replies.len() > 0 {
        lemma_ranks(job, replies.drop_last());
    }
}

/// Every run of `install-service` ends, after no more than 7 replies. No reply about what was asked for
/// puts it out of step.
pub proof fn law_runs_end(job: Install, replies: Seq<ReplyModel>, reply: ReplyModel)
    ensures
        replies.len() > 6 ==> after(job, replies).0 == InstallStep::Ended,
        exchange::answers(after(job, replies).1, reply) ==> after(job, replies.push(reply)).1
            != RequestModel::Finish(OutcomeModel::OutOfStep),
{
    lemma_ranks(job, replies);
    assert(replies.push(reply).drop_last() == replies);
}

/// The unit file starts the running executable, by its path where that is known, with the socket of
/// the run, and with the AWS profile exactly where one is asked for. A dry run prints that file and
/// an empty line; any other run writes it once its directory is there.
pub proof fn law_unit_starts_this_program(job: Install, replies: Seq<ReplyModel>)
    ensures
        ({
            let program = match job.exe {
                Some(path) => path@,
                None => "aws-nix-cache"@,
            };
            let profile = match job.aws_profile {
                Some(name) => " --aws-profile "@ + name@,
                None => ""@,
            };
            let unit =
                "[Unit]\nDescription=AWS credential proxy for Nix daemon\nDocumentation=https://github.com/Dauliac/aws-nix-cache\n\n[Service]\nExecStart="@
                + program + " serve --socket "@ + job.socket@ + profile
                + "\nRestart=always\nRestartSec=5\n\n[Install]\nWantedBy=default.target\n"@;
            &&& job.dry_run ==> after(job, Seq::empty()).1 == RequestModel::Print(
                unit + seq!['\n'],
            )
            &&& after(job, replies).1 is CreateDirs ==> after(
                job,
                replies.push(ReplyModel::Done),
            ).1 == RequestModel::Write(Place::UnitFile, unit)
        }),
{
    lemma_unit_of(job);
    assert(text::terminated(unit_of(job)) == unit_of(job) + seq!['\n']);
    assert(replies.push(ReplyModel::Done).drop_last() == replies);
}

/// The unit file, by the parts of the job.
proof fn lemma_unit_of(job: Install)
    ensures
        ({
            let program = match job.exe {
                Some(path) => path@,
                None => "aws-nix-cache"@,
            };
            let profile = match job.aws_profile {
                Some(name) => " --aws-profile "@ + name@,
                None => ""@,
            };
            let unit =
                "[Unit]\nDescription=AWS credential proxy for Nix daemon\nDocumentation=https://github.com/Dauliac/aws-nix-cache\n\n[Service]\nExecStart="@
                + program + " serve --socket "@ + job.socket@ + profile
                + "\nRestart=always\nRestartSec=5\n\n[Install]\nWantedBy=default.target\n"@;
            unit_of(job) == unit
        }),
{
    let exe = credentials::opt_view(job.exe);
    let name = credentials::opt_view(job.aws_profile);
    reveal_strlit("");
    unit::law_start_command(exe, job.socket@, name);
    unit::law_unit_text(exe, job.socket@, name);
    let program = profile::program(exe);
    let command = program + " serve --socket "@ + job.socket@;
    assert(command + ""@ == command);
    let opening =
        "[Unit]\nDescription=AWS credential proxy for Nix daemon\nDocumentation=https://github.com/Dauliac/aws-nix-cache\n\n[Service]\nExecStart="@;
    let more = match job.aws_profile {
        Some(name) => " --aws-profile "@ + name@,
        None => ""@,
    };
    assert(unit::start_command(exe, job.socket@, name) == command + more);
    assert(opening + (command + more) == opening + program + " serve --socket "@ + job.socket@
        + more);
}

/// A dry run ends well once the unit file is shown. Any other run begins with the directory of the
/// unit file, and where the home directory is not known it ends at once.
pub proof fn law_how_it_begins(job: Install)
    ensures
        job.dry_run ==> after(job, seq![ReplyModel::Done]).1 == RequestModel::Finish(
            OutcomeModel::Success,
        ),
        !job.dry_run && job.home is Some ==> after(job, Seq::empty()).1 == RequestModel::CreateDirs(
            Place::UnitDir,
        ),
        !job.dry_run && job.home is None ==> after(job, Seq::empty()).1 == RequestModel::Finish(
            OutcomeModel::Failure("HOME not set — cannot determine user systemd path"@),
        ),
{
    assert(seq![ReplyModel::Done].drop_last() == Seq::<ReplyModel>::empty());
    assert(after(job, Seq::empty()) == begin(job));
}

/// Once the unit file is written, the user is told where it is, in their home directory; then
/// systemd is asked to read its units again.
pub proof fn law_written_unit_is_reported(
    job: Install,
    replies: Seq<ReplyModel>,
    place: Place,
    file: Seq<char>,
)
    requires
        after(job, replies).1 == RequestModel::Write(place, file),
    ensures
        job.home is Some,
        place == Place::UnitFile,
        ({
            let home = job.home->0@;
            let slash = if home.len() == 0 || home[home.len() - 1] == '/' {
                Seq::empty()
            } else {
                seq!['/']
            };
            let written = replies.push(ReplyModel::Done);
            &&& after(job, written).1 == RequestModel::Warn(
                "wrote "@ + (home + slash + ".config/systemd/user/aws-nix-cache.service"@) + "\n"@,
            )
            &&& after(job, written.push(ReplyModel::Done)).1 == RequestModel::Systemctl(
                seq!["--user"@, "daemon-reload"@],
            )
        }),
{
    let written = replies.push(ReplyModel::Done);
    if job.dry_run {
        lemma_dry_run(job, replies);
    } else if job.home is None {
        lemma_no_home(job, replies);
    }
    paths::law_unit_file(job.home->0@);
    assert(written.drop_last() == replies);
    assert(after(job, written).0 == InstallStep::Reporting);
    assert(written.push(ReplyModel::Done).drop_last() == written);
}

/// Whatever comes of reading the units again, systemd is then asked to start the service, now and
/// from now on. Where `systemctl` could not be run, the user is told so first.
pub proof fn law_service_is_enabled_after_the_reload(
    job: Install,
    replies: Seq<ReplyModel>,
    success: bool,
    status: Seq<char>,
    error: Seq<char>,
)
    requires
        after(job, replies).1 == RequestModel::Systemctl(seq!["--user"@, "daemon-reload"@]),
    ensures
        ({
            let enable = RequestModel::Systemctl(
                seq!["--user"@, "enable"@, "--now"@, "aws-nix-cache.service"@],
            );
            let failed = replies.push(ReplyModel::Failed(error));
            &&& after(job, replies.push(ReplyModel::Ran(success, status))).1 == enable
            &&& after(job, failed).1 == RequestModel::Warn(
                "warning: systemctl daemon-reload failed: "@ + error
                    + "\nrun manually: systemctl --user daemon-reload\n"@,
            )
            &&& after(job, failed.push(ReplyModel::Done)).1 == enable
        }),
{
    let failed = replies.push(ReplyModel::Failed(error));
    assert(seq!["--user"@, "daemon-reload"@].len() == 2);
    assert(enable_args().len() == 4);
    assert(replies.push(ReplyModel::Ran(success, status)).drop_last() == replies);
    assert(failed.drop_last() == replies);
    assert(after(job, failed).0 == InstallStep::Warning);
    assert(failed.push(ReplyModel::Done).drop_last() == failed);
}

/// Where the service was started, the user is told so; where it was not, or `systemctl` could not be
/// run, they are told why, and what to run by hand. The command succeeds either way.
pub proof fn law_user_is_told_what_came_of_it(
    job: Install,
    replies: Seq<ReplyModel>,
    status: Seq<char>,
    error: Seq<char>,
)
    requires
        after(job, replies).1 == RequestModel::Systemctl(
            seq!["--user"@, "enable"@, "--now"@, "aws-nix-cache.service"@],
        ),
    ensures
        ({
            let started = replies.push(ReplyModel::Ran(true, status));
            let refused = replies.push(ReplyModel::Ran(false, status));
            let failed = replies.push(ReplyModel::Failed(error));
            let success = RequestModel::Finish(OutcomeModel::Success);
            &&& after(job, started).1 == RequestModel::Warn("service enabled and started\n"@)
            &&& after(job, refused).1 == RequestModel::Warn(
                "warning: systemctl enable --now exited with "@ + status
                    + "\nrun manually: systemctl --user enable --now aws-nix-cache.service\n"@,
            )
            &&& after(job, failed).1 == RequestModel::Warn(
                "warning: could not run systemctl: "@ + error
                    + "\nrun manually:\n  systemctl --user daemon-reload\n  systemctl --user enable --now aws-nix-cache.service\n"@,
            )
            &&& after(job, started.push(ReplyModel::Done)).1 == success
            &&& after(job, refused.push(ReplyModel::Done)).1 == success
            &&& after(job, failed.push(ReplyModel::Done)).1 == success
        }),
{
    let started = replies.push(ReplyModel::Ran(true, status));
    let refused = replies.push(ReplyModel::Ran(false, status));
    let failed = replies.push(ReplyModel::Failed(error));
    assert(reload_args().len() == 2);
    assert(seq!["--user"@, "enable"@, "--now"@, "aws-nix-cache.service"@].len() == 4);
    assert(started.drop_last() == replies);
    assert(refused.drop_last() == replies);
    assert(failed.drop_last() == replies);
    assert(after(job, started).0 == InstallStep::Telling);
    assert(after(job, refused).0 == InstallStep::Telling);
    assert(after(job, failed).0 == InstallStep::Telling);
    assert(started.push(ReplyModel::Done).drop_last() == started);
    assert(refused.push(ReplyModel::Done).drop_last() == refused);
    assert(failed.push(ReplyModel::Done).drop_last() == failed);
}

/// Whatever fails, apart from `systemctl`, ends the command with the message of what failed; and a
/// reply to something that was not asked ends it too.
pub proof fn law_failures_end_the_command(
    job: Install,
    replies: Seq<ReplyModel>,
    reply: ReplyModel,
    message: Seq<char>,
)
    requires
        !(after(job, replies).1 is Finish),
    ensures
        !(after(job, replies).1 is Systemctl) ==> after(
            job,
            replies.push(ReplyModel::Failed(message)),
        ).1 == RequestModel::Finish(OutcomeModel::Failure(message)),
        !exchange::answers(after(job, replies).1, reply) && !(reply is Failed) ==> after(
            job,
            replies.push(reply),
        ).1 == RequestModel::Finish(OutcomeModel::OutOfStep),
{
    assert(replies.push(ReplyModel::Failed(message)).drop_last() == replies);
    assert(replies.push(reply).drop_last() == replies);
}

/// A run of `install-service` is its first step, and one more step for each reply.
pub proof fn law_run(job: Install, replies: Seq<ReplyModel>, reply: ReplyModel)
    ensures
        after(job, Seq::empty()) == begin(job),
        after(job, replies.push(reply)) == next(job, after(job, replies).0, reply),
{
    assert(replies.push(reply).drop_last() == replies);
}

} // verus!
