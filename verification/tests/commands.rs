use aws_nix_cache::check::{Check, CheckStep};
use aws_nix_cache::connection::{self, ConnectionStep};
use aws_nix_cache::credentials::Credentials;
use aws_nix_cache::exchange::Reply::{Answer, Bytes, Done, Interrupted, Peer, Ran, Text};
use aws_nix_cache::exchange::{Identity, Outcome, Place, Reply, Request};
use aws_nix_cache::expiry::Moment;
use aws_nix_cache::fetch::{judge, Fetch, FetchStep};
use aws_nix_cache::install::{Install, InstallStep};
use aws_nix_cache::refresh::{Refresh, RefreshStep, DEFAULT_INTERVAL, DEFAULT_PROFILE};
use aws_nix_cache::serve::{Door, DoorStep, Serve, ServeStep};
use aws_nix_cache::setup::{Setup, SetupStep};

fn place(place: Place) -> &'static str {
    match place {
        Place::Socket => "socket",
        Place::SocketDir => "socket dir",
        Place::ConfigFile => "config",
        Place::ConfigDir => "config dir",
        Place::UnitFile => "unit",
        Place::UnitDir => "unit dir",
        Place::CredentialsFile => "credentials",
        Place::StagedCredentials => "staged",
    }
}

/// A request in words.
fn words(request: Request) -> String {
    match request {
        Request::Print(s) => format!("print {s}"),
        Request::PrintBytes(b) => format!("print bytes {b:?}"),
        Request::Warn(s) => format!("warn {s}"),
        Request::Exists(p) => format!("exists {}", place(p)),
        Request::CreateDirs(p) => format!("mkdir {}", place(p)),
        Request::SetMode(p, mode) => format!("chmod {} {:o}", place(p), mode),
        Request::Read(p) => format!("read {}", place(p)),
        Request::Write(p, s) => format!("write {} {s}", place(p)),
        Request::WriteWithMode(p, mode, s) => format!("write {} {:o} {s}", place(p), mode),
        Request::Rename(from, to) => format!("rename {} {}", place(from), place(to)),
        Request::Remove(p) => format!("remove {}", place(p)),
        Request::Systemctl(args) => format!("systemctl {}", args.join(" ")),
        Request::Bind => "bind".to_string(),
        Request::LoadConfig(profile) => format!("load {profile:?}"),
        Request::Probe => "probe".to_string(),
        Request::Listen => "listen".to_string(),
        Request::Accept => "accept".to_string(),
        Request::Identify => "identify".to_string(),
        Request::Serve => "serve".to_string(),
        Request::Refuse => "refuse".to_string(),
        Request::FindProvider => "find provider".to_string(),
        Request::FetchCredentials => "fetch credentials".to_string(),
        Request::Respond(r) => format!(
            "respond {} {} {} {:?} {:?}",
            r.version, r.access_key_id, r.secret_access_key, r.session_token, r.expiration
        ),
        Request::Shutdown => "shutdown".to_string(),
        Request::Connect => "connect".to_string(),
        Request::ReadAll => "read all".to_string(),
        Request::GetIdentity => "get identity".to_string(),
        Request::Sleep(secs) => format!("sleep {secs}"),
        Request::Finish(Outcome::Success) => "success".to_string(),
        Request::Finish(Outcome::Failure(s)) => format!("failure {s}"),
        Request::Finish(Outcome::Exit(code)) => format!("exit {code}"),
        Request::Finish(Outcome::OutOfStep) => "out of step".to_string(),
    }
}

/// What is asked for, first and after each reply.
fn trace<S>(
    first: (S, Request),
    replies: Vec<Reply>,
    resume: impl Fn(S, Reply) -> (S, Request),
) -> Vec<String> {
    let (mut step, request) = first;
    let mut asked = vec![words(request)];
    for reply in replies {
        let (next, request) = resume(step, reply);
        step = next;
        asked.push(words(request));
    }
    asked
}

fn failed() -> Reply {
    Reply::Failed("broken".to_string())
}

fn keys(expiry: Option<Moment>) -> Credentials {
    Credentials {
        access_key_id: "AKID".to_string(),
        secret_access_key: "hush".to_string(),
        session_token: None,
        expiry,
    }
}

fn setup_job() -> Setup {
    Setup {
        profile: "nix-cache".to_string(),
        socket: "/s".to_string(),
        exe: Some("/bin/anc".to_string()),
        config_file: "/root/.aws/config".to_string(),
        has_parent: true,
        dry_run: false,
        uid: 0,
    }
}

fn setup(job: Setup, replies: Vec<Reply>) -> Vec<String> {
    trace(job.start(), replies, |step: SetupStep, reply| job.resume(step, reply))
}

const SECTION: &str = "[profile nix-cache]\ncredential_process = /bin/anc fetch --socket /s\n";

const ADVICE: &str = "warn \nnext steps:\n  1. run `aws-nix-cache serve` as your user\n  2. restart nix-daemon: sudo systemctl restart nix-daemon\n";

#[test]
fn setup_creates_directory_and_file() {
    assert_eq!(
        setup(
            setup_job(),
            vec![Answer(false), Done, Done, Answer(false), Done, Done, Done, Done]
        ),
        vec![
            "exists config dir".to_string(),
            "mkdir config dir".to_string(),
            "chmod config dir 700".to_string(),
            "exists config".to_string(),
            format!("write config {SECTION}"),
            "warn created /root/.aws/config\n".to_string(),
            "chmod config 600".to_string(),
            ADVICE.to_string(),
            "success".to_string(),
        ]
    );
}

#[test]
fn setup_updates_a_file_and_spares_its_directory() {
    assert_eq!(
        setup(
            setup_job(),
            vec![Answer(true), Answer(true), Text("[default]\n".to_string()), Done, Done, Done, Done]
        ),
        vec![
            "exists config dir".to_string(),
            "exists config".to_string(),
            "read config".to_string(),
            format!("write config [default]\n\n{SECTION}"),
            "warn updated profile [nix-cache] in /root/.aws/config\n".to_string(),
            "chmod config 600".to_string(),
            ADVICE.to_string(),
            "success".to_string(),
        ]
    );
}

#[test]
fn setup_without_parent_starts_with_the_file() {
    let job = Setup { has_parent: false, ..setup_job() };
    assert_eq!(setup(job, vec![]), vec!["exists config".to_string()]);
}

#[test]
fn setup_dry_run_shows_the_section() {
    let job = Setup { dry_run: true, uid: 1000, ..setup_job() };
    assert_eq!(
        setup(job, vec![Reply::Done]),
        vec![format!("print {SECTION}\n"), "success".to_string()]
    );
}

#[test]
fn setup_is_for_root() {
    let job = Setup { uid: 1000, ..setup_job() };
    assert_eq!(
        setup(job, vec![Reply::Done]),
        vec![
            "warn error: setup must run as root to write /root/.aws/config\n\n  sudo aws-nix-cache setup --profile nix-cache\n\nOr preview with --dry-run:\n  aws-nix-cache setup --profile nix-cache --dry-run\n"
                .to_string(),
            "exit 1".to_string(),
        ]
    );
}

#[test]
fn setup_passes_failures_on() {
    for replies in [
        vec![Answer(false), failed()],
        vec![Answer(false), Done, failed()],
        vec![Answer(true), Answer(true), failed()],
        vec![Answer(true), Answer(false), failed()],
        vec![Answer(true), Answer(false), Done, Done, failed()],
    ] {
        assert_eq!(setup(setup_job(), replies).last().unwrap(), "failure broken");
    }
}

#[test]
fn setup_notices_a_reply_to_something_else() {
    assert_eq!(
        setup(setup_job(), vec![Reply::Peer(0)]).last().unwrap(),
        "out of step"
    );
}

#[test]
fn second_setup_writes_the_same() {
    let asked = setup(
        setup_job(),
        vec![Reply::Answer(true), Reply::Answer(true), Reply::Text("a\n[profile nix-cache]\nb\n[c]".to_string())],
    );
    let file = asked[3].strip_prefix("write config ").unwrap().to_string();
    assert_eq!(file, format!("a\n{SECTION}[c]"));
    let again = setup(
        setup_job(),
        vec![Reply::Answer(true), Reply::Answer(true), Reply::Text(file)],
    );
    assert_eq!(again[3], asked[3]);
}

#[test]
fn later_setup_writes_what_it_would_have_written_first() {
    let existing = "a\r\n[profile nix-cache]\nb\n[c]";
    let later = || Setup { socket: "/t".to_string(), ..setup_job() };
    let read = |job: Setup, file: &str| -> String {
        setup(job, vec![Answer(true), Answer(true), Text(file.to_string())])[3].clone()
    };
    let first = read(setup_job(), existing);
    let file = first.strip_prefix("write config ").unwrap();
    assert_eq!(read(later(), file), read(later(), existing));
    let made = setup(later(), vec![Answer(true), Answer(false)])[2].clone();
    assert_eq!(read(later(), SECTION), made);
}

fn install_job() -> Install {
    Install {
        socket: "/s".to_string(),
        exe: None,
        aws_profile: Some("work".to_string()),
        dry_run: false,
        home: Some("/home/me".to_string()),
    }
}

fn install(job: Install, replies: Vec<Reply>) -> Vec<String> {
    trace(job.start(), replies, |step: InstallStep, reply| job.resume(step, reply))
}

const UNIT: &str = "[Unit]\nDescription=AWS credential proxy for Nix daemon\nDocumentation=https://github.com/Dauliac/aws-nix-cache\n\n[Service]\nExecStart=aws-nix-cache serve --socket /s --aws-profile work\nRestart=always\nRestartSec=5\n\n[Install]\nWantedBy=default.target\n";

#[test]
fn install_writes_and_enables_the_unit() {
    assert_eq!(
        install(
            install_job(),
            vec![Done, Done, Done, Ran(false, "exit status: 1".to_string()), Ran(true, String::new()), Done]
        ),
        vec![
            "mkdir unit dir".to_string(),
            format!("write unit {UNIT}"),
            "warn wrote /home/me/.config/systemd/user/aws-nix-cache.service\n".to_string(),
            "systemctl --user daemon-reload".to_string(),
            "systemctl --user enable --now aws-nix-cache.service".to_string(),
            "warn service enabled and started\n".to_string(),
            "success".to_string(),
        ]
    );
}

#[test]
fn install_warns_where_systemctl_cannot_be_run() {
    assert_eq!(
        install(install_job(), vec![Done, Done, Done, failed(), Done, failed(), Done])[4..],
        [
            "warn warning: systemctl daemon-reload failed: broken\nrun manually: systemctl --user daemon-reload\n",
            "systemctl --user enable --now aws-nix-cache.service",
            "warn warning: could not run systemctl: broken\nrun manually:\n  systemctl --user daemon-reload\n  systemctl --user enable --now aws-nix-cache.service\n",
            "success",
        ]
    );
}

#[test]
fn install_warns_where_the_service_is_not_enabled() {
    assert_eq!(
        install(
            install_job(),
            vec![Done, Done, Done, Ran(true, String::new()), Ran(false, "exit status: 5".to_string()), Done]
        )[5..],
        [
            "warn warning: systemctl enable --now exited with exit status: 5\nrun manually: systemctl --user enable --now aws-nix-cache.service\n",
            "success",
        ]
    );
}

#[test]
fn install_dry_run_shows_the_unit() {
    let job = Install { dry_run: true, home: None, ..install_job() };
    assert_eq!(
        install(job, vec![Reply::Done]),
        vec![format!("print {UNIT}\n"), "success".to_string()]
    );
}

#[test]
fn install_needs_a_home() {
    let job = Install { home: None, ..install_job() };
    assert_eq!(
        install(job, vec![]),
        vec!["failure HOME not set — cannot determine user systemd path".to_string()]
    );
}

#[test]
fn install_passes_file_failures_on() {
    assert_eq!(install(install_job(), vec![failed()])[1], "failure broken");
    assert_eq!(install(install_job(), vec![Reply::Done, failed()])[2], "failure broken");
}

fn serve(has_parent: bool, replies: Vec<Reply>) -> Vec<String> {
    let job = Serve { has_parent, aws_profile: Some("work".to_string()) };
    trace(job.start(), replies, |step: ServeStep, reply| job.resume(step, reply))
}

#[test]
fn serve_closes_directory_and_socket_before_it_listens() {
    assert_eq!(
        serve(
            true,
            vec![Done, Done, Answer(true), Done, Done, Done, Done, failed(), Interrupted, failed()]
        ),
        vec![
            "mkdir socket dir",
            "chmod socket dir 700",
            "exists socket",
            "remove socket",
            "bind",
            "chmod socket 660",
            "load Some(\"work\")",
            "probe",
            "listen",
            "remove socket",
            "success",
        ]
    );
}

#[test]
fn serve_without_parent_or_stale_socket() {
    assert_eq!(
        serve(false, vec![Answer(false), Done]),
        vec!["exists socket", "bind", "chmod socket 660"]
    );
}

#[test]
fn serve_without_profile_loads_the_usual_one() {
    let job = Serve { has_parent: false, aws_profile: None };
    assert_eq!(
        trace(
            job.start(),
            vec![Answer(false), Done, Done],
            |step: ServeStep, reply| job.resume(step, reply)
        )
        .last()
        .unwrap(),
        "load None"
    );
}

#[test]
fn serve_fails_where_listening_fails() {
    assert_eq!(
        serve(false, vec![Answer(false), Done, Done, Done, Done, failed()]).last().unwrap(),
        "failure broken"
    );
    assert_eq!(serve(true, vec![failed()])[1], "failure broken");
}

#[test]
fn door_admits_root_and_owner() {
    let door = Door { owner: 1000 };
    assert!(door.admits(0));
    assert!(door.admits(1000));
    assert!(!door.admits(1001));
    assert!(!door.admits(u32::MAX));
}

#[test]
fn door_turns_others_away_and_goes_on() {
    let door = Door { owner: 1000 };
    assert_eq!(
        trace(
            door.start(),
            vec![Done, Peer(1000), Done, Done, Peer(7), Done, Done, Peer(0), Done, failed()],
            |step: DoorStep, reply| door.resume(step, reply)
        ),
        vec![
            "accept", "identify", "serve", "accept", "identify", "refuse", "accept", "identify",
            "serve", "accept", "failure broken",
        ]
    );
}

#[test]
fn door_outlives_a_client_that_could_not_be_answered() {
    let door = Door { owner: 1000 };
    assert_eq!(
        trace(
            door.start(),
            vec![Done, Peer(0), failed(), Done, Peer(7), failed(), Done, failed()],
            |step: DoorStep, reply| door.resume(step, reply)
        ),
        vec![
            "accept", "identify", "serve", "accept", "identify", "refuse", "accept", "identify",
            "failure broken",
        ]
    );
}

fn connection(replies: Vec<Reply>) -> Vec<String> {
    trace(connection::start(), replies, |step: ConnectionStep, reply| {
        connection::resume(step, reply)
    })
}

#[test]
fn connection_sends_the_credentials() {
    assert_eq!(
        connection(vec![
            Answer(true),
            Reply::Credentials(keys(Some(Moment::SinceEpoch(60)))),
            Done,
            Done
        ]),
        vec![
            "find provider",
            "fetch credentials",
            "respond 1 AKID hush None Some(\"1970-01-01T00:01:00Z\")",
            "shutdown",
            "success",
        ]
    );
}

#[test]
fn connection_fails_without_credentials() {
    assert_eq!(
        connection(vec![Reply::Answer(false)])[1],
        "failure no credentials provider configured"
    );
    assert_eq!(
        connection(vec![Reply::Answer(true), failed()])[2],
        "failure credential error: broken"
    );
}

fn fetch(replies: Vec<Reply>) -> Vec<String> {
    let job = Fetch { socket: "/s".to_string() };
    trace(job.start(), replies, |step: FetchStep, reply| job.resume(step, reply))
}

#[test]
fn fetch_prints_what_was_sent() {
    assert_eq!(
        fetch(vec![Done, Bytes(b"{\"Version\":1}".to_vec()), Done, Done]),
        vec![
            "connect".to_string(),
            "read all".to_string(),
            format!("print bytes {:?}", b"{\"Version\":1}"),
            "print \n".to_string(),
            "success".to_string(),
        ]
    );
}

#[test]
fn fetch_refuses_what_is_not_json() {
    assert_eq!(
        fetch(vec![Done, Bytes(b"oops".to_vec())])[2],
        "failure invalid response from server: expected value at line 1 column 1"
    );
    assert_eq!(
        fetch(vec![Done, Bytes(b"{} x".to_vec())])[2],
        "failure invalid response from server: trailing characters at line 1 column 4"
    );
    assert_eq!(
        fetch(vec![Done, Bytes(vec![])])[2],
        "failure invalid response from server: EOF while parsing a value at line 1 column 0"
    );
}

#[test]
fn fetch_asks_whether_the_proxy_runs() {
    assert_eq!(
        fetch(vec![failed()])[1],
        "failure cannot connect to /s: broken\nIs `aws-nix-cache serve` running?"
    );
    assert_eq!(fetch(vec![Reply::Done, failed()])[2], "failure broken");
}

#[test]
fn fetch_judges_by_the_error() {
    assert_eq!(words(judge(vec![1, 2], None).1), "print bytes [1, 2]");
    assert_eq!(
        words(judge(vec![1, 2], Some("why".to_string())).1),
        "failure invalid response from server: why"
    );
}

/// What is asked for once the configuration is loaded.
fn check(replies: Vec<Reply>) -> Vec<String> {
    let job = Check { aws_profile: Some("work".to_string()) };
    let mut all = vec![Done];
    all.extend(replies);
    let mut asked = trace(job.start(), all, |step: CheckStep, reply| job.resume(step, reply));
    assert_eq!(asked.remove(0), "load Some(\"work\")");
    asked
}

#[test]
fn check_starts_with_the_profile() {
    let job = Check { aws_profile: None };
    assert_eq!(
        trace(job.start(), vec![Reply::Done], |step: CheckStep, reply| job.resume(step, reply)),
        vec!["load None", "get identity"]
    );
    assert_eq!(
        trace(job.start(), vec![failed()], |step: CheckStep, reply| job.resume(step, reply))[1],
        "failure broken"
    );
}

fn caller() -> Reply {
    Reply::Identity(Identity {
        account: Some("123".to_string()),
        arn: None,
        user_id: Some("ME".to_string()),
    })
}

const REPORT: &str = "print AWS credentials valid:\n  Account: 123\n  Arn:     unknown\n  UserId:  ME\n";

#[test]
fn check_reports_caller_and_expiry() {
    assert_eq!(
        check(vec![
            caller(),
            Done,
            Answer(true),
            Reply::Credentials(keys(Some(Moment::SinceEpoch(60)))),
            Done
        ]),
        vec![
            "get identity",
            REPORT,
            "find provider",
            "fetch credentials",
            "print   Expires: 1970-01-01T00:01:00Z\n",
            "success",
        ]
    );
}

#[test]
fn check_needs_no_expiry() {
    assert_eq!(check(vec![caller(), Done, Answer(false)])[3], "success");
    assert_eq!(check(vec![caller(), Done, Answer(true), failed()])[4], "success");
    assert_eq!(
        check(vec![caller(), Done, Answer(true), Reply::Credentials(keys(None))])[4],
        "success"
    );
}

#[test]
fn check_fails_without_a_caller() {
    assert_eq!(
        check(vec![failed()])[1],
        "failure failed to validate AWS credentials: broken"
    );
}

fn refresh(replies: Vec<Reply>) -> Vec<String> {
    let job = Refresh { profile: DEFAULT_PROFILE.to_string(), interval: DEFAULT_INTERVAL };
    trace(job.start(), replies, |step: RefreshStep, reply| job.resume(step, reply))
}

#[test]
fn refresh_swaps_a_complete_file_in() {
    assert_eq!(
        refresh(vec![Answer(true), Reply::Credentials(keys(None)), Done, Done, Done]),
        vec![
            "find provider",
            "fetch credentials",
            "write staged 600 [nix-cache]\naws_access_key_id = AKID\naws_secret_access_key = hush\n",
            "rename staged credentials",
            "sleep 300",
            "find provider",
        ]
    );
}

#[test]
fn refresh_tries_again_after_a_failure() {
    assert_eq!(refresh(vec![Answer(false), Done])[1..], ["sleep 300", "find provider"]);
    assert_eq!(refresh(vec![Answer(true), failed()])[2], "sleep 300");
    assert_eq!(
        refresh(vec![Answer(true), Reply::Credentials(keys(None)), failed()])[3],
        "sleep 300"
    );
    assert_eq!(
        refresh(vec![Answer(true), Reply::Credentials(keys(None)), Done, failed()])[4],
        "sleep 300"
    );
}
