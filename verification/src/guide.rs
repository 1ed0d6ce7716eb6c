//! The instructions that `print-env` gives.
use crate::credentials;
use crate::exchange::{Place, ReplyModel, RequestModel};
use crate::profile;
use crate::setup;
use crate::setup::Setup;
use crate::text;
use crate::unit;
use vstd::prelude::*;
use vstd::string::*;

verus! {

/// The profile that the instructions name.
pub const PROFILE: &'static str = "nix-cache";

/// What stands before the sample section of the daemon's config file.
pub const OPENING: &'static str = "\
    # ── Quick setup (any distro: Ubuntu, Fedora, NixOS, ...) ───────\n\
    #\n\
    # 1. Configure root's AWS config (matches ?profile= in substituter URL):\n\
    #    sudo aws-nix-cache setup --profile nix-cache\n\
    #\n\
    # 2. Start the proxy as your user:\n\
    #    aws-nix-cache serve\n\
    #\n\
    # 3. Restart the daemon:\n\
    #    sudo systemctl restart nix-daemon\n\
    \n\
    # ── /root/.aws/config (generated by `setup`) ───────────────────\n";

/// What stands between that section and the command of the sample service.
pub const MIDDLE: &'static str = "\
    \n\
    # ── /etc/nix/nix.conf or /etc/nix/conf.d/substituters.conf ─────\n\
    # extra-substituters = s3://YOUR-BUCKET?region=REGION&profile=nix-cache\n\
    # extra-trusted-public-keys = YOUR-KEY\n\
    \n\
    # ── NixOS / system-manager module ──────────────────────────────\n\
    # imports = [ inputs.aws-nix-cache.nixosModules.default ];\n\
    #\n\
    # services.aws-nix-cache = {\n\
    #   enable = true;\n\
    #   package = inputs.aws-nix-cache.packages.${system}.default;\n\
    #   user = \"your-username\";\n\
    #   profile = \"nix-cache\";\n\
    #   substituters = [ \"s3://bucket?region=eu-west-3&profile=nix-cache\" ];\n\
    #   trustedPublicKeys = [ \"cache:AAAA...=\" ];\n\
    # };\n\
    \n\
    # ── systemd user service (optional, for auto-start) ────────────\n\
    # ~/.config/systemd/user/aws-nix-cache.service\n\
    # [Unit]\n\
    # Description=AWS credential proxy for Nix daemon\n\
    #\n";

/// What makes a line a comment.
pub const COMMENT: &'static str = "# ";

/// What stands behind that command.
pub const CLOSING: &'static str = "\
    # Restart=always\n\
    # RestartSec=5\n\
    #\n\
    # [Install]\n\
    # WantedBy=default.target\n";

/// What the instructions hold behind the sample section.
pub open spec fn remainder(exe: Option<Seq<char>>, socket: Seq<char>) -> Seq<char> {
    MIDDLE@ + COMMENT@ + unit::HEADING@ + COMMENT@ + unit::command_line(exe, socket, None)
        + CLOSING@
}

/// The instructions: they show the section that `setup` writes for the profile `nix-cache`, and
/// the command that starts the proxy.
pub open spec fn instructions(exe: Option<Seq<char>>, socket: Seq<char>) -> Seq<char> {
    OPENING@ + profile::block(profile::header(PROFILE@), profile::process_line(exe, socket))
        + remainder(exe, socket)
}

/// The setup instructions for the proxy at `socket`.
pub fn setup_instructions(exe: Option<&str>, socket: &str) -> (guide: String)
    ensures
        guide@ == instructions(profile::opt_view(exe), socket@),
{
    OPENING.to_owned().concat(
        profile::generate_aws_config(PROFILE, exe, socket).as_str(),
    ).concat(MIDDLE).concat(COMMENT).concat(unit::HEADING).concat(COMMENT).concat(
        unit::exec_start_line(exe, socket, None).as_str(),
    ).concat(CLOSING)
}

/// The instructions show what `setup` writes to a new file for the profile that they name.
pub proof fn law_shows_what_setup_writes(
    job: Setup,
    replies: Seq<ReplyModel>,
    place: Place,
    file: Seq<char>,
)
    requires
        job.profile@ == PROFILE@,
        setup::after(job, replies).1 == RequestModel::Write(place, file),
        replies.last() is Answer,
    ensures
        ({
            let exe = credentials::opt_view(job.exe);
            instructions(exe, job.socket@) == OPENING@ + file + remainder(exe, job.socket@)
        }),
{
    setup::law_what_is_written(job, replies, place, file);
}

/// The instructions show the `ExecStart` line of the unit that `install-service` writes where no
/// AWS profile is named, as a comment on a line of its own.
pub proof fn law_shows_the_command_of_the_unit(exe: Option<Seq<char>>, socket: Seq<char>)
    requires
        text::one_line(unit::start_command(exe, socket, None)),
    ensures
        ({
            let shown = text::lines(
                OPENING@ + profile::block(
                    profile::header(PROFILE@),
                    profile::process_line(exe, socket),
                ) + MIDDLE@ + COMMENT@ + unit::HEADING@,
            );
            let all = text::lines(instructions(exe, socket));
            let unit = text::lines(unit::unit_text(exe, socket, None));
            all == shown.push(COMMENT@ + unit[unit::command_at()]) + text::lines(CLOSING@)
        }),
{
    reveal_strlit("# ");
    let section = profile::block(profile::header(PROFILE@), profile::process_line(exe, socket));
    let before = OPENING@ + section + MIDDLE@ + COMMENT@ + unit::HEADING@;
    let line = unit::command_line(exe, socket, None);
    assert(text::whole(before)) by {
        reveal_strlit("[Service]\n");
        assert(before.last() == unit::HEADING@.last());
    }
    unit::law_lines_of_a_unit(exe, socket, None);
    unit::lemma_command_line(exe, socket, None);
    let shown = COMMENT@ + line;
    assert(text::single(shown)) by {
        assert(shown.drop_last() == COMMENT@ + line.drop_last());
    }
    text::lemma_lines_one(shown);
    text::lemma_lines_add(before, shown);
    assert((before + shown).last() == '\n');
    text::lemma_lines_add(before + shown, CLOSING@);
    assert(instructions(exe, socket) == before + shown + CLOSING@);
    assert(text::lines(before) + seq![shown] == text::lines(before).push(shown));
}

/// The instructions name the program and the socket of the user in both places: in the section for
/// the daemon, and in the command of the service. All else is the same for everyone.
pub proof fn law_instructions(exe: Option<Seq<char>>, socket: Seq<char>)
    ensures
        ({
            let program = match exe {
                Some(path) => path,
                None => "aws-nix-cache"@,
            };
            instructions(exe, socket) == OPENING@ + "[profile nix-cache]\ncredential_process = "@
                + program + " fetch --socket "@ + socket + "\n"@ + MIDDLE@
                + "# [Service]\n# ExecStart="@ + program + " serve --socket "@ + socket + "\n"@
                + CLOSING@
        }),
{
    reveal_strlit("nix-cache");
    reveal_strlit("default");
    reveal_strlit("[profile ");
    reveal_strlit("]");
    reveal_strlit("credential_process = ");
    reveal_strlit("[profile nix-cache]\ncredential_process = ");
    reveal_strlit("\n");
    reveal_strlit("# ");
    reveal_strlit("[Service]\n");
    reveal_strlit("ExecStart=");
    reveal_strlit("# [Service]\n# ExecStart=");
    assert("nix-cache"@.len() != "default"@.len());
    let program = profile::program(exe);
    let fetching = program + " fetch --socket "@ + socket;
    let serving = program + " serve --socket "@ + socket;
    assert(profile::block(profile::header(PROFILE@), profile::process_line(exe, socket))
        == "[profile nix-cache]\ncredential_process = "@ + fetching + "\n"@);
    assert(COMMENT@ + unit::HEADING@ + COMMENT@ + unit::command_line(exe, socket, None)
        == "# [Service]\n# ExecStart="@ + serving + "\n"@);
    assert(remainder(exe, socket) == MIDDLE@ + ("# [Service]\n# ExecStart="@ + serving + "\n"@)
        + CLOSING@);
}

} // verus!
