//! The systemd unit that starts the proxy.
use crate::profile;
use crate::text;
use vstd::prelude::*;
use vstd::string::*;

verus! {

/// What stands before the section of the command in the unit file.
pub const OPENING: &'static str = "\
    [Unit]\n\
    Description=AWS credential proxy for Nix daemon\n\
    Documentation=https://github.com/Dauliac/aws-nix-cache\n\
    \n";

/// What opens that section.
pub const HEADING: &'static str = "[Service]\n";

/// The key that the command stands behind.
pub const KEY: &'static str = "ExecStart=";

/// What stands behind the command in the unit file.
pub const CLOSING: &'static str = "\
    Restart=always\n\
    RestartSec=5\n\
    \n\
    [Install]\n\
    WantedBy=default.target\n";

/// The command that starts the proxy.
pub open spec fn start_command(
    exe: Option<Seq<char>>,
    socket: Seq<char>,
    aws_profile: Option<Seq<char>>,
) -> Seq<char> {
    let command = profile::program(exe) + " serve --socket "@ + socket;
    match aws_profile {
        Some(name) => command + " --aws-profile "@ + name,
        None => command,
    }
}

/// The line of the unit file that holds the command.
pub open spec fn command_line(
    exe: Option<Seq<char>>,
    socket: Seq<char>,
    aws_profile: Option<Seq<char>>,
) -> Seq<char> {
    text::terminated(KEY@ + start_command(exe, socket, aws_profile))
}

/// The unit file.
pub open spec fn unit_text(
    exe: Option<Seq<char>>,
    socket: Seq<char>,
    aws_profile: Option<Seq<char>>,
) -> Seq<char> {
    OPENING@ + HEADING@ + command_line(exe, socket, aws_profile) + CLOSING@
}

/// The command that starts the proxy at `socket`, with the user's AWS profile where one is given.
pub fn serve_command(exe: Option<&str>, socket: &str, aws_profile: Option<&str>) -> (command:
    String)
    ensures
        command@ == start_command(
            profile::opt_view(exe),
            socket@,
            profile::opt_view(aws_profile),
        ),
{
    let command = profile::program_name(exe).concat(" serve --socket ").concat(socket);
    match aws_profile {
        Some(name) => command.concat(" --aws-profile ").concat(name),
        None => command,
    }
}

/// The line of the unit file that starts the proxy at `socket`.
pub fn exec_start_line(exe: Option<&str>, socket: &str, aws_profile: Option<&str>) -> (line: String)
    ensures
        line@ == command_line(profile::opt_view(exe), socket@, profile::opt_view(aws_profile)),
{
    let mut line = KEY.to_owned().concat(serve_command(exe, socket, aws_profile).as_str());
    line.push('\n');
    line
}

/// The unit file of the user service that runs the proxy at `socket`.
pub fn generate_unit_file(exe: Option<&str>, socket: &str, aws_profile: Option<&str>) -> (unit:
    String)
    ensures
        unit@ == unit_text(profile::opt_view(exe), socket@, profile::opt_view(aws_profile)),
{
    OPENING.to_owned().concat(HEADING).concat(
        exec_start_line(exe, socket, aws_profile).as_str(),
    ).concat(CLOSING)
}

/// How many lines stand before that of the command.
pub open spec fn command_at() -> int {
    text::lines(OPENING@ + HEADING@).len() as int
}

/// The line of the command is one line, as long as the command is.
pub proof fn lemma_command_line(
    exe: Option<Seq<char>>,
    socket: Seq<char>,
    aws_profile: Option<Seq<char>>,
)
    requires
        text::one_line(start_command(exe, socket, aws_profile)),
    ensures
        text::single(command_line(exe, socket, aws_profile)),
{
    reveal_strlit("ExecStart=");
    let line = KEY@ + start_command(exe, socket, aws_profile);
    assert(command_line(exe, socket, aws_profile).drop_last() == line);
}

/// The lines of a unit file: only that of the command depends on what the unit is for.
pub proof fn law_lines_of_a_unit(
    exe: Option<Seq<char>>,
    socket: Seq<char>,
    aws_profile: Option<Seq<char>>,
)
    requires
        text::one_line(start_command(exe, socket, aws_profile)),
    ensures
        text::lines(unit_text(exe, socket, aws_profile)) == text::lines(
            OPENING@ + HEADING@,
        ).push(command_line(exe, socket, aws_profile)) + text::lines(CLOSING@),
{
    reveal_strlit("[Service]\n");
    let head = OPENING@ + HEADING@;
    let line = command_line(exe, socket, aws_profile);
    assert(head.last() == HEADING@.last());
    lemma_command_line(exe, socket, aws_profile);
    text::lemma_lines_one(line);
    text::lemma_lines_add(head, line);
    text::lemma_lines_add(head + line, CLOSING@);
    assert(text::lines(head) + seq![line] == text::lines(head).push(line));
}

/// Two unit files differ in the `ExecStart` line, and in no other.
pub proof fn law_units_differ_in_one_line(
    exe: Option<Seq<char>>,
    socket: Seq<char>,
    aws_profile: Option<Seq<char>>,
    exe2: Option<Seq<char>>,
    socket2: Seq<char>,
    aws_profile2: Option<Seq<char>>,
)
    requires
        text::one_line(start_command(exe, socket, aws_profile)),
        text::one_line(start_command(exe2, socket2, aws_profile2)),
    ensures
        ({
            let one = text::lines(unit_text(exe, socket, aws_profile));
            let other = text::lines(unit_text(exe2, socket2, aws_profile2));
            let at = command_at();
            &&& 0 <= at < one.len()
            &&& one.len() == other.len()
            &&& one[at] == command_line(exe, socket, aws_profile)
            &&& other[at] == command_line(exe2, socket2, aws_profile2)
            &&& forall|i: int| 0 <= i < one.len() && i != at ==> one[i] == other[i]
        }),
{
    law_lines_of_a_unit(exe, socket, aws_profile);
    law_lines_of_a_unit(exe2, socket2, aws_profile2);
}

/// The command calls the running executable by its path, and the program by its bare name only
/// where that is not known. It names the socket, and the AWS profile exactly where there is one.
pub proof fn law_start_command(
    exe: Option<Seq<char>>,
    socket: Seq<char>,
    aws_profile: Option<Seq<char>>,
)
    ensures
        ({
            let program = match exe {
                Some(path) => path,
                None => "aws-nix-cache"@,
            };
            let command = program + " serve --socket "@ + socket;
            &&& aws_profile is None ==> start_command(exe, socket, aws_profile) == command
            &&& aws_profile matches Some(name) ==> start_command(exe, socket, aws_profile)
                == command + " --aws-profile "@ + name
        }),
{
}

/// The unit file, with the command in its place.
pub proof fn law_unit_text(
    exe: Option<Seq<char>>,
    socket: Seq<char>,
    aws_profile: Option<Seq<char>>,
)
    ensures
        unit_text(exe, socket, aws_profile)
            == "[Unit]\nDescription=AWS credential proxy for Nix daemon\nDocumentation=https://github.com/Dauliac/aws-nix-cache\n\n[Service]\nExecStart="@
            + start_command(exe, socket, aws_profile)
            + "\nRestart=always\nRestartSec=5\n\n[Install]\nWantedBy=default.target\n"@,
{
    reveal_strlit(
        "[Unit]\nDescription=AWS credential proxy for Nix daemon\nDocumentation=https://github.com/Dauliac/aws-nix-cache\n\n",
    );
    reveal_strlit("[Service]\n");
    reveal_strlit("ExecStart=");
    reveal_strlit("Restart=always\nRestartSec=5\n\n[Install]\nWantedBy=default.target\n");
    reveal_strlit(
        "[Unit]\nDescription=AWS credential proxy for Nix daemon\nDocumentation=https://github.com/Dauliac/aws-nix-cache\n\n[Service]\nExecStart=",
    );
    reveal_strlit("\nRestart=always\nRestartSec=5\n\n[Install]\nWantedBy=default.target\n");
}

} // verus!
