//! Where the program's files are.
use crate::profile;
use crate::text;
use vstd::prelude::*;
use vstd::string::*;

verus! {

/// The path `name`, taken from the directory `base`: `name` itself where it is absolute, else the
/// two with one `/` between them.
pub open spec fn under(base: Seq<char>, name: Seq<char>) -> Seq<char> {
    if name.len() > 0 && name[0] == '/' {
        name
    } else if base.len() == 0 || base.last() == '/' {
        base + name
    } else {
        base.push('/') + name
    }
}

/// The socket's path, by the user's runtime directory, or else by their home directory.
pub open spec fn default_socket(
    runtime_dir: Option<Seq<char>>,
    home: Option<Seq<char>>,
) -> Seq<char> {
    match (runtime_dir, home) {
        (Some(dir), _) => under(under(dir, "aws-nix-cache"@), "credentials.sock"@),
        (None, Some(dir)) => under(under(dir, ".aws-nix-cache"@), "credentials.sock"@),
        (None, None) => under(under("/tmp"@, ".aws-nix-cache"@), "credentials.sock"@),
    }
}

/// The directory of the user's systemd units.
pub open spec fn unit_dir(home: Seq<char>) -> Seq<char> {
    under(home, ".config/systemd/user"@)
}

/// The path of the service's unit file.
pub open spec fn unit_file(home: Seq<char>) -> Seq<char> {
    under(unit_dir(home), "aws-nix-cache.service"@)
}

/// The path `name`, taken from the directory `base`.
pub fn join_path(base: &str, name: &str) -> (path: String)
    ensures
        path@ == under(base@, name@),
{
    if !name.is_empty() && name.get_char(0) == '/' {
        return name.to_owned();
    }
    let chars = text::chars_of(base);
    let mut path = base.to_owned();
    if chars.len() > 0 && chars[chars.len() - 1] != '/' {
        path.push('/');
    }
    path.append(name);
    path
}

/// The path of the socket where none is asked for. `runtime_dir` is the value of
/// `XDG_RUNTIME_DIR` (on systemd a directory that only its user can enter), and `home` that of
/// `HOME`, where they are set.
pub fn default_socket_path(runtime_dir: Option<&str>, home: Option<&str>) -> (path: String)
    ensures
        path@ == default_socket(profile::opt_view(runtime_dir), profile::opt_view(home)),
{
    match runtime_dir {
        Some(dir) => join_path(join_path(dir, "aws-nix-cache").as_str(), "credentials.sock"),
        None => {
            let dir = match home {
                Some(dir) => dir,
                None => "/tmp",
            };
            join_path(join_path(dir, ".aws-nix-cache").as_str(), "credentials.sock")
        },
    }
}

/// The directory of the units of the user whose home is `home`.
pub fn unit_dir_path(home: &str) -> (path: String)
    ensures
        path@ == unit_dir(home@),
{
    join_path(home, ".config/systemd/user")
}

/// The path of the service's unit file, for the user whose home is `home`.
pub fn unit_file_path(home: &str) -> (path: String)
    ensures
        path@ == unit_file(home@),
{
    join_path(unit_dir_path(home).as_str(), "aws-nix-cache.service")
}

/// An absolute path stays as it is. Any other one goes behind the directory, with one `/` between
/// the two; a directory that ends in `/`, or has no name, needs no other.
pub proof fn law_under(base: Seq<char>, name: Seq<char>)
    ensures
        name.len() > 0 && name[0] == '/' ==> under(base, name) == name,
        !(name.len() > 0 && name[0] == '/') ==> under(base, name) == base + (if base.len() == 0
            || base[base.len() - 1] == '/' {
            Seq::empty()
        } else {
            seq!['/']
        }) + name,
{
}

/// What is put between a directory and a name in it.
pub open spec fn slash(base: Seq<char>) -> Seq<char> {
    if base.len() == 0 || base[base.len() - 1] == '/' {
        Seq::empty()
    } else {
        seq!['/']
    }
}

/// The socket is `aws-nix-cache/credentials.sock` in the runtime directory, wherever the home
/// directory is; `.aws-nix-cache/credentials.sock` in the home directory where there is no runtime
/// directory, and in `/tmp` where there is neither.
pub proof fn law_default_socket(dir: Seq<char>, home: Option<Seq<char>>)
    ensures
        default_socket(Some(dir), home) == dir + slash(dir) + "aws-nix-cache/credentials.sock"@,
        default_socket(None, Some(dir)) == dir + slash(dir) + ".aws-nix-cache/credentials.sock"@,
        default_socket(None, None) == "/tmp/.aws-nix-cache/credentials.sock"@,
{
    reveal_strlit("aws-nix-cache");
    reveal_strlit(".aws-nix-cache");
    reveal_strlit("credentials.sock");
    reveal_strlit("/tmp");
    reveal_strlit("aws-nix-cache/credentials.sock");
    reveal_strlit(".aws-nix-cache/credentials.sock");
    reveal_strlit("/tmp/.aws-nix-cache/credentials.sock");
}

/// The unit file is that of the service in the user's directory for systemd units.
pub proof fn law_unit_file(home: Seq<char>)
    ensures
        unit_dir(home) == home + slash(home) + ".config/systemd/user"@,
        unit_file(home) == home + slash(home) + ".config/systemd/user/aws-nix-cache.service"@,
{
    reveal_strlit(".config/systemd/user");
    reveal_strlit("aws-nix-cache.service");
    reveal_strlit(".config/systemd/user/aws-nix-cache.service");
}

} // verus!
