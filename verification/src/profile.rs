//! The profile sections of an AWS config file, and the one that names this program as its
//! `credential_process`.
use crate::text;
use vstd::prelude::*;
use vstd::string::*;

verus! {

/// The view of an optional string slice.
pub open spec fn opt_view(s: Option<&str>) -> Option<Seq<char>> {
    match s {
        Some(s) => Some(s@),
        None => None,
    }
}

/// The program as a command line names it: the path of the running executable, or its bare name
/// where that path is not known.
pub open spec fn program(exe: Option<Seq<char>>) -> Seq<char> {
    match exe {
        Some(path) => path,
        None => "aws-nix-cache"@,
    }
}

/// The setting that makes the AWS SDK fetch credentials through the socket.
pub open spec fn process_line(exe: Option<Seq<char>>, socket: Seq<char>) -> Seq<char> {
    "credential_process = "@ + program(exe) + " fetch --socket "@ + socket
}

/// The line that opens the section of a profile.
pub open spec fn header(profile: Seq<char>) -> Seq<char> {
    if profile == "default"@ {
        "[default]"@
    } else {
        "[profile "@ + profile + "]"@
    }
}

/// A section that holds one setting.
pub open spec fn block(head: Seq<char>, setting: Seq<char>) -> Seq<char> {
    text::terminated(head) + text::terminated(setting)
}

/// Whether a line opens a section.
pub open spec fn opens(line: Seq<char>) -> bool {
    text::trimmed(line).len() > 0 && text::trimmed(line)[0] == '['
}

/// The section that the last of `list` stands in, by the line that opened it.
pub open spec fn section(list: Seq<Seq<char>>) -> Option<Seq<char>>
    decreases list.len(),
{
    if list.len() == 0 {
        None
    } else if opens(list.last()) {
        Some(text::trimmed(list.last()))
    } else {
        section(list.drop_last())
    }
}

/// Whether a section of `list` is opened by `head`.
pub open spec fn has_section(list: Seq<Seq<char>>, head: Seq<char>) -> bool {
    exists|i: int| 0 <= i < list.len() && text::trimmed(#[trigger] list[i]) == head
}

/// `list` as a text in which each section that `head` opens has given way to `new`.
pub open spec fn rewritten(list: Seq<Seq<char>>, head: Seq<char>, new: Seq<char>) -> Seq<char>
    decreases list.len(),
{
    if list.len() == 0 {
        Seq::empty()
    } else {
        let before = rewritten(list.drop_last(), head, new);
        if text::trimmed(list.last()) == head {
            before + new
        } else if section(list) == Some(head) {
            before
        } else {
            before + list.last()
        }
    }
}

/// A config file in which the section that `head` opens holds `setting` and nothing else: in the
/// place of each such section, or at the end, behind an empty line, where there was none. All else
/// stays as it is; only where the section goes to the end, and the last line has no line feed, is
/// one added to it.
pub open spec fn updated(text: Seq<char>, head: Seq<char>, setting: Seq<char>) -> Seq<char> {
    let list = text::lines(text);
    let new = block(head, setting);
    if has_section(list, head) {
        rewritten(list, head, new)
    } else {
        text::terminated(text::completed(rewritten(list, head, new))) + new
    }
}

/// The path of the running executable, or the program's name where it is not known.
pub fn program_name(exe: Option<&str>) -> (name: String)
    ensures
        name@ == program(opt_view(exe)),
{
    match exe {
        Some(path) => path.to_owned(),
        None => "aws-nix-cache".to_owned(),
    }
}

/// The `credential_process` setting for the proxy at `socket`. `exe` is the path of the running
/// executable, if it is known.
pub fn credential_process_line(exe: Option<&str>, socket: &str) -> (line: String)
    ensures
        line@ == process_line(opt_view(exe), socket@),
{
    "credential_process = ".to_owned().concat(program_name(exe).as_str()).concat(
        " fetch --socket ",
    ).concat(socket)
}

/// The line that opens the section of `profile`.
pub fn section_header(profile: &str) -> (head: String)
    ensures
        head@ == header(profile@),
{
    if text::same(profile, "default") {
        "[default]".to_owned()
    } else {
        "[profile ".to_owned().concat(profile).concat("]")
    }
}

/// A config file for one profile, which fetches its credentials from the proxy at `socket`.
pub fn generate_aws_config(profile: &str, exe: Option<&str>, socket: &str) -> (config: String)
    ensures
        config@ == block(header(profile@), process_line(opt_view(exe), socket@)),
{
    let mut config = section_header(profile);
    config.push('\n');
    config.append(credential_process_line(exe, socket).as_str());
    config.push('\n');
    config
}

/// A section header begins with `[` and has no white space at either end.
pub proof fn lemma_header(profile: Seq<char>)
    ensures
        header(profile).len() > 1,
        header(profile)[0] == '[',
        header(profile).last() == ']',
        text::trimmed(header(profile)) == header(profile),
{
    reveal_strlit("[default]");
    reveal_strlit("[profile ");
    reveal_strlit("]");
}

/// Which sections there are once a line has joined a list.
pub proof fn lemma_has_section_more(list: Seq<Seq<char>>, head: Seq<char>)
    requires
        list.len() > 0,
    ensures
        has_section(list, head) == (has_section(list.drop_last(), head)
            || text::trimmed(list.last()) == head),
{
    let less = list.drop_last();
    if has_section(less, head) {
        let k = choose|k: int| 0 <= k < less.len() && text::trimmed(less[k]) == head;
        assert(list[k] == less[k]);
    }
    if has_section(list, head) {
        let k = choose|k: int| 0 <= k < list.len() && text::trimmed(list[k]) == head;
        if k < less.len() {
            assert(less[k] == list[k]);
        }
    }
    if text::trimmed(list.last()) == head {
        assert(text::trimmed(list[list.len() - 1]) == head);
    }
}

/// Updates the section of `profile` in a config file, or appends it. Preserves all other
/// content, line ends included.
pub fn update_profile_in_config(
    existing: &str,
    profile: &str,
    exe: Option<&str>,
    socket: &str,
) -> (result: String)
    ensures
        result@ == updated(
            existing@,
            header(profile@),
            process_line(opt_view(exe), socket@),
        ),
{
    let head = section_header(profile);
    let new = generate_aws_config(profile, exe, socket);
    let list = text::split_lines(existing);
    let ghost all = text::lines(existing@);
    let mut result = String::new();
    let mut inside = false;
    let mut written = false;
    let mut i: usize = 0;
    while i < list.len()
        invariant
            head@ == header(profile@),
            new@ == block(head@, process_line(opt_view(exe), socket@)),
            all == text::views(list@),
            i <= list@.len(),
            result@ == rewritten(all.take(i as int), head@, new@),
            inside == (section(all.take(i as int)) == Some(head@)),
            written == has_section(all.take(i as int), head@),
        decreases list@.len() - i,
    {
        let line = &list[i];
        let content = text::trim(line.as_str());
        let ghost seen = all.take(i as int);
        let ghost next = all.take(i + 1);
        proof {
            assert(next.drop_last() == seen);
            assert(next.last() == line@);
            lemma_header(profile@);
            lemma_has_section_more(next, head@);
        }
        if content == head {
            result.append(new.as_str());
            inside = true;
            written = true;
        } else {
            if !content.as_str().is_empty() && content.as_str().get_char(0) == '[' {
                inside = false;
            }
            if !inside {
                result.append(line.as_str());
            }
        }
        i += 1;
    }
    assert(all.take(i as int) == all);
    if !written {
        if !text::is_whole(result.as_str()) {
            result.push('\n');
        }
        result.push('\n');
        result.append(new.as_str());
    }
    result
}

/// The program is called by the path of the running executable, and by its bare name only where
/// that is not known; the path of the socket is the last argument.
pub proof fn law_process_line(exe: Option<Seq<char>>, socket: Seq<char>)
    ensures
        exe matches Some(path) ==> process_line(exe, socket) == "credential_process = "@ + path
            + " fetch --socket "@ + socket,
        exe is None ==> process_line(exe, socket)
            == "credential_process = aws-nix-cache fetch --socket "@ + socket,
{
    reveal_strlit("credential_process = ");
    reveal_strlit("aws-nix-cache");
    reveal_strlit(" fetch --socket ");
    reveal_strlit("credential_process = aws-nix-cache fetch --socket ");
}

/// The section of a profile is named as the AWS SDKs look for it: `default` by its bare name, and
/// every other profile behind the word `profile`.
pub proof fn law_header(profile: Seq<char>)
    ensures
        header("default"@) == "[default]"@,
        profile != "default"@ ==> header(profile) == "[profile "@ + profile + "]"@,
{
}

/// A section is its header and the setting, each on a line of its own.
pub proof fn law_block(head: Seq<char>, setting: Seq<char>)
    ensures
        block(head, setting) == head + seq!['\n'] + setting + seq!['\n'],
{
}

/// A line opens a section where `[` is the first of its characters that is not white space.
pub proof fn law_opens(line: Seq<char>)
    ensures
        opens(line) <==> exists|k: int|
            0 <= k < line.len() && #[trigger] line[k] == '[' && forall|j: int|
                0 <= j < k ==> text::space(#[trigger] line[j]),
{
    let (front, back) = text::law_trimmed(line);
    let t = text::trimmed(line);
    let n = front.len() as int;
    assert forall|j: int| 0 <= j < n implies text::space(#[trigger] line[j]) by {
        assert(line[j] == front[j]);
    }
    assert forall|j: int| n + t.len() <= j < line.len() implies text::space(
        #[trigger] line[j],
    ) by {
        assert(line[j] == back[j - n - t.len()]);
    }
    if opens(line) {
        assert(line[n] == t[0]);
    }
    if exists|k: int|
        0 <= k < line.len() && #[trigger] line[k] == '[' && forall|j: int|
            0 <= j < k ==> text::space(#[trigger] line[j]) {
        let k = choose|k: int|
            0 <= k < line.len() && #[trigger] line[k] == '[' && forall|j: int|
                0 <= j < k ==> text::space(#[trigger] line[j]);
        assert(!text::space('['));
        assert(n <= k < n + t.len());
        assert(line[n] == t[0]);
        assert(k == n);
    }
}

/// A line stands in the section that the last line up to it opened that opens one at all.
pub proof fn law_section(list: Seq<Seq<char>>)
    ensures
        section(list) is None <==> forall|i: int|
            0 <= i < list.len() ==> !opens(#[trigger] list[i]),
        section(list) matches Some(head) ==> exists|k: int|
            0 <= k < list.len() && opens(#[trigger] list[k]) && text::trimmed(list[k]) == head
                && forall|j: int| k < j < list.len() ==> !opens(#[trigger] list[j]),
    decreases list.len(),
{
    if list.len() > 0 {
        let less = list.drop_last();
        let n = list.len() - 1;
        law_section(less);
        assert(list[n] == list.last());
        assert forall|i: int| 0 <= i < n implies less[i] == #[trigger] list[i] by {}
        if opens(list.last()) {
            assert(opens(list[n]) && text::trimmed(list[n]) == text::trimmed(list.last()));
        } else if section(list) is Some {
            let head = section(list)->0;
            let k = choose|k: int|
                0 <= k < less.len() && opens(#[trigger] less[k]) && text::trimmed(less[k]) == head
                    && forall|j: int| k < j < less.len() ==> !opens(#[trigger] less[j]);
            assert(opens(list[k]) && text::trimmed(list[k]) == head);
            assert forall|j: int| k < j < list.len() implies !opens(#[trigger] list[j]) by {
                if j < n {
                    assert(!opens(less[j]));
                }
            }
        } else {
            assert forall|i: int| 0 <= i < list.len() implies !opens(#[trigger] list[i]) by {
                if i < n {
                    assert(!opens(less[i]));
                }
            }
        }
        if forall|i: int| 0 <= i < list.len() ==> !opens(#[trigger] list[i]) {
            assert(!opens(list[n]));
            assert forall|i: int| 0 <= i < less.len() implies !opens(#[trigger] less[i]) by {
                assert(!opens(list[i]));
            }
        }
    }
}

/// The program is named by the path of the running executable where that is known, and by its own
/// name otherwise.
pub proof fn law_program(exe: Option<&str>)
    ensures
        exe is None ==> program(opt_view(exe)) == "aws-nix-cache"@,
        exe matches Some(path) ==> program(opt_view(exe)) == path@,
        exe is None ==> opt_view(exe) is None,
        exe matches Some(path) ==> opt_view(exe) == Some(path@),
{
}

} // verus!
