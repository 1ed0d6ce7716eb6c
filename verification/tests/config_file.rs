use aws_nix_cache::profile::{generate_aws_config, section_header, update_profile_in_config};

const EXE: Option<&str> = Some("/bin/anc");
const SOCK: &str = "/run/s.sock";
const LINE: &str = "credential_process = /bin/anc fetch --socket /run/s.sock";

fn update(existing: &str, profile: &str) -> String {
    update_profile_in_config(existing, profile, EXE, SOCK)
}

/// The same update over std's `split_inclusive` and `trim`.
fn update_by_std(existing: &str, profile: &str) -> String {
    let header = if profile == "default" {
        "[default]".to_string()
    } else {
        format!("[profile {profile}]")
    };
    let mut result = String::new();
    let mut inside = false;
    let mut written = false;
    for line in existing.split_inclusive('\n') {
        let content = line.trim();
        if content == header {
            result.push_str(&format!("{header}\n{LINE}\n"));
            inside = true;
            written = true;
            continue;
        }
        if content.starts_with('[') {
            inside = false;
        }
        if !inside {
            result.push_str(line);
        }
    }
    if !written {
        if !result.is_empty() && !result.ends_with('\n') {
            result.push('\n');
        }
        result.push_str(&format!("\n{header}\n{LINE}\n"));
    }
    result
}

#[test]
fn default_profile_has_a_bare_header() {
    assert_eq!(section_header("default"), "[default]");
    assert_eq!(section_header("nix-cache"), "[profile nix-cache]");
    assert_eq!(section_header(""), "[profile ]");
}

#[test]
fn new_file_holds_the_section() {
    assert_eq!(
        generate_aws_config("default", EXE, SOCK),
        format!("[default]\n{LINE}\n")
    );
    assert_eq!(
        generate_aws_config("nix-cache", None, SOCK),
        "[profile nix-cache]\ncredential_process = aws-nix-cache fetch --socket /run/s.sock\n"
    );
}

#[test]
fn missing_section_is_appended() {
    assert_eq!(
        update("[default]\nregion = eu-west-3\n", "nix-cache"),
        format!("[default]\nregion = eu-west-3\n\n[profile nix-cache]\n{LINE}\n")
    );
}

#[test]
fn empty_file_gets_an_empty_line_and_the_section() {
    assert_eq!(update("", "default"), format!("\n[default]\n{LINE}\n"));
}

#[test]
fn section_is_replaced_in_place() {
    assert_eq!(
        update(
            "# mine\n[profile a]\nx = 1\n[profile nix-cache]\nold = 1\n\n# stale\n[profile b]\ny = 2\n",
            "nix-cache"
        ),
        format!("# mine\n[profile a]\nx = 1\n[profile nix-cache]\n{LINE}\n[profile b]\ny = 2\n")
    );
}

#[test]
fn header_is_found_between_white_space() {
    assert_eq!(
        update("  [default]\t\r\nold = 1\n  [next]\n", "default"),
        format!("[default]\n{LINE}\n  [next]\n")
    );
}

#[test]
fn each_section_of_the_profile_is_replaced() {
    assert_eq!(
        update("[default]\na\n[x]\n[default]\nb\n", "default"),
        format!("[default]\n{LINE}\n[x]\n[default]\n{LINE}\n")
    );
}

#[test]
fn header_with_a_comment_is_another_section() {
    assert_eq!(
        update("[default] # mine\na\n", "default"),
        format!("[default] # mine\na\n\n[default]\n{LINE}\n")
    );
}

#[test]
fn line_endings_stay_as_they_are() {
    let existing = "[profile a]\r\nx = 1\r\n";
    assert_eq!(
        update(existing, "default"),
        format!("{existing}\n[default]\n{LINE}\n")
    );
    assert_eq!(
        update("a\r\n[default]\r\nb\r\n[c]\r\nd\r\n", "default"),
        format!("a\r\n[default]\n{LINE}\n[c]\r\nd\r\n")
    );
}

#[test]
fn last_line_without_a_line_feed_stays_as_it_is() {
    assert_eq!(
        update("[default]\na\n[b]\nc", "default"),
        format!("[default]\n{LINE}\n[b]\nc")
    );
}

#[test]
fn last_line_is_completed_where_a_section_follows() {
    assert_eq!(
        update("a\r\nb", "default"),
        format!("a\r\nb\n\n[default]\n{LINE}\n")
    );
    assert_eq!(
        update("a\r", "default"),
        format!("a\r\n\n[default]\n{LINE}\n")
    );
}

const FILES: [&str; 12] = [
    "",
    "\n",
    "[default]",
    "[default]\nx\n",
    "x\n[profile p]\ny\n[default]\nz",
    "[profile p]\n[profile p]\n",
    " [default] \n a\n\n[q]\nb\n",
    "a\r\n[default]\r\nb\r\n[c]\r\n",
    "\u{3000}[default]\u{a0}\nb\n[\n",
    "[default]x\n[default]\n",
    "[profile default]\nk\n",
    "é\n[profile p]\n\u{85}\nz\n[profile pp]\n",
];

#[test]
fn update_agrees_with_std() {
    for file in FILES {
        for profile in ["default", "p", "nix-cache", ""] {
            assert_eq!(update(file, profile), update_by_std(file, profile), "{:?}", file);
        }
    }
}

#[test]
fn second_update_changes_nothing() {
    for file in FILES {
        for profile in ["default", "p", "nix-cache", ""] {
            let once = update(file, profile);
            assert_eq!(update(&once, profile), once, "{:?}", file);
        }
    }
}

#[test]
fn carriage_returns_survive_every_update() {
    let once = update("a\r\r\n", "default");
    assert_eq!(once, format!("a\r\r\n\n[default]\n{LINE}\n"));
    assert_eq!(update(&once, "default"), once);
}

#[test]
fn update_keeps_the_other_text() {
    let others = |text: &str| -> String {
        let mut inside = false;
        let mut rest = String::new();
        for line in text.split_inclusive('\n') {
            if line.trim().starts_with('[') {
                inside = line.trim() == "[profile p]";
            }
            if !inside {
                rest.push_str(line);
            }
        }
        rest
    };
    for file in FILES {
        let mut expected = others(file);
        if !file.lines().any(|line| line.trim() == "[profile p]") {
            if !expected.is_empty() && !expected.ends_with('\n') {
                expected.push('\n');
            }
            expected.push('\n');
        }
        assert_eq!(others(&update(file, "p")), expected, "{:?}", file);
    }
}

#[test]
fn last_update_wins() {
    for file in FILES {
        for profile in ["default", "p", "nix-cache", ""] {
            let other = update_profile_in_config(file, profile, None, "/other");
            assert_eq!(update(&other, profile), update(file, profile), "{:?}", file);
        }
    }
    let made = generate_aws_config("p", None, "/other");
    assert_eq!(update(&made, "p"), generate_aws_config("p", EXE, SOCK));
}

#[test]
fn sections_keep_their_number_and_hold_the_setting() {
    for file in FILES {
        for header in ["[default]", "[profile p]"] {
            let profile = if header == "[default]" { "default" } else { "p" };
            let count = file.lines().filter(|line| line.trim() == header).count();
            let after = update(file, profile);
            let lines: Vec<&str> = after.split_inclusive('\n').collect();
            let mut seen = 0;
            for (i, line) in lines.iter().enumerate() {
                if line.trim() == header {
                    seen += 1;
                    assert_eq!(*line, format!("{header}\n"));
                    assert_eq!(lines[i + 1], format!("{LINE}\n"));
                    assert!(i + 2 == lines.len() || lines[i + 2].trim().starts_with('['));
                }
            }
            assert_eq!(seen, count.max(1), "{:?}", file);
        }
    }
}

#[test]
fn updates_of_two_profiles_commute() {
    let file = "a\r\n[profile p]\nx\n[q]\ny\n[default]\nz\n[profile p]\n[c]\nlast";
    let by_p = |text: &str| update_profile_in_config(text, "p", Some("/bin/p"), SOCK);
    let both = by_p(&update(file, "default"));
    assert_eq!(both, update(&by_p(file), "default"));
    let p = "[profile p]\ncredential_process = /bin/p fetch --socket /run/s.sock\n";
    assert_eq!(both, format!("a\r\n{p}[q]\ny\n[default]\n{LINE}\n{p}[c]\nlast"));
}

#[test]
fn sections_that_are_new_stand_in_the_order_of_their_updates() {
    let one = update(&update("", "p"), "q");
    let other = update(&update("", "q"), "p");
    assert_eq!(one, format!("\n[profile p]\n{LINE}\n\n[profile q]\n{LINE}\n"));
    assert_eq!(other, format!("\n[profile q]\n{LINE}\n\n[profile p]\n{LINE}\n"));
}

#[test]
fn update_of_a_new_file_changes_nothing() {
    let made = generate_aws_config("p", EXE, SOCK);
    assert_eq!(update(&made, "p"), made);
}

#[test]
fn profile_of_two_lines_is_never_found() {
    let once = update("", "a\nb");
    assert_eq!(once, format!("\n[profile a\nb]\n{LINE}\n"));
    assert_eq!(update(&once, "a\nb"), format!("{once}\n[profile a\nb]\n{LINE}\n"));
}
