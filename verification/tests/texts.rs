use aws_nix_cache::credentials::{
    credential_response, credentials_file, CredentialProcessResponse, Credentials,
};
use aws_nix_cache::expiry::{format_expiry, or_empty, seconds_of, Moment};
use aws_nix_cache::guide::setup_instructions;
use aws_nix_cache::paths::{
    default_socket_path, join_path, unit_dir_path, unit_file_path,
};
use aws_nix_cache::profile::{credential_process_line, generate_aws_config, program_name};
use aws_nix_cache::text::{is_space, is_whole, split_lines, trim};
use aws_nix_cache::unit::{exec_start_line, generate_unit_file, serve_command};

#[test]
fn white_space_is_that_of_unicode() {
    for u in 0..=0x10ffffu32 {
        if let Some(c) = char::from_u32(u) {
            assert_eq!(is_space(c), c.is_whitespace(), "U+{:04X}", u);
        }
    }
}

#[test]
fn lines_are_split_as_std_splits_them() {
    for s in [
        "", "\n", "a", "a\n", "a\nb", "a\r\nb\r\n", "a\r", "a\r\r\n", "\r\n\r\n", "\n\na", "é\n\u{85}b\n",
    ] {
        let expected: Vec<String> = s.split_inclusive('\n').map(|l| l.to_string()).collect();
        assert_eq!(split_lines(s), expected, "{:?}", s);
        assert_eq!(split_lines(s).concat(), s);
    }
}

#[test]
fn text_is_whole_up_to_its_last_line_feed() {
    for s in ["", "\n", "a\n", "a\r\n", "a\n\n"] {
        assert!(is_whole(s), "{:?}", s);
    }
    for s in ["a", "a\r", "\na", "\n "] {
        assert!(!is_whole(s), "{:?}", s);
    }
}

#[test]
fn trimming_is_that_of_std() {
    for s in ["", " ", "a", " a", "a ", "\t a b \r", "\u{3000}x\u{a0}", " \n [default] \t"] {
        assert_eq!(trim(s), s.trim());
    }
}

#[test]
fn paths_are_joined_as_std_joins_them() {
    for base in ["", "/", "/home/me", "/home/me/", "rel", "a//"] {
        for name in ["x", ".config/systemd/user", "/abs", ""] {
            let expected = std::path::PathBuf::from(base).join(name);
            assert_eq!(join_path(base, name), expected.to_str().unwrap(), "{:?} {:?}", base, name);
        }
    }
}

#[test]
fn default_socket_is_in_the_runtime_directory() {
    assert_eq!(
        default_socket_path(Some("/run/user/1000"), Some("/home/me")),
        "/run/user/1000/aws-nix-cache/credentials.sock"
    );
}

#[test]
fn default_socket_is_in_the_home_directory_otherwise() {
    assert_eq!(
        default_socket_path(None, Some("/home/me")),
        "/home/me/.aws-nix-cache/credentials.sock"
    );
    assert_eq!(default_socket_path(None, None), "/tmp/.aws-nix-cache/credentials.sock");
}

#[test]
fn unit_file_is_in_the_users_unit_directory() {
    assert_eq!(unit_dir_path("/home/me"), "/home/me/.config/systemd/user");
    assert_eq!(
        unit_file_path("/home/me"),
        "/home/me/.config/systemd/user/aws-nix-cache.service"
    );
}

#[test]
fn program_is_named_by_its_path_if_known() {
    assert_eq!(program_name(Some("/usr/bin/x")), "/usr/bin/x");
    assert_eq!(program_name(None), "aws-nix-cache");
}

#[test]
fn credential_process_calls_fetch() {
    assert_eq!(
        credential_process_line(Some("/bin/anc"), "/run/s.sock"),
        "credential_process = /bin/anc fetch --socket /run/s.sock"
    );
    assert_eq!(
        credential_process_line(None, "/run/s.sock"),
        "credential_process = aws-nix-cache fetch --socket /run/s.sock"
    );
}

#[test]
fn unit_file_starts_the_proxy() {
    assert_eq!(
        generate_unit_file(Some("/bin/anc"), "/run/s.sock", Some("work")),
        "[Unit]
Description=AWS credential proxy for Nix daemon
Documentation=https://github.com/Dauliac/aws-nix-cache

[Service]
ExecStart=/bin/anc serve --socket /run/s.sock --aws-profile work
Restart=always
RestartSec=5

[Install]
WantedBy=default.target
"
    );
    assert_eq!(
        serve_command(None, "/run/s.sock", None),
        "aws-nix-cache serve --socket /run/s.sock"
    );
}

#[test]
fn units_differ_in_the_command_line() {
    let one = generate_unit_file(Some("/bin/anc"), "/run/s.sock", Some("work"));
    let other = generate_unit_file(None, "/t", None);
    assert_eq!(one.lines().count(), other.lines().count());
    let differ: Vec<(&str, &str)> = one.lines().zip(other.lines()).filter(|(a, b)| a != b).collect();
    assert_eq!(
        differ,
        vec![(
            "ExecStart=/bin/anc serve --socket /run/s.sock --aws-profile work",
            "ExecStart=aws-nix-cache serve --socket /t"
        )]
    );
    assert_eq!(
        exec_start_line(None, "/t", None),
        "ExecStart=aws-nix-cache serve --socket /t\n"
    );
}

#[test]
fn instructions_show_what_is_written() {
    let guide = setup_instructions(Some("/bin/anc"), "/t");
    assert!(guide.contains(&generate_aws_config("nix-cache", Some("/bin/anc"), "/t")));
    let line = exec_start_line(Some("/bin/anc"), "/t", None);
    assert!(guide.contains(&format!("\n# {line}")));
    assert!(generate_unit_file(Some("/bin/anc"), "/t", None).contains(&format!("\n{line}")));
}

#[test]
fn instructions_show_section_and_service() {
    assert_eq!(
        setup_instructions(Some("/bin/anc"), "/run/s.sock"),
        "# ── Quick setup (any distro: Ubuntu, Fedora, NixOS, ...) ───────
#
# 1. Configure root's AWS config (matches ?profile= in substituter URL):
#    sudo aws-nix-cache setup --profile nix-cache
#
# 2. Start the proxy as your user:
#    aws-nix-cache serve
#
# 3. Restart the daemon:
#    sudo systemctl restart nix-daemon

# ── /root/.aws/config (generated by `setup`) ───────────────────
[profile nix-cache]
credential_process = /bin/anc fetch --socket /run/s.sock

# ── /etc/nix/nix.conf or /etc/nix/conf.d/substituters.conf ─────
# extra-substituters = s3://YOUR-BUCKET?region=REGION&profile=nix-cache
# extra-trusted-public-keys = YOUR-KEY

# ── NixOS / system-manager module ──────────────────────────────
# imports = [ inputs.aws-nix-cache.nixosModules.default ];
#
# services.aws-nix-cache = {
#   enable = true;
#   package = inputs.aws-nix-cache.packages.${system}.default;
#   user = \"your-username\";
#   profile = \"nix-cache\";
#   substituters = [ \"s3://bucket?region=eu-west-3&profile=nix-cache\" ];
#   trustedPublicKeys = [ \"cache:AAAA...=\" ];
# };

# ── systemd user service (optional, for auto-start) ────────────
# ~/.config/systemd/user/aws-nix-cache.service
# [Unit]
# Description=AWS credential proxy for Nix daemon
#
# [Service]
# ExecStart=/bin/anc serve --socket /run/s.sock
# Restart=always
# RestartSec=5
#
# [Install]
# WantedBy=default.target
"
    );
}

#[test]
fn expiry_is_written_in_utc() {
    assert_eq!(format_expiry(Moment::SinceEpoch(0)), "1970-01-01T00:00:00Z");
    assert_eq!(format_expiry(Moment::SinceEpoch(951_827_696)), "2000-02-29T12:34:56Z");
    assert_eq!(format_expiry(Moment::SinceEpoch(1_700_000_000)), "2023-11-14T22:13:20Z");
    assert_eq!(format_expiry(Moment::SinceEpoch(253_402_300_799)), "9999-12-31T23:59:59Z");
}

#[test]
fn expiries_are_in_the_order_of_time() {
    let mut secs = 0u64;
    let mut last = String::new();
    while secs <= 253_402_300_799 {
        let text = format_expiry(Moment::SinceEpoch(secs));
        assert_eq!(text.len(), 20);
        assert_eq!(&text[4..5], "-");
        assert_eq!(&text[10..11], "T");
        assert!(text.ends_with('Z'));
        assert!(last < text, "{} {}", last, text);
        last = text;
        secs += 86_399 * 7;
    }
    assert_eq!(format_expiry(Moment::SinceEpoch(253_402_300_800)), "+10000-01-01T00:00:00Z");
}

#[test]
fn expiry_knows_leap_years() {
    assert_eq!(format_expiry(Moment::SinceEpoch(951_782_399)), "2000-02-28T23:59:59Z");
    assert_eq!(format_expiry(Moment::SinceEpoch(951_868_800)), "2000-03-01T00:00:00Z");
    assert_eq!(format_expiry(Moment::SinceEpoch(4_107_542_400)), "2100-03-01T00:00:00Z");
    let year_zero = (-62_167_219_200i64) as u64;
    assert_eq!(format_expiry(Moment::SinceEpoch(year_zero)), "0000-01-01T00:00:00Z");
    assert_eq!(format_expiry(Moment::SinceEpoch(year_zero - 1)), "-0001-12-31T23:59:59Z");
}

#[test]
fn expiry_before_the_epoch_is_the_epoch() {
    assert_eq!(format_expiry(Moment::BeforeEpoch), "1970-01-01T00:00:00Z");
}

#[test]
fn expiry_beyond_the_calendar_is_empty() {
    assert_eq!(
        format_expiry(Moment::SinceEpoch(8_210_266_876_799)),
        "+262142-12-31T23:59:59Z"
    );
    assert_eq!(format_expiry(Moment::SinceEpoch(8_210_266_876_800)), "");
    assert_eq!(format_expiry(Moment::SinceEpoch(i64::MAX as u64)), "");
    assert_eq!(format_expiry(Moment::SinceEpoch(i64::MAX as u64 + 1)), "");
}

#[test]
fn expiry_wraps_around_where_it_is_too_large() {
    assert_eq!(seconds_of(Moment::SinceEpoch(u64::MAX)), -1);
    assert_eq!(format_expiry(Moment::SinceEpoch(u64::MAX)), "1969-12-31T23:59:59Z");
    let first = (-8_334_601_228_800i64) as u64;
    assert_eq!(format_expiry(Moment::SinceEpoch(first)), "-262143-01-01T00:00:00Z");
    assert_eq!(format_expiry(Moment::SinceEpoch(first - 1)), "");
}

#[test]
fn missing_time_stamp_is_empty() {
    assert_eq!(or_empty(Some("x".to_string())), "x");
    assert_eq!(or_empty(None), "");
}

fn keys(session_token: Option<&str>, expiry: Option<Moment>) -> Credentials {
    Credentials {
        access_key_id: "AKID".to_string(),
        secret_access_key: "hush".to_string(),
        session_token: session_token.map(|s| s.to_string()),
        expiry,
    }
}

#[test]
fn response_hands_all_parts_on() {
    let CredentialProcessResponse {
        version,
        access_key_id,
        secret_access_key,
        session_token,
        expiration,
    } = credential_response(keys(Some("tok"), Some(Moment::SinceEpoch(1_700_000_000))));
    assert_eq!(version, 1);
    assert_eq!(access_key_id, "AKID");
    assert_eq!(secret_access_key, "hush");
    assert_eq!(session_token.as_deref(), Some("tok"));
    assert_eq!(expiration.as_deref(), Some("2023-11-14T22:13:20Z"));
}

#[test]
fn response_leaves_out_what_there_is_not() {
    let response = credential_response(keys(None, None));
    assert_eq!(response.session_token, None);
    assert_eq!(response.expiration, None);
}

#[test]
fn credentials_file_holds_one_profile() {
    assert_eq!(
        credentials_file("nix-cache", &keys(Some("tok"), None)),
        "[nix-cache]\naws_access_key_id = AKID\naws_secret_access_key = hush\naws_session_token = tok\n"
    );
    assert_eq!(
        credentials_file("other", &keys(None, None)),
        "[other]\naws_access_key_id = AKID\naws_secret_access_key = hush\n"
    );
}
