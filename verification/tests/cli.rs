use p2pchat::cli::{
    confirm_answer, help_text, init_report, init_step, inspect_report, is_pong,
    parse_doctor_flags, parse_subcommand, passphrase_problem, qr_text, render_qr, reply_text,
    version_line, DoctorCmd, DoctorError, InitAction, InitEvent, InitState, Subcommand,
};
use p2pchat::identity::{encrypt_with, Identity, KdfParams};
use p2pchat::text::{decimal, time_of_day, trim};

fn args(list: &[&str]) -> Vec<String> {
    list.iter().map(|s| s.to_string()).collect()
}

#[test]
fn subcommands() {
    assert_eq!(parse_subcommand(None), Subcommand::Gui);
    assert_eq!(parse_subcommand(Some("init")), Subcommand::Init);
    assert_eq!(parse_subcommand(Some("doctor")), Subcommand::Doctor);
    assert_eq!(parse_subcommand(Some("-h")), Subcommand::Help);
    assert_eq!(parse_subcommand(Some("--help")), Subcommand::Help);
    assert_eq!(parse_subcommand(Some("-V")), Subcommand::Version);
    assert_eq!(parse_subcommand(Some("--version")), Subcommand::Version);
    assert_eq!(parse_subcommand(Some("Init")), Subcommand::Unknown("Init".into()));
}

#[test]
fn doctor_flags() {
    assert_eq!(parse_doctor_flags(&args(&[])), Ok(DoctorCmd::Inspect));
    assert_eq!(parse_doctor_flags(&args(&["--print-id"])), Ok(DoctorCmd::PrintId));
    assert_eq!(
        parse_doctor_flags(&args(&["--print-id", "--dial", "abc"])),
        Ok(DoctorCmd::Dial("abc".into()))
    );
    assert_eq!(
        parse_doctor_flags(&args(&["--dial", "--help", "--accept-echo"])),
        Ok(DoctorCmd::AcceptEcho)
    );
    assert_eq!(parse_doctor_flags(&args(&["--accept-echo", "-h", "junk"])), Ok(DoctorCmd::Help));
    let err = parse_doctor_flags(&args(&["--dial"])).unwrap_err();
    assert_eq!(err, DoctorError::MissingAddress);
    assert_eq!(err.text(), "--dial requires an address argument");
    let err = parse_doctor_flags(&args(&["--print-id", "--nope", "--help"])).unwrap_err();
    assert_eq!(err.text(), "unknown doctor flag: --nope");
}

#[test]
fn help_and_version() {
    assert_eq!(version_line(), format!("p2pchat {}", p2pchat::VERSION));
    let help = help_text();
    assert!(help.starts_with(&format!("p2pchat {}\n\nUsage:\n  p2pchat   ", p2pchat::VERSION)));
    assert!(help.ends_with("\n  p2pchat --version                print version"));
    assert_eq!(help.lines().count(), 11);
}

#[test]
fn passphrases() {
    assert_eq!(passphrase_problem("", ""), Some("passphrase must not be empty"));
    assert_eq!(passphrase_problem("a", "b"), Some("passphrases do not match"));
    assert_eq!(passphrase_problem("a", "a"), None);
}

#[test]
fn answers() {
    for yes in ["y", "Y", "yes", "YES", " yEs\t"] {
        assert!(confirm_answer(Some(yes), false), "{yes:?}");
    }
    for no in ["n", "ye", "yess", "j", "yés"] {
        assert!(!confirm_answer(Some(no), true), "{no:?}");
    }
    assert!(confirm_answer(Some("  "), true));
    assert!(!confirm_answer(Some(""), false));
    assert!(confirm_answer(None, true));
    assert!(!confirm_answer(None, false));
}

#[test]
fn report_on_a_new_identity() {
    let id = Identity::from_seed([0u8; 32]);
    let report = init_report(&id);
    let hex_id = hex::encode(id.node_id());
    assert_eq!(report.node_id_line, format!("node id:     {hex_id}"));
    assert_eq!(
        report.fingerprint_line,
        format!(
            "fingerprint: {}  (first 16 hex chars of SHA-256(node id))",
            &hex::encode(id.fingerprint())[..16]
        )
    );
    assert_eq!(report.qr_payload, format!("p2pchat:nodeid={hex_id}"));
}

#[test]
fn making_an_identity() {
    let (state, action) = init_step(InitState::Start, InitEvent::Looked(true));
    assert!(matches!(action, InitAction::AskOverwrite));
    let (state, action) = init_step(state, InitEvent::Answered(Some("yes".into())));
    assert!(matches!(action, InitAction::AskPassphrase));
    let (state, action) = init_step(state, InitEvent::Typed("pw".into()));
    assert!(matches!(action, InitAction::AskAgain));
    let (state, action) = init_step(state, InitEvent::Typed("pw".into()));
    let identity = match action {
        InitAction::Save { identity, passphrase } => {
            assert_eq!(passphrase, "pw");
            identity
        }
        _ => panic!("expected to save"),
    };
    let (state, action) = init_step(state, InitEvent::Saved);
    match action {
        InitAction::Show(report) => {
            assert_eq!(report.node_id_line, init_report(&identity).node_id_line)
        }
        _ => panic!("expected a report"),
    }
    assert!(matches!(state, InitState::Done));
}

#[test]
fn making_an_identity_can_end_early() {
    let (state, action) = init_step(InitState::Confirming, InitEvent::Answered(None));
    assert!(matches!((state, action), (InitState::Done, InitAction::Abort)));
    let (state, action) = init_step(InitState::Start, InitEvent::Looked(false));
    assert!(matches!(action, InitAction::AskPassphrase));
    let (state, action) = init_step(state, InitEvent::Typed(String::new()));
    assert!(matches!(state, InitState::Done));
    assert!(matches!(action, InitAction::Fail("passphrase must not be empty")));
    let (_, action) = init_step(InitState::Repeating("a".into()), InitEvent::Typed("b".into()));
    assert!(matches!(action, InitAction::Fail("passphrases do not match")));
    let (_, action) = init_step(InitState::Done, InitEvent::Saved);
    assert!(matches!(action, InitAction::Ignore));
}

#[test]
fn report_on_an_identity_file() {
    let params = KdfParams { m_kib: 1024, t: 1, p: 1 };
    let blob = encrypt_with(&[1u8; 32], "x", params, &[2u8; 16], &[3u8; 24]).unwrap();
    assert_eq!(
        inspect_report(Some(&blob)),
        [
            "file size:   110 bytes",
            "magic:       ok",
            "version:     1",
            "kdf:         argon2id",
            "kdf params:  m=1024 KiB, t=1, p=1",
            "status:      identity file present (unlock via `p2pchat unlock` in a later phase)",
        ]
    );
    assert_eq!(
        inspect_report(Some(b"short")),
        [
            "file size:   5 bytes",
            "status:      identity file is malformed: file too short: expected at least 62 bytes, got 5",
        ]
    );
    assert_eq!(
        inspect_report(None),
        ["status: no identity yet — run `p2pchat init` to create one"]
    );
}

#[test]
fn replies() {
    assert_eq!(reply_text(b"pong".to_vec()), "pong");
    assert_eq!(reply_text(vec![0xFF]), "<non-utf8>");
    assert!(is_pong("pong"));
    assert!(!is_pong("pong "));
}

#[test]
fn small_code_is_drawn_exactly() {
    let lines = render_qr(2, &vec![true, false, false, true]);
    assert_eq!(
        lines,
        ["", "", "", "", "        ██  ", "          ██", "", "", "", ""]
    );
}

#[test]
fn code_matches_the_encoder() {
    let payload = b"p2pchat:nodeid=00";
    let code = qrcode::QrCode::new(payload).unwrap();
    let width = code.width();
    let lines = qr_text(payload).unwrap();
    assert_eq!(lines.len(), width + 8);
    for y in 0..width {
        let mut expected = "        ".to_string();
        for x in 0..width {
            expected.push_str(match code[(x, y)] {
                qrcode::Color::Dark => "██",
                qrcode::Color::Light => "  ",
            });
        }
        assert_eq!(lines[y + 4], expected);
    }
    assert_eq!(qr_text(&[0u8; 5000]).unwrap_err(), "qr encode: data too long");
}

#[test]
fn texts_and_times() {
    assert_eq!(trim("\u{85}\u{2003} a b \u{205f}\n"), "a b");
    assert_eq!(trim("   "), "");
    assert_eq!(decimal(0), "0");
    assert_eq!(decimal(u64::MAX), "18446744073709551615");
    assert_eq!(time_of_day(0), "00:00:00");
    assert_eq!(time_of_day(86_399), "23:59:59");
    assert_eq!(time_of_day(1_700_000_000), "22:13:20");
}
