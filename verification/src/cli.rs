//! The command line: subcommands, flags, answers and reports.

use vstd::prelude::*;
use vstd::string::{StringExecFns, StrSliceExecFns};
use vstd::utf8::{decode_utf8, valid_utf8};
use qrcode::QrCode;
use crate::identity::{key_fingerprint, parse_header, read_header, Header, Identity};
use crate::primitives::{drawn_seed, ed25519_public, sha256};
use crate::text::{
    decimal, decimal_text, hex_encode, hex_text, join2, join3, same_text, trim, trimmed, utf8_text,
};
use crate::transport::texts;
use crate::VERSION;

verus! {

/// What the first argument asks for.
#[derive(Debug, Clone, PartialEq, Eq)]
pub enum Subcommand {
    /// Launch the GUI.
    Gui,
    /// First-run keygen.
    Init,
    /// Sanity check and transport tests.
    Doctor,
    /// Show the help text.
    Help,
    /// Print the version.
    Version,
    /// Something else.
    Unknown(String),
}

/// What the first argument asks for.
pub fn parse_subcommand(arg: Option<&str>) -> (cmd: Subcommand)
    ensures
        match arg {
            None => cmd is Gui,
            Some(a) => if a@ == "init"@ {
                cmd is Init
            } else if a@ == "doctor"@ {
                cmd is Doctor
            } else if a@ == "--help"@ || a@ == "-h"@ {
                cmd is Help
            } else if a@ == "--version"@ || a@ == "-V"@ {
                cmd is Version
            } else {
                cmd is Unknown && cmd->Unknown_0@ == a@
            },
        },
{
    match arg {
        None => Subcommand::Gui,
        Some(a) => if same_text(a, "init") {
            Subcommand::Init
        } else if same_text(a, "doctor") {
            Subcommand::Doctor
        } else if same_text(a, "--help") || same_text(a, "-h") {
            Subcommand::Help
        } else if same_text(a, "--version") || same_text(a, "-V") {
            Subcommand::Version
        } else {
            Subcommand::Unknown(String::from_str(a))
        },
    }
}

/// The program's name and version.
pub fn version_line() -> (s: String)
    ensures
        s@ == "p2pchat "@ + VERSION@,
{
    join2("p2pchat ", VERSION)
}

/// How the program is used.
pub const USAGE: &'static str = "\n\nUsage:\n  p2pchat                          launch the GUI\n  p2pchat init                     first-run keygen\n  p2pchat doctor                   inspect identity file header\n  p2pchat doctor --print-id        bind transport, print node id, exit\n  p2pchat doctor --dial <addr>     connect, send ping, read pong\n  p2pchat doctor --accept-echo     listen, print id, accept one, reply pong\n  p2pchat --help                   show this help\n  p2pchat --version                print version";

/// The help text.
pub fn help_text() -> (s: String)
    ensures
        s@ == "p2pchat "@ + VERSION@ + USAGE@,
{
    join3("p2pchat ", VERSION, USAGE)
}

/// What `doctor` is to do.
#[derive(Debug, Clone, PartialEq, Eq)]
pub enum DoctorCmd {
    /// Inspect the identity file's header.
    Inspect,
    /// Bind a transport and print the node id.
    PrintId,
    /// Connect to this address.
    Dial(String),
    /// Accept one connection and reply.
    AcceptEcho,
    /// Show the help text.
    Help,
}

/// Why the flags of `doctor` make no sense.
#[derive(Debug, Clone, PartialEq, Eq)]
pub enum DoctorError {
    /// `--dial` stands last.
    MissingAddress,
    /// A flag is not known.
    UnknownFlag(String),
}

/// A `doctor` command in mathematical values.
pub enum DoctorView {
    Inspect,
    PrintId,
    Dial(Seq<char>),
    AcceptEcho,
    Help,
}

/// A flag error in mathematical values.
pub enum DoctorErrorView {
    MissingAddress,
    UnknownFlag(Seq<char>),
}

impl View for DoctorCmd {
    type V = DoctorView;

    open spec fn view(&self) -> DoctorView {
        match *self {
            DoctorCmd::Inspect => DoctorView::Inspect,
            DoctorCmd::PrintId => DoctorView::PrintId,
            DoctorCmd::Dial(addr) => DoctorView::Dial(addr@),
            DoctorCmd::AcceptEcho => DoctorView::AcceptEcho,
            DoctorCmd::Help => DoctorView::Help,
        }
    }
}

impl View for DoctorError {
    type V = DoctorErrorView;

    open spec fn view(&self) -> DoctorErrorView {
        match *self {
            DoctorError::MissingAddress => DoctorErrorView::MissingAddress,
            DoctorError::UnknownFlag(flag) => DoctorErrorView::UnknownFlag(flag@),
        }
    }
}

impl DoctorErrorView {
    /// The sentence that describes the error.
    pub open spec fn text(self) -> Seq<char> {
        match self {
            DoctorErrorView::MissingAddress => "--dial requires an address argument"@,
            DoctorErrorView::UnknownFlag(flag) => "unknown doctor flag: "@ + flag,
        }
    }
}

impl DoctorError {
    /// The sentence that describes the error.
    pub fn text(&self) -> (s: String)
        ensures
            s@ == self@.text(),
    {
        match self {
            DoctorError::MissingAddress => String::from_str("--dial requires an address argument"),
            DoctorError::UnknownFlag(flag) => join2("unknown doctor flag: ", flag.as_str()),
        }
    }
}

/// What the flags ask for, after those before them asked for `cmd`: the last
/// one counts, and a request for help ends the reading.
pub open spec fn read_flags(args: Seq<Seq<char>>, cmd: DoctorView) -> Result<
    DoctorView,
    DoctorErrorView,
>
    decreases args.len(),
{
    if args.len() == 0 {
        Ok(cmd)
    } else if args[0] == "--print-id"@ {
        read_flags(args.skip(1), DoctorView::PrintId)
    } else if args[0] == "--dial"@ {
        if args.len() == 1 {
            Err(DoctorErrorView::MissingAddress)
        } else {
            read_flags(args.skip(2), DoctorView::Dial(args[1]))
        }
    } else if args[0] == "--accept-echo"@ {
        read_flags(args.skip(1), DoctorView::AcceptEcho)
    } else if args[0] == "--help"@ || args[0] == "-h"@ {
        Ok(DoctorView::Help)
    } else {
        Err(DoctorErrorView::UnknownFlag(args[0]))
    }
}

/// What the flags of `doctor` ask for.
pub fn parse_doctor_flags(args: &Vec<String>) -> (r: Result<DoctorCmd, DoctorError>)
    ensures
        match read_flags(texts(args@), DoctorView::Inspect) {
            Ok(cmd) => r matches Ok(c) && c@ == cmd,
            Err(e) => r matches Err(f) && f@ == e,
        },
{
    let ghost all = texts(args@);
    let mut cmd = DoctorCmd::Inspect;
    let mut i: usize = 0;
    assert(all.skip(0) =~= all);
    while i < args.len()
        invariant
            i <= args@.len(),
            all == texts(args@),
            read_flags(all.skip(i as int), cmd@) == read_flags(all, DoctorView::Inspect),
        decreases args@.len() - i,
    {
        let flag = args[i].as_str();
        assert(all.skip(i as int)[0] == flag@);
        assert(all.skip(i as int).skip(1) =~= all.skip(i + 1));
        if same_text(flag, "--print-id") {
            cmd = DoctorCmd::PrintId;
        } else if same_text(flag, "--dial") {
            if i + 1 == args.len() {
                return Err(DoctorError::MissingAddress);
            }
            assert(all.skip(i as int)[1] == args@[i + 1]@);
            assert(all.skip(i as int).skip(2) =~= all.skip(i + 2));
            cmd = DoctorCmd::Dial(args[i + 1].clone());
            i += 1;
        } else if same_text(flag, "--accept-echo") {
            cmd = DoctorCmd::AcceptEcho;
        } else if same_text(flag, "--help") || same_text(flag, "-h") {
            return Ok(DoctorCmd::Help);
        } else {
            return Err(DoctorError::UnknownFlag(args[i].clone()));
        }
        i += 1;
    }
    Ok(cmd)
}

/// What is wrong with a new passphrase and its repetition, if anything.
pub open spec fn passphrase_refusal(pw: Seq<char>, confirm: Seq<char>) -> Option<Seq<char>> {
    if pw.len() == 0 {
        Some("passphrase must not be empty"@)
    } else if pw != confirm {
        Some("passphrases do not match"@)
    } else {
        None
    }
}

/// What is wrong with a new passphrase and its repetition, if anything.
pub fn passphrase_problem(pw: &str, confirm: &str) -> (r: Option<&'static str>)
    ensures
        match passphrase_refusal(pw@, confirm@) {
            Some(text) => r matches Some(t) && t@ == text,
            None => r is None,
        },
{
    if pw.is_empty() {
        return Some("passphrase must not be empty");
    }
    if !same_text(pw, confirm) {
        return Some("passphrases do not match");
    }
    None
}

/// Whether a character is a letter, in either case.
pub open spec fn is_letter(c: char, lower: char, upper: char) -> bool {
    c == lower || c == upper
}

/// Whether an answer is "y" or "yes", in any case.
pub open spec fn says_yes(s: Seq<char>) -> bool {
    ||| s.len() == 1 && is_letter(s[0], 'y', 'Y')
    ||| s.len() == 3 && is_letter(s[0], 'y', 'Y') && is_letter(s[1], 'e', 'E') && is_letter(
        s[2],
        's',
        'S',
    )
}

/// What an answer to a yes-or-no question means. An empty line, or none, is the
/// default.
pub fn confirm_answer(line: Option<&str>, default_yes: bool) -> (yes: bool)
    ensures
        yes == match line {
            None => default_yes,
            Some(s) => if trimmed(s@).len() == 0 {
                default_yes
            } else {
                says_yes(trimmed(s@))
            },
        },
{
    match line {
        None => default_yes,
        Some(s) => {
            let s = trim(s);
            let n: usize = s.unicode_len();
            if n == 0 {
                return default_yes;
            }
            if n != 1 && n != 3 {
                return false;
            }
            let first: char = s.get_char(0);
            if first != 'y' && first != 'Y' {
                return false;
            }
            if n == 1 {
                return true;
            }
            let second: char = s.get_char(1);
            let third: char = s.get_char(2);
            (second == 'e' || second == 'E') && (third == 's' || third == 'S')
        },
    }
}

/// What is shown of a new identity.
pub struct InitReport {
    /// The line with the node id.
    pub node_id_line: String,
    /// The line with the short fingerprint.
    pub fingerprint_line: String,
    /// The contents of the QR code.
    pub qr_payload: String,
}

/// Whether a report shows the identity of a seed.
pub open spec fn shows(r: InitReport, seed: Seq<u8>) -> bool {
    let node_id = ed25519_public(seed);
    &&& r.node_id_line@ == "node id:     "@ + hex_text(node_id)
    &&& r.fingerprint_line@ == "fingerprint: "@ + hex_text(key_fingerprint(node_id)).take(16)
        + "  (first 16 hex chars of SHA-256(node id))"@
    &&& r.qr_payload@ == "p2pchat:nodeid="@ + hex_text(node_id)
}

/// What to show of a new identity.
pub fn init_report(id: &Identity) -> (r: InitReport)
    ensures
        shows(r, id@),
{
    let node_id_hex = hex_encode(id.node_id().as_slice());
    let fingerprint_hex = hex_encode(id.fingerprint().as_slice());
    let short_fp = fingerprint_hex.as_str().substring_char(0, 16);
    assert(short_fp@ =~= fingerprint_hex@.take(16));
    InitReport {
        node_id_line: join2("node id:     ", node_id_hex.as_str()),
        fingerprint_line: join3(
            "fingerprint: ",
            short_fp,
            "  (first 16 hex chars of SHA-256(node id))",
        ),
        qr_payload: join2("p2pchat:nodeid=", node_id_hex.as_str()),
    }
}

/// Where the making of an identity stands.
pub enum InitState {
    /// Nothing is known yet.
    Start,
    /// The user was asked whether to overwrite an identity.
    Confirming,
    /// The user was asked for a passphrase.
    Choosing,
    /// The user was asked for this passphrase again.
    Repeating(String),
    /// The identity is being saved.
    Saving(Identity),
    /// There is nothing more to do.
    Done,
}

/// What happens while an identity is made.
pub enum InitEvent {
    /// It was looked up whether an identity is there.
    Looked(bool),
    /// The user answered the question.
    Answered(Option<String>),
    /// The user typed a passphrase.
    Typed(String),
    /// The identity was saved.
    Saved,
}

/// What to do next.
pub enum InitAction {
    /// Ask whether to overwrite the identity that is there.
    AskOverwrite,
    /// Ask for a passphrase.
    AskPassphrase,
    /// Ask for the passphrase again.
    AskAgain,
    /// Save the identity under the passphrase.
    Save {
        identity: Identity,
        passphrase: String,
    },
    /// Stop without a change.
    Abort,
    /// Stop with an error.
    Fail(&'static str),
    /// Show the new identity.
    Show(InitReport),
    /// Nothing: the event does not belong here.
    Ignore,
}

/// What is done about an event while an identity is made, and where that leads:
/// an identity that is there is only overwritten after a "yes", and no identity
/// is made under an empty passphrase or one that was mistyped.
pub open spec fn init_moves(
    pre: InitState,
    event: InitEvent,
    post: InitState,
    action: InitAction,
) -> bool {
    match (pre, event) {
        (InitState::Start, InitEvent::Looked(exists)) => if exists {
            post is Confirming && action is AskOverwrite
        } else {
            post is Choosing && action is AskPassphrase
        },
        (InitState::Confirming, InitEvent::Answered(line)) => {
            let yes = match line {
                Some(s) => says_yes(trimmed(s@)),
                None => false,
            };
            if yes {
                post is Choosing && action is AskPassphrase
            } else {
                post is Done && action is Abort
            }
        },
        (InitState::Choosing, InitEvent::Typed(pw)) => if pw@.len() == 0 {
            post is Done && action is Fail && action->Fail_0@ == "passphrase must not be empty"@
        } else {
            post is Repeating && post->Repeating_0@ == pw@ && action is AskAgain
        },
        (InitState::Repeating(pw), InitEvent::Typed(again)) => if pw@ != again@ {
            post is Done && action is Fail && action->Fail_0@ == "passphrases do not match"@
        } else {
            &&& action is Save
            &&& action->passphrase@ == pw@
            &&& post is Saving
            &&& post->Saving_0@ == action->identity@
            &&& post->Saving_0@.len() == 32
            &&& drawn_seed(post->Saving_0@)
        },
        (InitState::Saving(id), InitEvent::Saved) => {
            &&& post is Done
            &&& action is Show
            &&& shows(action->Show_0, id@)
        },
        _ => post == pre && action is Ignore,
    }
}

/// The next step in the making of an identity.
pub fn init_step(state: InitState, event: InitEvent) -> (r: (InitState, InitAction))
    ensures
        init_moves(state, event, r.0, r.1),
{
    match (state, event) {
        (InitState::Start, InitEvent::Looked(exists)) => if exists {
            (InitState::Confirming, InitAction::AskOverwrite)
        } else {
            (InitState::Choosing, InitAction::AskPassphrase)
        },
        (InitState::Confirming, InitEvent::Answered(line)) => {
            let yes: bool = match &line {
                Some(s) => confirm_answer(Some(s.as_str()), false),
                None => confirm_answer(None, false),
            };
            if yes {
                (InitState::Choosing, InitAction::AskPassphrase)
            } else {
                (InitState::Done, InitAction::Abort)
            }
        },
        (InitState::Choosing, InitEvent::Typed(pw)) => if pw.as_str().is_empty() {
            (InitState::Done, InitAction::Fail("passphrase must not be empty"))
        } else {
            (InitState::Repeating(pw), InitAction::AskAgain)
        },
        (InitState::Repeating(pw), InitEvent::Typed(again)) => if !same_text(
            pw.as_str(),
            again.as_str(),
        ) {
            (InitState::Done, InitAction::Fail("passphrases do not match"))
        } else {
            let identity = Identity::generate();
            let saved = Identity::from_seed(identity.seed());
            (InitState::Saving(saved), InitAction::Save { identity, passphrase: pw })
        },
        (InitState::Saving(id), InitEvent::Saved) => (
            InitState::Done,
            InitAction::Show(init_report(&id)),
        ),
        (state, _) => (state, InitAction::Ignore),
    }
}

/// What the flags of `doctor` ask for, flag by flag: each replaces what those
/// before it asked for, `--dial` takes the argument behind it, and a request for
/// help or a flag that is not known ends the reading.
pub proof fn flags_one_by_one(rest: Seq<Seq<char>>, cmd: DoctorView, arg: Seq<char>)
    ensures
        read_flags(seq![], cmd) == Ok::<DoctorView, DoctorErrorView>(cmd),
        read_flags(seq!["--print-id"@] + rest, cmd) == read_flags(rest, DoctorView::PrintId),
        read_flags(seq!["--accept-echo"@] + rest, cmd) == read_flags(rest, DoctorView::AcceptEcho),
        read_flags(seq!["--dial"@, arg] + rest, cmd) == read_flags(rest, DoctorView::Dial(arg)),
        read_flags(seq!["--dial"@], cmd) == Err::<DoctorView, DoctorErrorView>(
            DoctorErrorView::MissingAddress,
        ),
        read_flags(seq!["--help"@] + rest, cmd) == Ok::<DoctorView, DoctorErrorView>(
            DoctorView::Help,
        ),
        read_flags(seq!["-h"@] + rest, cmd) == Ok::<DoctorView, DoctorErrorView>(DoctorView::Help),
        arg != "--print-id"@ && arg != "--accept-echo"@ && arg != "--dial"@ && arg != "--help"@ && arg
            != "-h"@ ==> read_flags(seq![arg] + rest, cmd) == Err::<DoctorView, DoctorErrorView>(
            DoctorErrorView::UnknownFlag(arg),
        ),
{
    reveal_strlit("--print-id");
    reveal_strlit("--accept-echo");
    reveal_strlit("--dial");
    reveal_strlit("--help");
    reveal_strlit("-h");
    assert("--print-id"@.len() == 10);
    assert("--accept-echo"@.len() == 13);
    assert("--dial"@.len() == 6);
    assert("--help"@.len() == 6 && "--help"@[2] == 'h' && "--dial"@[2] == 'd');
    assert("-h"@.len() == 2);
    assert((seq!["--print-id"@] + rest).skip(1) =~= rest);
    assert((seq!["--accept-echo"@] + rest).skip(1) =~= rest);
    assert((seq!["--dial"@, arg] + rest).skip(2) =~= rest);
    assert((seq!["--dial"@, arg] + rest)[1] == arg);
}

/// A new passphrase is taken where it is not empty and was repeated as it is.
pub proof fn passphrases_that_are_taken(pw: Seq<char>, confirm: Seq<char>)
    ensures
        passphrase_refusal(pw, confirm) is None <==> pw.len() > 0 && pw == confirm,
        pw.len() == 0 ==> passphrase_refusal(pw, confirm) == Some("passphrase must not be empty"@),
        pw.len() > 0 && pw != confirm ==> passphrase_refusal(pw, confirm) == Some(
            "passphrases do not match"@,
        ),
{
}

/// A text with its letters from A to Z in lower case.
pub open spec fn lowered(s: Seq<char>) -> Seq<char> {
    s.map_values(
        |c: char|
            if 'A' as int <= c as int <= 'Z' as int {
                (c as int + 32) as char
            } else {
                c
            },
    )
}

/// The answers that mean yes.
pub proof fn answers_that_mean_yes(s: Seq<char>)
    ensures
        says_yes(s) <==> lowered(s) == "y"@ || lowered(s) == "yes"@,
{
    reveal_strlit("y");
    reveal_strlit("yes");
    assert("y"@ =~= seq!['y']);
    assert("yes"@ =~= seq!['y', 'e', 's']);
    if says_yes(s) {
        if s.len() == 1 {
            assert(lowered(s) =~= "y"@);
        } else {
            assert(lowered(s) =~= "yes"@);
        }
    }
    if lowered(s) == "y"@ {
        assert(s.len() == 1);
        assert(lowered(s)[0] == 'y');
    }
    if lowered(s) == "yes"@ {
        assert(s.len() == 3);
        assert(lowered(s)[0] == 'y' && lowered(s)[1] == 'e' && lowered(s)[2] == 's');
    }
}

/// What a report shows of an identity: its public key in full, and the first
/// digits of the key's digest.
pub proof fn reports_show_the_key(r: InitReport, seed: Seq<u8>)
    requires
        shows(r, seed),
    ensures
        r.node_id_line@ == "node id:     "@ + hex_text(ed25519_public(seed)),
        r.qr_payload@ == "p2pchat:nodeid="@ + hex_text(ed25519_public(seed)),
        r.fingerprint_line@ == "fingerprint: "@ + hex_text(
            sha256(ed25519_public(seed)).subrange(0, 16),
        ).take(16) + "  (first 16 hex chars of SHA-256(node id))"@,
{
}

/// The making of an identity, event by event.
pub open spec fn init_run(
    states: Seq<InitState>,
    events: Seq<InitEvent>,
    actions: Seq<InitAction>,
) -> bool {
    &&& states.len() == events.len() + 1
    &&& actions.len() == events.len()
    &&& states[0] is Start
    &&& forall|i: int, j: int|
        #![trigger states[i], states[j]]
        0 <= i < events.len() && j == i + 1 ==> init_moves(
            states[i],
            events[i],
            states[j],
            actions[i],
        )
}

/// Whether, before event `k`, no identity was found, or the user said that the one
/// there may be overwritten.
pub open spec fn may_make(events: Seq<InitEvent>, k: int) -> bool {
    ||| exists|j: int| 0 <= j < k && (#[trigger] events[j]) is Looked && !events[j]->Looked_0
    ||| exists|j: int|
        {
            &&& 0 <= j < k
            &&& (#[trigger] events[j]) is Answered
            &&& events[j]->Answered_0 is Some
            &&& says_yes(trimmed(events[j]->Answered_0->0@))
        }
}

/// Whether this was typed before event `k`.
pub open spec fn was_typed(events: Seq<InitEvent>, k: int, pw: Seq<char>) -> bool {
    exists|j: int| 0 <= j < k && (#[trigger] events[j]) is Typed && events[j]->Typed_0@ == pw
}

/// What has happened where the making of an identity stands after `k` events.
proof fn init_run_so_far(
    states: Seq<InitState>,
    events: Seq<InitEvent>,
    actions: Seq<InitAction>,
    k: int,
)
    requires
        init_run(states, events, actions),
        0 <= k <= events.len(),
    ensures
        states[k] is Choosing || states[k] is Repeating || states[k] is Saving ==> may_make(events, k),
        states[k] is Repeating ==> states[k]->Repeating_0@.len() > 0 && was_typed(
            events,
            k,
            states[k]->Repeating_0@,
        ),
    decreases k,
{
    if k > 0 {
        init_run_so_far(states, events, actions, k - 1);
        let (pre, e) = (states[k - 1], events[k - 1]);
        assert(init_moves(pre, e, states[k], actions[k - 1]));
        assert(may_make(events, k - 1) ==> may_make(events, k));
        if pre is Repeating {
            assert(was_typed(events, k - 1, pre->Repeating_0@) ==> was_typed(
                events,
                k,
                pre->Repeating_0@,
            ));
        }
    }
}

/// An identity is saved only where there was none, or the user said yes to
/// overwriting it; under a passphrase that is not empty and that was typed twice;
/// and it is a new one.
pub proof fn identities_are_made_with_consent(
    states: Seq<InitState>,
    events: Seq<InitEvent>,
    actions: Seq<InitAction>,
    k: int,
)
    requires
        init_run(states, events, actions),
        0 <= k < events.len(),
        actions[k] is Save,
    ensures
        may_make(events, k),
        events[k] is Typed,
        events[k]->Typed_0@ == actions[k]->passphrase@,
        was_typed(events, k, actions[k]->passphrase@),
        actions[k]->passphrase@.len() > 0,
        actions[k]->identity@.len() == 32,
        drawn_seed(actions[k]->identity@),
{
    init_run_so_far(states, events, actions, k);
    assert(init_moves(states[k], events[k], states[k + 1], actions[k]));
}

/// Each question in the making of an identity is put where it belongs, each answer
/// that ends it ends it with its reason, and an event that does not belong where
/// it comes changes nothing.
pub proof fn init_answers(pre: InitState, event: InitEvent, post: InitState, action: InitAction)
    requires
        init_moves(pre, event, post, action),
    ensures
        pre is Start && event is Looked ==> action is AskOverwrite && post is Confirming
            && event->Looked_0 || action is AskPassphrase && post is Choosing && !event->Looked_0,
        action is AskOverwrite ==> pre is Start && event is Looked,
        action is AskPassphrase ==> pre is Start || pre is Confirming,
        pre is Confirming && event is Answered ==> {
            let yes = event->Answered_0 is Some && says_yes(trimmed(event->Answered_0->0@));
            &&& yes ==> action is AskPassphrase && post is Choosing
            &&& !yes ==> action is Abort && post is Done
        },
        pre is Choosing && event is Typed ==> {
            let pw = event->Typed_0@;
            &&& pw.len() > 0 ==> action is AskAgain && post is Repeating && post->Repeating_0@ == pw
            &&& pw.len() == 0 ==> action is Fail && post is Done && action->Fail_0@
                == "passphrase must not be empty"@
        },
        pre is Repeating && event is Typed ==> {
            let same = event->Typed_0@ == pre->Repeating_0@;
            &&& same ==> action is Save && post is Saving && post->Saving_0@ == action->identity@
            &&& !same ==> action is Fail && post is Done && action->Fail_0@
                == "passphrases do not match"@
        },
        pre is Saving && event is Saved ==> post is Done && action is Show && action->Show_0.qr_payload@
            == "p2pchat:nodeid="@ + hex_text(ed25519_public(pre->Saving_0@)),
        pre is Done ==> post is Done && action is Ignore,
        action is Ignore ==> post == pre,
{
}

/// The lines on a header that was read.
pub open spec fn header_lines(h: Header) -> Seq<Seq<char>> {
    seq![
        "magic:       ok"@,
        "version:     "@ + decimal_text(h.version as nat),
        "kdf:         argon2id"@,
        "kdf params:  m="@ + decimal_text(h.kdf.m_kib as nat) + " KiB, t="@ + decimal_text(
            h.kdf.t as nat,
        ) + ", p="@ + decimal_text(h.kdf.p as nat),
        "status:      identity file present (unlock via `p2pchat unlock` in a later phase)"@,
    ]
}

/// The report on an identity file.
pub open spec fn file_lines(blob: Seq<u8>) -> Seq<Seq<char>> {
    let size = "file size:   "@ + decimal_text(blob.len()) + " bytes"@;
    seq![size] + match read_header(blob) {
        Ok(h) => header_lines(h),
        Err(e) => seq!["status:      identity file is malformed: "@ + e.text()],
    }
}

/// What the report on an identity file says: its size; and what its header holds,
/// or what is wrong with it.
pub proof fn file_reports(blob: Seq<u8>)
    ensures
        file_lines(blob)[0] == "file size:   "@ + decimal_text(blob.len()) + " bytes"@,
        match read_header(blob) {
            Ok(h) => {
                &&& file_lines(blob).len() == 6
                &&& file_lines(blob)[1] == "magic:       ok"@
                &&& file_lines(blob)[2] == "version:     "@ + decimal_text(h.version as nat)
                &&& file_lines(blob)[3] == "kdf:         argon2id"@
                &&& file_lines(blob)[4] == "kdf params:  m="@ + decimal_text(h.kdf.m_kib as nat)
                    + " KiB, t="@ + decimal_text(h.kdf.t as nat) + ", p="@ + decimal_text(
                    h.kdf.p as nat,
                )
                &&& file_lines(blob)[5]
                    == "status:      identity file present (unlock via `p2pchat unlock` in a later phase)"@
            },
            Err(e) => {
                &&& file_lines(blob).len() == 2
                &&& file_lines(blob)[1] == "status:      identity file is malformed: "@ + e.text()
            },
        },
{
}

/// The report on an identity file, or on there being none, line by line.
pub fn inspect_report(file: Option<&[u8]>) -> (lines: Vec<String>)
    ensures
        match file {
            Some(blob) => texts(lines@) == file_lines(blob@),
            None => texts(lines@) == seq![
                "status: no identity yet — run `p2pchat init` to create one"@,
            ],
        },
{
    let mut lines: Vec<String> = Vec::new();
    let blob = match file {
        Some(blob) => blob,
        None => {
            lines.push(
                String::from_str("status: no identity yet — run `p2pchat init` to create one"),
            );
            assert(texts(lines@) =~= seq![
                "status: no identity yet — run `p2pchat init` to create one"@,
            ]);
            return lines;
        },
    };
    lines.push(join3("file size:   ", decimal(blob.len() as u64).as_str(), " bytes"));
    match parse_header(blob) {
        Ok(h) => {
            lines.push(String::from_str("magic:       ok"));
            lines.push(join2("version:     ", decimal(h.version as u64).as_str()));
            lines.push(String::from_str("kdf:         argon2id"));
            let mut params = join2("kdf params:  m=", decimal(h.kdf.m_kib as u64).as_str());
            params.append(" KiB, t=");
            params.append(decimal(h.kdf.t as u64).as_str());
            params.append(", p=");
            params.append(decimal(h.kdf.p as u64).as_str());
            lines.push(params);
            lines.push(
                String::from_str(
                    "status:      identity file present (unlock via `p2pchat unlock` in a later phase)",
                ),
            );
        },
        Err(e) => {
            lines.push(join2("status:      identity file is malformed: ", e.text().as_str()));
        },
    }
    assert(texts(lines@) =~= file_lines(blob@));
    lines
}

/// What is shown of bytes that a peer sent.
pub open spec fn reply_view(bytes: Seq<u8>) -> Seq<char> {
    if valid_utf8(bytes) {
        decode_utf8(bytes)
    } else {
        "<non-utf8>"@
    }
}

/// What is shown of bytes that a peer sent.
pub fn reply_text(bytes: Vec<u8>) -> (s: String)
    ensures
        s@ == reply_view(bytes@),
{
    match utf8_text(bytes) {
        Some(text) => text,
        None => String::from_str("<non-utf8>"),
    }
}

/// Whether a reply to a ping is the one expected.
pub fn is_pong(reply: &str) -> (r: bool)
    ensures
        r == (reply@ == "pong"@),
{
    same_text(reply, "pong")
}

/// The QR code of some bytes: its width, and which of its modules are dark, row
/// by row; or why there is none.
pub uninterp spec fn qr_of(payload: Seq<u8>) -> Result<(nat, Seq<bool>), Seq<char>>;

/// `qrcode::QrCode::new`: the code of the bytes, whose modules form a square, or
/// what is wrong.
#[verifier::external_body]
fn qr_modules(payload: &[u8]) -> (r: Result<(usize, Vec<bool>), String>)
    ensures
        match r {
            Ok((width, dark)) => qr_of(payload@) == Ok::<(nat, Seq<bool>), Seq<char>>(
                (width as nat, dark@),
            ) && dark@.len() == width * width,
            Err(e) => qr_of(payload@) == Err::<(nat, Seq<bool>), Seq<char>>(e@),
        },
{
    let code = QrCode::new(payload).map_err(|e| e.to_string())?;
    let dark = code.to_colors().into_iter().map(|c| c == qrcode::Color::Dark).collect();
    Ok((code.width(), dark))
}

/// The light modules around a code.
pub const QUIET: usize = 4;

/// One row of a code on a terminal: two cells for each module, after the quiet
/// zone.
pub open spec fn qr_row(width: nat, dark: Seq<bool>, y: int) -> Seq<char> {
    Seq::new(
        (2 * (QUIET + width)) as nat,
        |i: int|
            if i >= 2 * QUIET && dark[y * width + (i - 2 * QUIET) / 2] {
                '█'
            } else {
                ' '
            },
    )
}

/// A code on a terminal, with empty lines above and below.
pub open spec fn qr_lines(width: nat, dark: Seq<bool>) -> Seq<Seq<char>> {
    Seq::new(
        (2 * QUIET + width) as nat,
        |i: int|
            if QUIET <= i < QUIET + width {
                qr_row(width, dark, i - QUIET)
            } else {
                seq![]
            },
    )
}

/// Each module of a code is two cells on the terminal, filled where it is dark;
/// there are four modules of space to its left, and four empty lines above and
/// below.
pub proof fn code_cells(width: nat, dark: Seq<bool>, x: int, y: int)
    requires
        0 <= x < width,
        0 <= y < width,
    ensures
        ({
            let lines = qr_lines(width, dark);
            let cell = if dark[y * width + x] {
                '█'
            } else {
                ' '
            };
            &&& lines.len() == width + 8
            &&& lines[y + 4].len() == 2 * width + 8
            &&& lines[y + 4][2 * x + 8] == cell
            &&& lines[y + 4][2 * x + 9] == cell
            &&& forall|i: int| 0 <= i < 8 ==> #[trigger] lines[y + 4][i] == ' '
            &&& forall|i: int|
                0 <= i < 4 || width + 4 <= i < width + 8 ==> (#[trigger] lines[i]).len() == 0
        }),
{
    assert((2 * x + 8 - 8) / 2 == x);
    assert((2 * x + 9 - 8) / 2 == x);
}

/// Draws one row of a code.
fn render_row(width: usize, dark: &Vec<bool>, y: usize) -> (line: String)
    requires
        y < width,
        dark@.len() == width * width,
    ensures
        line@ == qr_row(width as nat, dark@, y as int),
{
    proof {
        reveal_strlit("        ");
        reveal_strlit("██");
        reveal_strlit("  ");
    }
    let mut line = String::from_str("        ");
    let ghost whole = qr_row(width as nat, dark@, y as int);
    assert(line@ =~= whole.take(8));
    let mut x: usize = 0;
    while x < width
        invariant
            x <= width,
            y < width,
            dark@.len() == width * width,
            whole == qr_row(width as nat, dark@, y as int),
            line@ == whole.take(8 + 2 * x),
            "██"@ == seq!['█', '█'],
            "  "@ == seq![' ', ' '],
        decreases width - x,
    {
        assert(y * width + x < width * width) by (nonlinear_arith)
            requires
                x < width,
                y < width,
        ;
        assert(0 <= y * width) by (nonlinear_arith);
        assert(width * width == dark.len());
        let cell: bool = dark[y * width + x];
        line.append(if cell {
            "██"
        } else {
            "  "
        });
        assert(whole[8 + 2 * x] == whole[8 + 2 * x + 1]);
        assert(line@ =~= whole.take(8 + 2 * (x + 1)));
        x += 1;
    }
    assert(line@ =~= whole);
    line
}

/// Draws a code.
pub fn render_qr(width: usize, dark: &Vec<bool>) -> (lines: Vec<String>)
    requires
        dark@.len() == width * width,
    ensures
        texts(lines@) == qr_lines(width as nat, dark@),
{
    let ghost whole = qr_lines(width as nat, dark@);
    let mut lines: Vec<String> = Vec::new();
    let mut i: usize = 0;
    while i < QUIET
        invariant
            i <= QUIET,
            whole == qr_lines(width as nat, dark@),
            texts(lines@) == whole.take(i as int),
            lines@.len() == i,
        decreases QUIET - i,
    {
        let ghost before = lines@;
        lines.push(String::new());
        assert(texts(lines@) =~= texts(before).push(seq![]));
        assert(texts(lines@) =~= whole.take(i + 1));
        i += 1;
    }
    let mut y: usize = 0;
    while y < width
        invariant
            y <= width,
            dark@.len() == width * width,
            whole == qr_lines(width as nat, dark@),
            texts(lines@) == whole.take(QUIET + y),
            lines@.len() == QUIET + y,
        decreases width - y,
    {
        let ghost before = lines@;
        let line = render_row(width, dark, y);
        let ghost row = line@;
        lines.push(line);
        assert(texts(lines@) =~= texts(before).push(row));
        assert(texts(lines@) =~= whole.take(QUIET + y + 1));
        y += 1;
    }
    let mut i: usize = 0;
    while i < QUIET
        invariant
            i <= QUIET,
            whole == qr_lines(width as nat, dark@),
            texts(lines@) == whole.take(QUIET + width + i),
            lines@.len() == QUIET + width + i,
        decreases QUIET - i,
    {
        let ghost before = lines@;
        lines.push(String::new());
        assert(texts(lines@) =~= texts(before).push(seq![]));
        assert(texts(lines@) =~= whole.take(QUIET + width + i + 1));
        i += 1;
    }
    assert(texts(lines@) =~= whole);
    lines
}

/// The QR code for `payload`, drawn with Unicode block characters: each module
/// is two terminal cells (`██` for dark, two spaces for light), with a 4-module
/// quiet zone.
pub fn qr_text(payload: &[u8]) -> (r: Result<Vec<String>, String>)
    ensures
        match qr_of(payload@) {
            Ok((width, dark)) => r matches Ok(lines) && texts(lines@) == qr_lines(width, dark),
            Err(e) => r matches Err(text) && text@ == "qr encode: "@ + e,
        },
{
    match qr_modules(payload) {
        Ok((width, dark)) => Ok(render_qr(width, &dark)),
        Err(e) => Err(join2("qr encode: ", e.as_str())),
    }
}

} // verus!
