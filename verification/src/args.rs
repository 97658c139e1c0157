//! The command line.

use crate::number::{number_value, parse_number};
use crate::text::{characters, same_text, text_of, text_view, trim, trimmed};
use vstd::prelude::*;
use vstd::string::*;

verus! {

/// How many discovers are sent where the command line does not say.
pub const DEFAULT_TRIES: u32 = 8;

/// How many seconds an answer is awaited where the command line does not say.
pub const DEFAULT_TIMEOUT_SECS: u64 = 3;

/// The exit status after a wrong command line.
pub const USAGE_STATUS: u8 = 2;

/// What the command line asks for.
#[derive(Clone, Debug)]
pub struct Args {
    pub iface: String,
    pub oneshot: bool,
    pub quiet: bool,
    pub script: Option<String>,
    pub tries: u32,
    pub timeout_secs: u64,
    pub lease_path: Option<String>,
    pub hostname: Option<String>,
}

/// What an [`Args`] stands for.
#[verifier::ext_equal]
pub ghost struct ArgsView {
    pub iface: Seq<char>,
    pub oneshot: bool,
    pub quiet: bool,
    pub script: Option<Seq<char>>,
    pub tries: u32,
    pub timeout_secs: u64,
    pub lease_path: Option<Seq<char>>,
    pub hostname: Option<Seq<char>>,
}

impl View for Args {
    type V = ArgsView;

    open spec fn view(&self) -> ArgsView {
        ArgsView {
            iface: self.iface@,
            oneshot: self.oneshot,
            quiet: self.quiet,
            script: text_view(self.script),
            tries: self.tries,
            timeout_secs: self.timeout_secs,
            lease_path: text_view(self.lease_path),
            hostname: text_view(self.hostname),
        }
    }
}

/// Why a command line is not understood.
#[derive(Clone, Debug)]
pub enum UsageError {
    /// Help was asked for, the interface or a value is missing, or a number is none.
    Usage,
    /// This argument means nothing.
    Unknown(String),
}

/// What a [`UsageError`] stands for.
#[verifier::ext_equal]
pub ghost enum UsageErrorView {
    Usage,
    Unknown(Seq<char>),
}

impl View for UsageError {
    type V = UsageErrorView;

    open spec fn view(&self) -> UsageErrorView {
        match self {
            UsageError::Usage => UsageErrorView::Usage,
            UsageError::Unknown(s) => UsageErrorView::Unknown(s@),
        }
    }
}

/// What the arguments have asked for so far.
#[verifier::ext_equal]
pub ghost struct Asked {
    pub iface: Option<Seq<char>>,
    pub oneshot: bool,
    pub quiet: bool,
    pub script: Option<Seq<char>>,
    pub tries: u32,
    pub timeout_secs: u64,
    pub lease_path: Option<Seq<char>>,
    pub hostname: Option<Seq<char>>,
}

/// What a command line without arguments asks for.
pub open spec fn nothing_asked() -> Asked {
    Asked {
        iface: None,
        oneshot: false,
        quiet: false,
        script: None,
        tries: 8,
        timeout_secs: 3,
        lease_path: None,
        hostname: None,
    }
}

/// Whether a value must follow `flag`.
pub open spec fn takes_value(flag: Seq<char>) -> bool {
    flag == "-i"@ || flag == "-s"@ || flag == "-l"@ || flag == "-H"@ || flag == "-t"@ || flag
        == "-T"@
}

/// `asked` after `flag` and its value; `None` where the value must be a number and is none.
pub open spec fn with_value(asked: Asked, flag: Seq<char>, value: Seq<char>) -> Option<Asked> {
    if flag == "-i"@ {
        Some(Asked { iface: Some(value), ..asked })
    } else if flag == "-s"@ {
        Some(Asked { script: Some(value), ..asked })
    } else if flag == "-l"@ {
        Some(Asked { lease_path: Some(value), ..asked })
    } else if flag == "-H"@ {
        Some(Asked { hostname: Some(value), ..asked })
    } else if flag == "-t"@ {
        match number_value(value, 10, u32::MAX as nat) {
            Ok(n) => Some(Asked { tries: n as u32, ..asked }),
            Err(_) => None,
        }
    } else {
        match number_value(value, 10, u64::MAX as nat) {
            Ok(n) => Some(Asked { timeout_secs: n as u64, ..asked }),
            Err(_) => None,
        }
    }
}

/// `asked` after the arguments `argv`, or the first error among them.
pub open spec fn ask(asked: Asked, argv: Seq<Seq<char>>) -> Result<Asked, UsageErrorView>
    decreases argv.len(),
{
    if argv.len() == 0 {
        Ok(asked)
    } else if takes_value(argv[0]) {
        if argv.len() == 1 {
            Err(UsageErrorView::Usage)
        } else {
            match with_value(asked, argv[0], argv[1]) {
                Some(next) => ask(next, argv.skip(2)),
                None => Err(UsageErrorView::Usage),
            }
        }
    } else if argv[0] == "-n"@ {
        ask(Asked { oneshot: true, ..asked }, argv.skip(1))
    } else if argv[0] == "-q"@ {
        ask(Asked { quiet: true, ..asked }, argv.skip(1))
    } else if argv[0] == "-h"@ || argv[0] == "--help"@ {
        Err(UsageErrorView::Usage)
    } else {
        Err(UsageErrorView::Unknown(argv[0]))
    }
}

/// What the arguments `argv` ask for. The interface must be named.
pub open spec fn args_value(argv: Seq<Seq<char>>) -> Result<ArgsView, UsageErrorView> {
    match ask(nothing_asked(), argv) {
        Ok(asked) => match asked.iface {
            Some(iface) => Ok(
                ArgsView {
                    iface,
                    oneshot: asked.oneshot,
                    quiet: asked.quiet,
                    script: asked.script,
                    tries: asked.tries,
                    timeout_secs: asked.timeout_secs,
                    lease_path: asked.lease_path,
                    hostname: asked.hostname,
                },
            ),
            None => Err(UsageErrorView::Usage),
        },
        Err(e) => Err(e),
    }
}

/// The texts that a vector of strings holds.
pub open spec fn argument_texts(v: Seq<String>) -> Seq<Seq<char>> {
    v.map_values(|s: String| s@)
}

struct Wanted {
    iface: Option<String>,
    oneshot: bool,
    quiet: bool,
    script: Option<String>,
    tries: u32,
    timeout_secs: u64,
    lease_path: Option<String>,
    hostname: Option<String>,
}

impl View for Wanted {
    type V = Asked;

    closed spec fn view(&self) -> Asked {
        Asked {
            iface: text_view(self.iface),
            oneshot: self.oneshot,
            quiet: self.quiet,
            script: text_view(self.script),
            tries: self.tries,
            timeout_secs: self.timeout_secs,
            lease_path: text_view(self.lease_path),
            hostname: text_view(self.hostname),
        }
    }
}

impl Wanted {
    /// Takes the value that follows `flag`; `false` where it must be a number and is none.
    fn take_value(&mut self, flag: &[char], value: &String) -> (r: bool)
        requires
            takes_value(flag@),
        ensures
            match with_value(old(self)@, flag@, value@) {
                Some(next) => r && final(self)@ == next,
                None => !r,
            },
    {
        if same_text(flag, "-i") {
            self.iface = Some(value.clone());
        } else if same_text(flag, "-s") {
            self.script = Some(value.clone());
        } else if same_text(flag, "-l") {
            self.lease_path = Some(value.clone());
        } else if same_text(flag, "-H") {
            self.hostname = Some(value.clone());
        } else if same_text(flag, "-t") {
            match parse_number(&characters(value.as_str()), 10, u32::MAX as u64) {
                Ok(n) => {
                    self.tries = n as u32;
                },
                Err(_) => {
                    return false;
                },
            }
        } else {
            match parse_number(&characters(value.as_str()), 10, u64::MAX) {
                Ok(n) => {
                    self.timeout_secs = n;
                },
                Err(_) => {
                    return false;
                },
            }
        }
        true
    }
}

fn wants_value(flag: &[char]) -> (r: bool)
    ensures
        r == takes_value(flag@),
{
    same_text(flag, "-i") || same_text(flag, "-s") || same_text(flag, "-l") || same_text(flag, "-H")
        || same_text(flag, "-t") || same_text(flag, "-T")
}

/// What the arguments `argv`, without the program's name, ask for.
pub fn parse_args(argv: &Vec<String>) -> (r: Result<Args, UsageError>)
    ensures
        match r {
            Ok(args) => args_value(argument_texts(argv@)) == Ok::<_, UsageErrorView>(args@),
            Err(e) => args_value(argument_texts(argv@)) == Err::<ArgsView, _>(e@),
        },
{
    let mut wanted = Wanted {
        iface: None,
        oneshot: false,
        quiet: false,
        script: None,
        tries: DEFAULT_TRIES,
        timeout_secs: DEFAULT_TIMEOUT_SECS,
        lease_path: None,
        hostname: None,
    };
    let ghost all = argument_texts(argv@);
    let mut i: usize = 0;
    proof {
        assert(wanted@ =~= nothing_asked());
        assert(all.skip(0) =~= all);
    }
    while i < argv.len()
        invariant
            i <= argv.len(),
            all == argument_texts(argv@),
            ask(nothing_asked(), all) == ask(wanted@, all.skip(i as int)),
        decreases argv.len() - i,
    {
        let ghost left = all.skip(i as int);
        let flag: Vec<char> = characters(argv[i].as_str());
        proof {
            assert(left[0] == flag@);
        }
        if wants_value(&flag) {
            if i + 1 >= argv.len() {
                return Err(UsageError::Usage);
            }
            proof {
                assert(left[1] == argv@[i + 1]@);
                assert(left.skip(2) =~= all.skip(i + 2));
            }
            if !wanted.take_value(&flag, &argv[i + 1]) {
                return Err(UsageError::Usage);
            }
            i += 2;
        } else if same_text(&flag, "-n") {
            wanted.oneshot = true;
            proof {
                assert(left.skip(1) =~= all.skip(i + 1));
            }
            i += 1;
        } else if same_text(&flag, "-q") {
            wanted.quiet = true;
            proof {
                assert(left.skip(1) =~= all.skip(i + 1));
            }
            i += 1;
        } else if same_text(&flag, "-h") || same_text(&flag, "--help") {
            return Err(UsageError::Usage);
        } else {
            return Err(UsageError::Unknown(argv[i].clone()));
        }
    }
    match wanted.iface {
        Some(iface) => Ok(
            Args {
                iface,
                oneshot: wanted.oneshot,
                quiet: wanted.quiet,
                script: wanted.script,
                tries: wanted.tries,
                timeout_secs: wanted.timeout_secs,
                lease_path: wanted.lease_path,
                hostname: wanted.hostname,
            },
        ),
        None => Err(UsageError::Usage),
    }
}

/// The host name to send: the one asked for, else what the system's host name file says, unless
/// that is blank.
pub open spec fn chosen_hostname(
    asked: Option<Seq<char>>,
    file: Option<Seq<char>>,
) -> Option<Seq<char>> {
    match (asked, file) {
        (Some(h), _) => Some(h),
        (None, Some(text)) => if trimmed(text).len() > 0 {
            Some(trimmed(text))
        } else {
            None
        },
        (None, None) => None,
    }
}

/// `args` with the host name to send, given the contents of the system's host name file where it
/// could be read.
pub fn with_hostname_file(args: Args, file: Option<String>) -> (r: Args)
    ensures
        r@ == (ArgsView {
            hostname: chosen_hostname(args@.hostname, text_view(file)),
            ..args@
        }),
{
    if args.hostname.is_some() {
        return args;
    }
    match file {
        Some(text) => {
            let all: Vec<char> = characters(text.as_str());
            let name: &[char] = trim(&all);
            if name.len() > 0 {
                let hostname: Option<String> = Some(text_of(name));
                Args { hostname, ..args }
            } else {
                args
            }
        },
        None => args,
    }
}

/// How the program is called.
pub fn usage_text() -> (r: &'static str)
    ensures
        r@ == "usage: rlease -i IFACE [-n] [-q] [-s SCRIPT] [-l PATH] [-H NAME] [-t TRIES] [-T SECONDS]\n-i  interface (required)\n-l  lease file\n-n  exit after lease (oneshot)\n-q  quieter logging\n-s  udhcpc-compatible hook script (arg: bound)\n-H  hostname to send (default: /etc/hostname)\n-t  discover/request attempts (default 8)\n-T  per-attempt timeout seconds (default 3)"@,
{
    "usage: rlease -i IFACE [-n] [-q] [-s SCRIPT] [-l PATH] [-H NAME] [-t TRIES] [-T SECONDS]\n-i  interface (required)\n-l  lease file\n-n  exit after lease (oneshot)\n-q  quieter logging\n-s  udhcpc-compatible hook script (arg: bound)\n-H  hostname to send (default: /etc/hostname)\n-t  discover/request attempts (default 8)\n-T  per-attempt timeout seconds (default 3)"
}

/// The views of what the command line asks for leave nothing out.
pub proof fn law_args_view(args: Args, v: Seq<String>, i: int, s: String)
    ensures
        args@.iface == args.iface@,
        args@.oneshot == args.oneshot,
        args@.quiet == args.quiet,
        args@.tries == args.tries,
        args@.timeout_secs == args.timeout_secs,
        args.script matches Some(t) ==> args@.script == Some(t@),
        args.script is None ==> args@.script is None,
        args.lease_path matches Some(t) ==> args@.lease_path == Some(t@),
        args.lease_path is None ==> args@.lease_path is None,
        args.hostname matches Some(t) ==> args@.hostname == Some(t@),
        args.hostname is None ==> args@.hostname is None,
        argument_texts(v).len() == v.len(),
        0 <= i < v.len() ==> argument_texts(v)[i] == v[i]@,
        UsageError::Unknown(s)@ == UsageErrorView::Unknown(s@),
        UsageError::Usage@ == UsageErrorView::Usage,
{
}

/// A flag with a value sets that value, whatever it is and whatever was asked for before, and nothing
/// else; what follows is read as if it came first.
pub proof fn law_flags_with_values(asked: Asked, value: Seq<char>, rest: Seq<Seq<char>>)
    ensures
        ask(asked, seq!["-i"@, value] + rest) == ask((Asked { iface: Some(value), ..asked }), rest),
        ask(asked, seq!["-s"@, value] + rest) == ask((Asked { script: Some(value), ..asked }), rest),
        ask(asked, seq!["-l"@, value] + rest) == ask((Asked { lease_path: Some(value), ..asked }), rest),
        ask(asked, seq!["-H"@, value] + rest) == ask((Asked { hostname: Some(value), ..asked }), rest),
        ask(asked, seq!["-t"@, value] + rest) == match number_value(value, 10, 0xffff_ffff) {
            Ok(n) => ask((Asked { tries: n as u32, ..asked }), rest),
            Err(_) => Err(UsageErrorView::Usage),
        },
        ask(asked, seq!["-T"@, value] + rest) == match number_value(
            value,
            10,
            0xffff_ffff_ffff_ffff,
        ) {
            Ok(n) => ask((Asked { timeout_secs: n as u64, ..asked }), rest),
            Err(_) => Err(UsageErrorView::Usage),
        },
{
    lemma_flags_differ();
    lemma_rest("-i"@, value, rest);
    lemma_rest("-s"@, value, rest);
    lemma_rest("-l"@, value, rest);
    lemma_rest("-H"@, value, rest);
    lemma_rest("-t"@, value, rest);
    lemma_rest("-T"@, value, rest);
}

proof fn lemma_rest(flag: Seq<char>, value: Seq<char>, rest: Seq<Seq<char>>)
    ensures
        (seq![flag, value] + rest).skip(2) == rest,
        (seq![flag, value] + rest)[0] == flag,
        (seq![flag, value] + rest)[1] == value,
        (seq![flag] + rest).skip(1) == rest,
        (seq![flag] + rest)[0] == flag,
{
    assert((seq![flag, value] + rest).skip(2) =~= rest);
    assert((seq![flag] + rest).skip(1) =~= rest);
}

/// A flag without a value sets what it stands for and nothing else. A flag that lacks its value, a
/// call for help and a flag that means nothing are errors.
pub proof fn law_other_flags(asked: Asked, other: Seq<char>, rest: Seq<Seq<char>>)
    ensures
        ask(asked, Seq::empty()) == Ok::<Asked, UsageErrorView>(asked),
        ask(asked, seq!["-n"@] + rest) == ask((Asked { oneshot: true, ..asked }), rest),
        ask(asked, seq!["-q"@] + rest) == ask((Asked { quiet: true, ..asked }), rest),
        ask(asked, seq!["-h"@] + rest) == Err::<Asked, _>(UsageErrorView::Usage),
        ask(asked, seq!["--help"@] + rest) == Err::<Asked, _>(UsageErrorView::Usage),
        ask(asked, seq!["-i"@]) == Err::<Asked, _>(UsageErrorView::Usage),
        ask(asked, seq!["-s"@]) == Err::<Asked, _>(UsageErrorView::Usage),
        ask(asked, seq!["-l"@]) == Err::<Asked, _>(UsageErrorView::Usage),
        ask(asked, seq!["-H"@]) == Err::<Asked, _>(UsageErrorView::Usage),
        ask(asked, seq!["-t"@]) == Err::<Asked, _>(UsageErrorView::Usage),
        ask(asked, seq!["-T"@]) == Err::<Asked, _>(UsageErrorView::Usage),
        other != "-i"@ && other != "-s"@ && other != "-l"@ && other != "-H"@ && other != "-t"@
            && other != "-T"@ && other != "-n"@ && other != "-q"@ && other != "-h"@ && other
            != "--help"@ ==> ask(asked, seq![other] + rest) == Err::<Asked, _>(
            UsageErrorView::Unknown(other),
        ),
{
    lemma_flags_differ();
    lemma_rest("-n"@, other, rest);
    lemma_rest("-q"@, other, rest);
    lemma_rest("-h"@, other, rest);
    lemma_rest("--help"@, other, rest);
    lemma_rest(other, other, rest);
}

proof fn lemma_flags_differ()
    ensures
        "-s"@ != "-i"@,
        "-l"@ != "-i"@,
        "-l"@ != "-s"@,
        "-H"@ != "-i"@,
        "-H"@ != "-s"@,
        "-H"@ != "-l"@,
        "-t"@ != "-i"@,
        "-t"@ != "-s"@,
        "-t"@ != "-l"@,
        "-t"@ != "-H"@,
        "-T"@ != "-i"@,
        "-T"@ != "-s"@,
        "-T"@ != "-l"@,
        "-T"@ != "-H"@,
        "-T"@ != "-t"@,
        "-n"@ != "-i"@,
        "-n"@ != "-s"@,
        "-n"@ != "-l"@,
        "-n"@ != "-H"@,
        "-n"@ != "-t"@,
        "-n"@ != "-T"@,
        "-q"@ != "-i"@,
        "-q"@ != "-s"@,
        "-q"@ != "-l"@,
        "-q"@ != "-H"@,
        "-q"@ != "-t"@,
        "-q"@ != "-T"@,
        "-q"@ != "-n"@,
        "-h"@ != "-i"@,
        "-h"@ != "-s"@,
        "-h"@ != "-l"@,
        "-h"@ != "-H"@,
        "-h"@ != "-t"@,
        "-h"@ != "-T"@,
        "-h"@ != "-n"@,
        "-h"@ != "-q"@,
        "--help"@ != "-i"@,
        "--help"@ != "-s"@,
        "--help"@ != "-l"@,
        "--help"@ != "-H"@,
        "--help"@ != "-t"@,
        "--help"@ != "-T"@,
        "--help"@ != "-n"@,
        "--help"@ != "-q"@,
        "--help"@ != "-h"@,
{
    reveal_strlit("-i");
    reveal_strlit("-s");
    reveal_strlit("-l");
    reveal_strlit("-H");
    reveal_strlit("-t");
    reveal_strlit("-T");
    reveal_strlit("-n");
    reveal_strlit("-q");
    reveal_strlit("-h");
    reveal_strlit("--help");
    assert("-i"@.len() == 2);
    assert("-s"@.len() == 2);
    assert("-l"@.len() == 2);
    assert("-H"@.len() == 2);
    assert("-t"@.len() == 2);
    assert("-T"@.len() == 2);
    assert("-n"@.len() == 2);
    assert("-q"@.len() == 2);
    assert("-h"@.len() == 2);
    assert("--help"@.len() == 6);
    assert("-s"@[1] != "-i"@[1]);
    assert("-l"@[1] != "-i"@[1]);
    assert("-l"@[1] != "-s"@[1]);
    assert("-H"@[1] != "-i"@[1]);
    assert("-H"@[1] != "-s"@[1]);
    assert("-H"@[1] != "-l"@[1]);
    assert("-t"@[1] != "-i"@[1]);
    assert("-t"@[1] != "-s"@[1]);
    assert("-t"@[1] != "-l"@[1]);
    assert("-t"@[1] != "-H"@[1]);
    assert("-T"@[1] != "-i"@[1]);
    assert("-T"@[1] != "-s"@[1]);
    assert("-T"@[1] != "-l"@[1]);
    assert("-T"@[1] != "-H"@[1]);
    assert("-T"@[1] != "-t"@[1]);
    assert("-n"@[1] != "-i"@[1]);
    assert("-n"@[1] != "-s"@[1]);
    assert("-n"@[1] != "-l"@[1]);
    assert("-n"@[1] != "-H"@[1]);
    assert("-n"@[1] != "-t"@[1]);
    assert("-n"@[1] != "-T"@[1]);
    assert("-q"@[1] != "-i"@[1]);
    assert("-q"@[1] != "-s"@[1]);
    assert("-q"@[1] != "-l"@[1]);
    assert("-q"@[1] != "-H"@[1]);
    assert("-q"@[1] != "-t"@[1]);
    assert("-q"@[1] != "-T"@[1]);
    assert("-q"@[1] != "-n"@[1]);
    assert("-h"@[1] != "-i"@[1]);
    assert("-h"@[1] != "-s"@[1]);
    assert("-h"@[1] != "-l"@[1]);
    assert("-h"@[1] != "-H"@[1]);
    assert("-h"@[1] != "-t"@[1]);
    assert("-h"@[1] != "-T"@[1]);
    assert("-h"@[1] != "-n"@[1]);
    assert("-h"@[1] != "-q"@[1]);
}

/// Without flags nothing is asked for but eight tries of three seconds each. The interface must be
/// named; then everything that was asked for is handed on.
pub proof fn law_arguments_asked_for(argv: Seq<Seq<char>>)
    ensures
        ({
            let none = nothing_asked();
            &&& none.iface is None && none.script is None && none.lease_path is None
            &&& none.hostname is None && !none.oneshot && !none.quiet
            &&& none.tries == 8 && none.timeout_secs == 3
            &&& match ask(none, argv) {
                Err(e) => args_value(argv) == Err::<ArgsView, _>(e),
                Ok(asked) => match args_value(argv) {
                    Ok(args) => {
                        &&& asked.iface == Some(args.iface)
                        &&& args.oneshot == asked.oneshot && args.quiet == asked.quiet
                        &&& args.script == asked.script && args.lease_path == asked.lease_path
                        &&& args.tries == asked.tries && args.timeout_secs == asked.timeout_secs
                        &&& args.hostname == asked.hostname
                    },
                    Err(e) => asked.iface is None && e is Usage,
                },
            }
        }),
{
}

/// A host name that was asked for is taken as it is; else the file's, without the white space around
/// it, where anything is left.
pub proof fn law_hostname_to_send(asked: Seq<char>, file: Seq<char>)
    ensures
        chosen_hostname(Some(asked), Some(file)) == Some(asked),
        chosen_hostname(Some(asked), None) == Some(asked),
        chosen_hostname(None, None) is None,
        trimmed(file).len() == 0 ==> chosen_hostname(None, Some(file)) is None,
        trimmed(file).len() > 0 ==> chosen_hostname(None, Some(file)) == Some(trimmed(file)),
{
}

} // verus!
