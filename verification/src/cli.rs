use vstd::prelude::*;
use crate::devices::UserInput;
use crate::radix::{parse_usize, usize_value};
use crate::text::{starts_with_char, text_is};

verus! {

/// The device preferences given on the command line of the passthrough tool.
pub struct CliConfig {
    pub play: UserInput,
    pub cap: UserInput,
    pub play_name: String,
    pub cap_name: String,
    /// Preferred playback device index.
    pub dev_index_output: usize,
    /// Preferred capture device index.
    pub dev_index_input: usize,
}

/// A message owed to the user while the arguments are read; indices are argument positions.
pub enum CliNote {
    /// A playback device name was given (the argument at this position).
    PlayName(usize),
    /// A playback device index was given (this value).
    PlayId(usize),
    /// A capture device name was given (the argument at this position).
    CapName(usize),
    /// A capture device index was given (this value).
    CapId(usize),
    /// The argument at this position looks like an option but is none.
    UnknownArgument(usize),
    /// The argument at this position is an unexpected positional argument.
    UnknownPositional(usize),
}

/// How reading the arguments ended.
pub enum CliEnd {
    /// All arguments were read: the tool runs.
    Run,
    /// Help was asked for: print it and exit successfully.
    Help,
    /// The version was asked for: print it and exit successfully.
    Version,
    /// The option at this position needs a value and none follows.
    MissingValue(usize),
    /// The value at this position is no device index.
    BadId(usize),
}

/// What reading the command line produced.
pub struct CliOutcome {
    pub config: CliConfig,
    pub notes: Vec<CliNote>,
    pub end: CliEnd,
}

/// The preferences and messages gathered so far, over plain values.
pub struct CliModel {
    pub play: UserInput,
    pub cap: UserInput,
    pub play_name: Seq<char>,
    pub cap_name: Seq<char>,
    pub dev_index_output: usize,
    pub dev_index_input: usize,
    pub notes: Seq<CliNote>,
}

/// No preference given and nothing to report.
pub open spec fn initial_model() -> CliModel {
    CliModel {
        play: UserInput::NoUserInput,
        cap: UserInput::NoUserInput,
        play_name: Seq::<char>::empty(),
        cap_name: Seq::<char>::empty(),
        dev_index_output: 0,
        dev_index_input: 0,
        notes: Seq::<CliNote>::empty(),
    }
}

/// The characters of each argument.
pub open spec fn arg_texts(args: Seq<String>) -> Seq<Seq<char>> {
    args.map_values(|a: String| a@)
}

/// Reads the arguments from position `i` on: `-h`/`--help` and `--version` stop at once;
/// `--playname`, `--capname` take the next argument as a device name; `--playid`, `--capid`
/// take it as a device index; anything else is reported as unknown and skipped.
pub open spec fn cli_run(args: Seq<Seq<char>>, i: nat, st: CliModel) -> (CliModel, CliEnd)
    decreases args.len() - i,
{
    if i >= args.len() {
        (st, CliEnd::Run)
    } else {
        let a = args[i as int];
        let has_value = i + 1 < args.len();
        if a == "-h"@ || a == "--help"@ {
            (st, CliEnd::Help)
        } else if a == "--version"@ {
            (st, CliEnd::Version)
        } else if a == "--playname"@ {
            if has_value {
                cli_run(
                    args,
                    i + 2,
                    CliModel {
                        play: UserInput::UserInputName,
                        play_name: args[i + 1 as int],
                        notes: st.notes.push(CliNote::PlayName((i + 1) as usize)),
                        ..st
                    },
                )
            } else {
                (st, CliEnd::MissingValue(i as usize))
            }
        } else if a == "--playid"@ {
            if !has_value {
                (st, CliEnd::MissingValue(i as usize))
            } else {
                match usize_value(args[i + 1 as int]) {
                    Some(v) => cli_run(
                        args,
                        i + 2,
                        CliModel {
                            play: UserInput::UserInputId,
                            dev_index_output: v as usize,
                            notes: st.notes.push(CliNote::PlayId(v as usize)),
                            ..st
                        },
                    ),
                    None => (st, CliEnd::BadId((i + 1) as usize)),
                }
            }
        } else if a == "--capname"@ {
            if has_value {
                cli_run(
                    args,
                    i + 2,
                    CliModel {
                        cap: UserInput::UserInputName,
                        cap_name: args[i + 1 as int],
                        notes: st.notes.push(CliNote::CapName((i + 1) as usize)),
                        ..st
                    },
                )
            } else {
                (st, CliEnd::MissingValue(i as usize))
            }
        } else if a == "--capid"@ {
            if !has_value {
                (st, CliEnd::MissingValue(i as usize))
            } else {
                match usize_value(args[i + 1 as int]) {
                    Some(v) => cli_run(
                        args,
                        i + 2,
                        CliModel {
                            cap: UserInput::UserInputId,
                            dev_index_input: v as usize,
                            notes: st.notes.push(CliNote::CapId(v as usize)),
                            ..st
                        },
                    ),
                    None => (st, CliEnd::BadId((i + 1) as usize)),
                }
            }
        } else if a.len() > 0 && a[0] == '-' {
            cli_run(
                args,
                i + 1,
                CliModel { notes: st.notes.push(CliNote::UnknownArgument(i as usize)), ..st },
            )
        } else {
            cli_run(
                args,
                i + 1,
                CliModel { notes: st.notes.push(CliNote::UnknownPositional(i as usize)), ..st },
            )
        }
    }
}

/// The plain-value picture of preferences and messages.
pub open spec fn model_of(config: CliConfig, notes: Seq<CliNote>) -> CliModel {
    CliModel {
        play: config.play,
        cap: config.cap,
        play_name: config.play_name@,
        cap_name: config.cap_name@,
        dev_index_output: config.dev_index_output,
        dev_index_input: config.dev_index_input,
        notes: notes,
    }
}

impl CliOutcome {
    /// The plain-value picture of the outcome.
    pub open spec fn model(&self) -> (CliModel, CliEnd) {
        (model_of(self.config, self.notes@), self.end)
    }
}

/// Reads the command-line arguments (program name excluded) of the passthrough tool.
pub fn parse_cli_args(args: &Vec<String>) -> (outcome: CliOutcome)
    ensures
        outcome.model() == cli_run(arg_texts(args@), 0, initial_model()),
{
    let ghost texts = arg_texts(args@);
    let mut config = CliConfig {
        play: UserInput::NoUserInput,
        cap: UserInput::NoUserInput,
        play_name: String::new(),
        cap_name: String::new(),
        dev_index_output: 0,
        dev_index_input: 0,
    };
    let mut notes: Vec<CliNote> = Vec::new();
    let mut i: usize = 0;
    proof {
        assert(model_of(config, notes@) == initial_model());
    }
    while i < args.len()
        invariant
            i <= args@.len(),
            texts == arg_texts(args@),
            texts.len() == args@.len(),
            cli_run(texts, i as nat, model_of(config, notes@)) == cli_run(texts, 0, initial_model()),
        decreases args@.len() - i,
    {
        let ghost st = model_of(config, notes@);
        let a = args[i].as_str();
        assert(a@ == texts[i as int]);
        let has_value = i + 1 < args.len();
        if text_is(a, "-h") || text_is(a, "--help") {
            return CliOutcome { config, notes, end: CliEnd::Help };
        } else if text_is(a, "--version") {
            return CliOutcome { config, notes, end: CliEnd::Version };
        } else if text_is(a, "--playname") {
            if !has_value {
                return CliOutcome { config, notes, end: CliEnd::MissingValue(i) };
            }
            config.play = UserInput::UserInputName;
            config.play_name = args[i + 1].clone();
            notes.push(CliNote::PlayName(i + 1));
            assert(model_of(config, notes@) == CliModel {
                play: UserInput::UserInputName,
                play_name: texts[i + 1],
                notes: st.notes.push(CliNote::PlayName((i + 1) as usize)),
                ..st
            });
            i = i + 2;
        } else if text_is(a, "--playid") {
            if !has_value {
                return CliOutcome { config, notes, end: CliEnd::MissingValue(i) };
            }
            assert(args[i + 1 as int]@ == texts[i + 1]);
            match parse_usize(args[i + 1].as_str()) {
                Some(v) => {
                    config.play = UserInput::UserInputId;
                    config.dev_index_output = v;
                    notes.push(CliNote::PlayId(v));
                    assert(model_of(config, notes@) == CliModel {
                        play: UserInput::UserInputId,
                        dev_index_output: v,
                        notes: st.notes.push(CliNote::PlayId(v)),
                        ..st
                    });
                    i = i + 2;
                },
                None => {
                    return CliOutcome { config, notes, end: CliEnd::BadId(i + 1) };
                },
            }
        } else if text_is(a, "--capname") {
            if !has_value {
                return CliOutcome { config, notes, end: CliEnd::MissingValue(i) };
            }
            config.cap = UserInput::UserInputName;
            config.cap_name = args[i + 1].clone();
            notes.push(CliNote::CapName(i + 1));
            assert(model_of(config, notes@) == CliModel {
                cap: UserInput::UserInputName,
                cap_name: texts[i + 1],
                notes: st.notes.push(CliNote::CapName((i + 1) as usize)),
                ..st
            });
            i = i + 2;
        } else if text_is(a, "--capid") {
            if !has_value {
                return CliOutcome { config, notes, end: CliEnd::MissingValue(i) };
            }
            assert(args[i + 1 as int]@ == texts[i + 1]);
            match parse_usize(args[i + 1].as_str()) {
                Some(v) => {
                    config.cap = UserInput::UserInputId;
                    config.dev_index_input = v;
                    notes.push(CliNote::CapId(v));
                    assert(model_of(config, notes@) == CliModel {
                        cap: UserInput::UserInputId,
                        dev_index_input: v,
                        notes: st.notes.push(CliNote::CapId(v)),
                        ..st
                    });
                    i = i + 2;
                },
                None => {
                    return CliOutcome { config, notes, end: CliEnd::BadId(i + 1) };
                },
            }
        } else if starts_with_char(a, '-') {
            notes.push(CliNote::UnknownArgument(i));
            assert(model_of(config, notes@) == CliModel {
                notes: st.notes.push(CliNote::UnknownArgument(i)),
                ..st
            });
            i = i + 1;
        } else {
            notes.push(CliNote::UnknownPositional(i));
            assert(model_of(config, notes@) == CliModel {
                notes: st.notes.push(CliNote::UnknownPositional(i)),
                ..st
            });
            i = i + 1;
        }
    }
    CliOutcome { config, notes, end: CliEnd::Run }
}


/// The version line: program name, a space, and the version.
pub open spec fn version_spec(prog: Seq<char>) -> Seq<char> {
    prog + " "@ + "Version 0.1"@
}

/// The usage text of the passthrough tool for the given program name.
pub open spec fn help_spec(prog: Seq<char>) -> Seq<char> {
    version_spec(prog) + "\n  Usage:\n  \t"@ + prog
        + "\n  \t\t- Runs the program with system default playback device\n  \t"@ + prog
        + " -h, --help\n  \t\t- shows this help message\n  \t"@ + prog
        + " --version\n  \t\t- shows the program version\n  \t"@ + prog
        + " --playname <playback device name>\n  \t\t- preferred playback device name\n  \t"@
        + prog + " --playid <playback device ID>\n  \t\t- preferred playback device ID\n  \t"@
        + prog + " --capname <playback device name>\n  \t\t- preferred playback device name\n  \t"@
        + prog + " --capid <playback device ID>\n  \t\t- preferred playback device ID\n"@
}

/// The version line for the given program name.
pub fn version_text(prog: &str) -> (line: String)
    ensures
        line@ == version_spec(prog@),
{
    let mut line = prog.to_owned();
    line.append(" ");
    line.append("Version 0.1");
    line
}

/// The usage text for the given program name.
pub fn help_text(prog: &str) -> (text: String)
    ensures
        text@ == help_spec(prog@),
        occurs_in(prog@ + " -h, --help\n  \t\t- shows this help message\n  \t"@, text@),
        occurs_in(prog@ + " --version\n  \t\t- shows the program version\n  \t"@, text@),
        occurs_in(
            prog@ + " --playname <playback device name>\n  \t\t- preferred playback device name\n  \t"@,
            text@,
        ),
        occurs_in(
            prog@ + " --playid <playback device ID>\n  \t\t- preferred playback device ID\n  \t"@,
            text@,
        ),
        occurs_in(
            prog@ + " --capname <playback device name>\n  \t\t- preferred playback device name\n  \t"@,
            text@,
        ),
        occurs_in(
            prog@ + " --capid <playback device ID>\n  \t\t- preferred playback device ID\n"@,
            text@,
        ),
{
    proof {
        lemma_help_documents_every_option(prog@);
    }
    let mut text = version_text(prog);
    text.append("\n  Usage:\n  \t");
    text.append(prog);
    text.append("\n  \t\t- Runs the program with system default playback device\n  \t");
    text.append(prog);
    text.append(" -h, --help\n  \t\t- shows this help message\n  \t");
    text.append(prog);
    text.append(" --version\n  \t\t- shows the program version\n  \t");
    text.append(prog);
    text.append(" --playname <playback device name>\n  \t\t- preferred playback device name\n  \t");
    text.append(prog);
    text.append(" --playid <playback device ID>\n  \t\t- preferred playback device ID\n  \t");
    text.append(prog);
    text.append(" --capname <playback device name>\n  \t\t- preferred playback device name\n  \t");
    text.append(prog);
    text.append(" --capid <playback device ID>\n  \t\t- preferred playback device ID\n");
    text
}

/// Reading arguments that run through without stopping, followed by more arguments, reads the
/// first part and then goes on from where it ended.
proof fn lemma_cli_extend(args: Seq<Seq<char>>, tail: Seq<Seq<char>>, i: nat, st: CliModel)
    requires
        i <= args.len(),
        cli_run(args, i, st).1 == CliEnd::Run,
    ensures
        cli_run(args + tail, i, st) == cli_run(args + tail, args.len(), cli_run(args, i, st).0),
    decreases args.len() - i,
{
    let full = args + tail;
    if i < args.len() {
        let a = args[i as int];
        assert(full[i as int] == a);
        if i + 1 < args.len() {
            assert(full[i + 1 as int] == args[i + 1 as int]);
        }
        if a == "-h"@ || a == "--help"@ || a == "--version"@ {
        } else if a == "--playname"@ {
            lemma_cli_extend(
                args,
                tail,
                i + 2,
                CliModel {
                    play: UserInput::UserInputName,
                    play_name: args[i + 1 as int],
                    notes: st.notes.push(CliNote::PlayName((i + 1) as usize)),
                    ..st
                },
            );
        } else if a == "--playid"@ {
            if let Some(v) = usize_value(args[i + 1 as int]) {
                lemma_cli_extend(
                    args,
                    tail,
                    i + 2,
                    CliModel {
                        play: UserInput::UserInputId,
                        dev_index_output: v as usize,
                        notes: st.notes.push(CliNote::PlayId(v as usize)),
                        ..st
                    },
                );
            }
        } else if a == "--capname"@ {
            lemma_cli_extend(
                args,
                tail,
                i + 2,
                CliModel {
                    cap: UserInput::UserInputName,
                    cap_name: args[i + 1 as int],
                    notes: st.notes.push(CliNote::CapName((i + 1) as usize)),
                    ..st
                },
            );
        } else if a == "--capid"@ {
            if let Some(v) = usize_value(args[i + 1 as int]) {
                lemma_cli_extend(
                    args,
                    tail,
                    i + 2,
                    CliModel {
                        cap: UserInput::UserInputId,
                        dev_index_input: v as usize,
                        notes: st.notes.push(CliNote::CapId(v as usize)),
                        ..st
                    },
                );
            }
        } else if a.len() > 0 && a[0] == '-' {
            lemma_cli_extend(
                args,
                tail,
                i + 1,
                CliModel { notes: st.notes.push(CliNote::UnknownArgument(i as usize)), ..st },
            );
        } else {
            lemma_cli_extend(
                args,
                tail,
                i + 1,
                CliModel { notes: st.notes.push(CliNote::UnknownPositional(i as usize)), ..st },
            );
        }
    }
}

/// The option words differ from one another.
proof fn lemma_option_words_distinct()
    ensures
        ({
            let w = seq![
                "-h"@,
                "--help"@,
                "--version"@,
                "--playname"@,
                "--playid"@,
                "--capname"@,
                "--capid"@,
            ];
            forall|j: int, k: int| 0 <= j < k < 7 ==> #[trigger] w[j] != #[trigger] w[k]
        }),
{
    reveal_strlit("-h");
    reveal_strlit("--help");
    reveal_strlit("--version");
    reveal_strlit("--playname");
    reveal_strlit("--playid");
    reveal_strlit("--capname");
    reveal_strlit("--capid");
    let w = seq!["-h"@, "--help"@, "--version"@, "--playname"@, "--playid"@, "--capname"@, "--capid"@];
    assert(w[0][1] == 'h');
    assert forall|k: int| 1 <= k < 7 implies w[k][1] == '-' by {}
    assert(w[1].len() == 6 && w[2].len() == 9 && w[3].len() == 10 && w[4].len() == 8);
    assert(w[5].len() == 9 && w[6].len() == 7);
    assert(w[2][2] == 'v' && w[5][2] == 'c');
}

/// What reading `args` followed by the given option and its value yields.
pub open spec fn read_with_option(args: Seq<Seq<char>>, option: Seq<char>, value: Seq<char>) -> (CliModel, CliEnd) {
    cli_run(args + seq![option, value], 0, initial_model())
}

/// The last device option on the command line decides: after arguments that read through
/// without stopping, `--playid N` (N a decimal index) chooses the playback device at index N,
/// `--playname X` the playback device named X, `--capid N` the capture device at index N and
/// `--capname X` the capture device named X; each leaves the other direction's preference as
/// it was, and the reading runs to its end.
pub proof fn lemma_last_device_option_decides(args: Seq<Seq<char>>, value: Seq<char>)
    requires
        cli_run(args, 0, initial_model()).1 == CliEnd::Run,
    ensures
        ({
            let st = cli_run(args, 0, initial_model()).0;
            let r = read_with_option(args, "--playid"@, value);
            usize_value(value) matches Some(v) ==> {
                &&& r.1 == CliEnd::Run
                &&& r.0.play == UserInput::UserInputId
                &&& r.0.dev_index_output == v
                &&& r.0.cap == st.cap
                &&& r.0.dev_index_input == st.dev_index_input
                &&& r.0.cap_name == st.cap_name
            }
        }),
        ({
            let st = cli_run(args, 0, initial_model()).0;
            let r = read_with_option(args, "--capid"@, value);
            usize_value(value) matches Some(v) ==> {
                &&& r.1 == CliEnd::Run
                &&& r.0.cap == UserInput::UserInputId
                &&& r.0.dev_index_input == v
                &&& r.0.play == st.play
                &&& r.0.dev_index_output == st.dev_index_output
                &&& r.0.play_name == st.play_name
            }
        }),
        ({
            let st = cli_run(args, 0, initial_model()).0;
            let r = read_with_option(args, "--playname"@, value);
            &&& r.1 == CliEnd::Run
            &&& r.0.play == UserInput::UserInputName
            &&& r.0.play_name == value
            &&& r.0.cap == st.cap
            &&& r.0.dev_index_input == st.dev_index_input
            &&& r.0.cap_name == st.cap_name
        }),
        ({
            let st = cli_run(args, 0, initial_model()).0;
            let r = read_with_option(args, "--capname"@, value);
            &&& r.1 == CliEnd::Run
            &&& r.0.cap == UserInput::UserInputName
            &&& r.0.cap_name == value
            &&& r.0.play == st.play
            &&& r.0.dev_index_output == st.dev_index_output
            &&& r.0.play_name == st.play_name
        }),
{
    reveal_strlit("-h");
    reveal_strlit("--help");
    reveal_strlit("--version");
    reveal_strlit("--playname");
    reveal_strlit("--playid");
    reveal_strlit("--capname");
    reveal_strlit("--capid");
    lemma_option_words_distinct();
    let w = seq!["-h"@, "--help"@, "--version"@, "--playname"@, "--playid"@, "--capname"@, "--capid"@];
    assert(w[3] != w[0] && w[3] != w[1] && w[3] != w[2]);
    assert(w[4] != w[0] && w[4] != w[1] && w[4] != w[2] && w[4] != w[3]);
    assert(w[5] != w[0] && w[5] != w[1] && w[5] != w[2] && w[5] != w[3] && w[5] != w[4]);
    assert(w[6] != w[0] && w[6] != w[1] && w[6] != w[2] && w[6] != w[3] && w[6] != w[4] && w[6] != w[5]);
    let st = cli_run(args, 0, initial_model()).0;
    let n = args.len();
    let pi = args + seq!["--playid"@, value];
    let ci = args + seq!["--capid"@, value];
    let pn = args + seq!["--playname"@, value];
    let cn = args + seq!["--capname"@, value];
    lemma_cli_extend(args, seq!["--playid"@, value], 0, initial_model());
    lemma_cli_extend(args, seq!["--capid"@, value], 0, initial_model());
    lemma_cli_extend(args, seq!["--playname"@, value], 0, initial_model());
    lemma_cli_extend(args, seq!["--capname"@, value], 0, initial_model());
    assert(pi[n as int] == "--playid"@ && pi[n + 1 as int] == value && pi.len() == n + 2);
    assert(ci[n as int] == "--capid"@ && ci[n + 1 as int] == value && ci.len() == n + 2);
    assert(pn[n as int] == "--playname"@ && pn[n + 1 as int] == value && pn.len() == n + 2);
    assert(cn[n as int] == "--capname"@ && cn[n + 1 as int] == value && cn.len() == n + 2);
    if let Some(v) = usize_value(value) {
        let s1 = CliModel {
            play: UserInput::UserInputId,
            dev_index_output: v as usize,
            notes: st.notes.push(CliNote::PlayId(v as usize)),
            ..st
        };
        assert(cli_run(pi, n + 2, s1) == (s1, CliEnd::Run));
        assert(cli_run(pi, n, st) == cli_run(pi, n + 2, s1));
        let s2 = CliModel {
            cap: UserInput::UserInputId,
            dev_index_input: v as usize,
            notes: st.notes.push(CliNote::CapId(v as usize)),
            ..st
        };
        assert(cli_run(ci, n + 2, s2) == (s2, CliEnd::Run));
        assert(cli_run(ci, n, st) == cli_run(ci, n + 2, s2));
    }
    let s3 = CliModel {
        play: UserInput::UserInputName,
        play_name: value,
        notes: st.notes.push(CliNote::PlayName((n + 1) as usize)),
        ..st
    };
    assert(cli_run(pn, n + 2, s3) == (s3, CliEnd::Run));
    assert(cli_run(pn, n, st) == cli_run(pn, n + 2, s3));
    let s4 = CliModel {
        cap: UserInput::UserInputName,
        cap_name: value,
        notes: st.notes.push(CliNote::CapName((n + 1) as usize)),
        ..st
    };
    assert(cli_run(cn, n + 2, s4) == (s4, CliEnd::Run));
    assert(cli_run(cn, n, st) == cli_run(cn, n + 2, s4));
}

/// After arguments that read through without stopping, `-h` or `--help` ends the reading with
/// the help text and `--version` with the version line, whatever comes after them.
pub proof fn lemma_help_and_version_stop(args: Seq<Seq<char>>, rest: Seq<Seq<char>>)
    requires
        cli_run(args, 0, initial_model()).1 == CliEnd::Run,
    ensures
        cli_run(args + seq!["-h"@] + rest, 0, initial_model()).1 == CliEnd::Help,
        cli_run(args + seq!["--help"@] + rest, 0, initial_model()).1 == CliEnd::Help,
        cli_run(args + seq!["--version"@] + rest, 0, initial_model()).1 == CliEnd::Version,
{
    reveal_strlit("-h");
    reveal_strlit("--help");
    reveal_strlit("--version");
    let n = args.len() as int;
    let h = args + seq!["-h"@] + rest;
    let hh = args + seq!["--help"@] + rest;
    let v = args + seq!["--version"@] + rest;
    assert(h =~= args + (seq!["-h"@] + rest));
    assert(hh =~= args + (seq!["--help"@] + rest));
    assert(v =~= args + (seq!["--version"@] + rest));
    lemma_cli_extend(args, seq!["-h"@] + rest, 0, initial_model());
    lemma_cli_extend(args, seq!["--help"@] + rest, 0, initial_model());
    lemma_cli_extend(args, seq!["--version"@] + rest, 0, initial_model());
    assert(h[n] == "-h"@);
    assert(hh[n] == "--help"@);
    assert(v[n] == "--version"@);
}

/// Whether `needle` occurs in `hay` as a run of consecutive characters.
pub open spec fn occurs_in(needle: Seq<char>, hay: Seq<char>) -> bool {
    exists|i: int|
        0 <= i && i + needle.len() <= hay.len() && #[trigger] hay.subrange(i, i + needle.len())
            == needle
}

proof fn lemma_occurs(a: Seq<char>, n: Seq<char>, b: Seq<char>)
    ensures
        occurs_in(n, a + n + b),
{
    let h = a + n + b;
    assert(h.subrange(a.len() as int, (a.len() + n.len()) as int) =~= n);
}

/// The usage text starts with the version line and documents every option the arguments may
/// hold, each entry being the program name, the option and its explanation on the next line.
pub proof fn lemma_help_documents_every_option(prog: Seq<char>)
    ensures
        help_spec(prog).subrange(0, version_spec(prog).len() as int) == version_spec(prog),
        occurs_in(prog + " -h, --help\n  \t\t- shows this help message\n  \t"@, help_spec(prog)),
        occurs_in(prog + " --version\n  \t\t- shows the program version\n  \t"@, help_spec(prog)),
        occurs_in(
            prog + " --playname <playback device name>\n  \t\t- preferred playback device name\n  \t"@,
            help_spec(prog),
        ),
        occurs_in(
            prog + " --playid <playback device ID>\n  \t\t- preferred playback device ID\n  \t"@,
            help_spec(prog),
        ),
        occurs_in(
            prog + " --capname <playback device name>\n  \t\t- preferred playback device name\n  \t"@,
            help_spec(prog),
        ),
        occurs_in(
            prog + " --capid <playback device ID>\n  \t\t- preferred playback device ID\n"@,
            help_spec(prog),
        ),
{
    let p = prog;
    let v = version_spec(p);
    let l0 = "\n  Usage:\n  \t"@;
    let l1 = "\n  \t\t- Runs the program with system default playback device\n  \t"@;
    let l2 = " -h, --help\n  \t\t- shows this help message\n  \t"@;
    let l3 = " --version\n  \t\t- shows the program version\n  \t"@;
    let l4 = " --playname <playback device name>\n  \t\t- preferred playback device name\n  \t"@;
    let l5 = " --playid <playback device ID>\n  \t\t- preferred playback device ID\n  \t"@;
    let l6 = " --capname <playback device name>\n  \t\t- preferred playback device name\n  \t"@;
    let l7 = " --capid <playback device ID>\n  \t\t- preferred playback device ID\n"@;
    let h = help_spec(p);
    assert(h == v + l0 + p + l1 + p + l2 + p + l3 + p + l4 + p + l5 + p + l6 + p + l7);
    assert(h.subrange(0, v.len() as int) =~= v);
    let a2 = v + l0 + p + l1;
    assert(h =~= a2 + (p + l2) + (p + l3 + p + l4 + p + l5 + p + l6 + p + l7));
    lemma_occurs(a2, p + l2, p + l3 + p + l4 + p + l5 + p + l6 + p + l7);
    let a3 = a2 + p + l2;
    assert(h =~= a3 + (p + l3) + (p + l4 + p + l5 + p + l6 + p + l7));
    lemma_occurs(a3, p + l3, p + l4 + p + l5 + p + l6 + p + l7);
    let a4 = a3 + p + l3;
    assert(h =~= a4 + (p + l4) + (p + l5 + p + l6 + p + l7));
    lemma_occurs(a4, p + l4, p + l5 + p + l6 + p + l7);
    let a5 = a4 + p + l4;
    assert(h =~= a5 + (p + l5) + (p + l6 + p + l7));
    lemma_occurs(a5, p + l5, p + l6 + p + l7);
    let a6 = a5 + p + l5;
    assert(h =~= a6 + (p + l6) + (p + l7));
    lemma_occurs(a6, p + l6, p + l7);
    let a7 = a6 + p + l6;
    assert(h =~= a7 + (p + l7) + Seq::<char>::empty());
    lemma_occurs(a7, p + l7, Seq::<char>::empty());
}

} // verus!
