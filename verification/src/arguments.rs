//! The run parameters and how the command line's arguments give them.
//!
//! The first argument is the number of vertices, the second the number of
//! trials; both may be left out from the end. What follows them are flags:
//! `--mode=` with the name of a generation mode, `--export-all` and
//! `--minimize`.

use crate::decimal::{chars_of, natural_usize, parse_natural, push_chars};
use vstd::prelude::*;
use vstd::string::{StrSliceExecFns, StringExecFns};

verus! {

/// How random polygons are generated.
#[derive(Clone, Copy, Debug, PartialEq, Eq, Structural)]
pub enum GenerationMode {
    TwoOptLike,
    QuickStarLike,
    Xmonotone,
    XmonotoneGap,
}

/// The parameters of a run.
#[derive(Clone, Copy, Debug, PartialEq, Eq, Structural)]
pub struct RunParameters {
    /// The number of vertices of each generated polygon.
    pub n: usize,
    /// The number of trials.
    pub count: usize,
    /// How polygons are generated.
    pub mode: GenerationMode,
    /// Whether every trial's polygon is exported.
    pub export_all: bool,
    /// Whether each polygon is minimized before it is classified.
    pub minimize: bool,
}

/// What is wrong with the arguments.
#[derive(Debug, PartialEq, Eq)]
pub enum ConfigError {
    /// The first argument is not a natural number that fits.
    VertexCount,
    /// The second argument is not a natural number that fits.
    TrialCount,
    /// A `--mode=` flag names no generation mode. Holds the name.
    UnknownMode(String),
    /// An argument is no flag of this program. Holds the argument.
    UnknownArgument(String),
}

/// A [`ConfigError`] with its texts as sequences.
pub enum Fault {
    VertexCount,
    TrialCount,
    UnknownMode(Seq<char>),
    UnknownArgument(Seq<char>),
}

impl View for ConfigError {
    type V = Fault;

    open spec fn view(&self) -> Fault {
        match self {
            ConfigError::VertexCount => Fault::VertexCount,
            ConfigError::TrialCount => Fault::TrialCount,
            ConfigError::UnknownMode(name) => Fault::UnknownMode(name@),
            ConfigError::UnknownArgument(argument) => Fault::UnknownArgument(argument@),
        }
    }
}

/// The number of vertices where no argument gives it.
pub const DEFAULT_VERTICES: usize = 20;

/// The number of trials where no argument gives it.
pub const DEFAULT_TRIALS: usize = 10;

/// The parameters for the given numbers and no flags.
pub open spec fn plain(n: usize, count: usize) -> RunParameters {
    RunParameters {
        n,
        count,
        mode: GenerationMode::QuickStarLike,
        export_all: false,
        minimize: false,
    }
}

/// The generation mode that `name` stands for.
pub open spec fn mode_named(name: Seq<char>) -> Option<GenerationMode> {
    if name == "2opt"@ {
        Some(GenerationMode::TwoOptLike)
    } else if name == "quickstar"@ {
        Some(GenerationMode::QuickStarLike)
    } else if name == "xmonotone"@ || name == "monotone"@ {
        Some(GenerationMode::Xmonotone)
    } else if name == "xmonotonegap"@ || name == "monotonegap"@ {
        Some(GenerationMode::XmonotoneGap)
    } else {
        None
    }
}

/// Whether `text` begins with `word`.
pub open spec fn begins_with(text: Seq<char>, word: Seq<char>) -> bool {
    text.len() >= word.len() && text.take(word.len() as int) == word
}

/// The parameters after one flag, or what is wrong with the flag.
pub open spec fn with_flag(parameters: RunParameters, flag: Seq<char>) -> Result<
    RunParameters,
    Fault,
> {
    if begins_with(flag, "--mode="@) {
        let name = flag.skip("--mode="@.len() as int);
        match mode_named(name) {
            Some(mode) => Ok(RunParameters { mode, ..parameters }),
            None => Err(Fault::UnknownMode(name)),
        }
    } else if flag == "--export-all"@ {
        Ok(RunParameters { export_all: true, ..parameters })
    } else if flag == "--minimize"@ {
        Ok(RunParameters { minimize: true, ..parameters })
    } else {
        Err(Fault::UnknownArgument(flag))
    }
}

/// The parameters after the flags, taken from left to right, or what is
/// wrong with the first flag that is wrong.
pub open spec fn with_flags(parameters: RunParameters, flags: Seq<Seq<char>>) -> Result<
    RunParameters,
    Fault,
>
    decreases flags.len(),
{
    if flags.len() == 0 {
        Ok(parameters)
    } else {
        match with_flag(parameters, flags[0]) {
            Ok(next) => with_flags(next, flags.drop_first()),
            Err(fault) => Err(fault),
        }
    }
}

/// The parameters that the arguments give, or what is wrong with the first
/// argument that is wrong.
pub open spec fn interpreted(arguments: Seq<Seq<char>>) -> Result<RunParameters, Fault> {
    let n = if arguments.len() >= 1 {
        natural_usize(arguments[0])
    } else {
        Some(DEFAULT_VERTICES)
    };
    let count = if arguments.len() >= 2 {
        natural_usize(arguments[1])
    } else {
        Some(DEFAULT_TRIALS)
    };
    let flags = if arguments.len() >= 2 {
        arguments.skip(2)
    } else {
        Seq::empty()
    };
    match (n, count) {
        (None, _) => Err(Fault::VertexCount),
        (Some(_), None) => Err(Fault::TrialCount),
        (Some(n), Some(count)) => with_flags(plain(n, count), flags),
    }
}

/// What to tell the user about a fault.
pub open spec fn message_of(fault: Fault) -> Seq<char> {
    match fault {
        Fault::VertexCount => "The first argument should be a natural number."@,
        Fault::TrialCount => "The second argument (if provided) should be a natural number."@,
        Fault::UnknownMode(name) => "Generation mode not recognised: "@ + name
            + "\nPossible Values: 2opt, quickstar, xmonotone, xmonotonegap"@,
        Fault::UnknownArgument(argument) => "Unrecognised argument: "@ + argument,
    }
}

/// The texts of the arguments.
pub open spec fn texts(arguments: Seq<String>) -> Seq<Seq<char>> {
    Seq::new(arguments.len(), |i: int| arguments[i]@)
}

/// Whether `chars` from index `from` on spell `word`.
fn spells(chars: &Vec<char>, from: usize, word: &str) -> (same: bool)
    requires
        from <= chars@.len(),
    ensures
        same == (chars@.skip(from as int) == word@),
{
    let len = word.unicode_len();
    if chars.len() - from != len {
        return false;
    }
    let mut i: usize = 0;
    while i < len
        invariant
            i <= len,
            len == word@.len(),
            from + len == chars.len(),
            forall|k: int| 0 <= k < i ==> chars@[from + k] == word@[k],
        decreases len - i,
    {
        if chars[from + i] != word.get_char(i) {
            proof {
                assert(chars@.skip(from as int)[i as int] != word@[i as int]);
            }
            return false;
        }
        i += 1;
    }
    proof {
        assert(chars@.skip(from as int) =~= word@);
    }
    true
}

/// Whether `chars` begin with `word`.
fn starts_with(chars: &Vec<char>, word: &str) -> (found: bool)
    ensures
        found == begins_with(chars@, word@),
{
    let len = word.unicode_len();
    if chars.len() < len {
        return false;
    }
    let mut i: usize = 0;
    while i < len
        invariant
            i <= len,
            len == word@.len(),
            chars@.len() >= len,
            forall|k: int| 0 <= k < i ==> chars@[k] == word@[k],
        decreases len - i,
    {
        if chars[i] != word.get_char(i) {
            proof {
                assert(chars@.take(len as int)[i as int] != word@[i as int]);
            }
            return false;
        }
        i += 1;
    }
    proof {
        assert(chars@.take(len as int) =~= word@);
    }
    true
}

/// Finds the generation mode that the characters from `from` on name.
fn mode_from(chars: &Vec<char>, from: usize) -> (mode: Option<GenerationMode>)
    requires
        from <= chars@.len(),
    ensures
        mode == mode_named(chars@.skip(from as int)),
{
    if spells(chars, from, "2opt") {
        Some(GenerationMode::TwoOptLike)
    } else if spells(chars, from, "quickstar") {
        Some(GenerationMode::QuickStarLike)
    } else if spells(chars, from, "xmonotone") || spells(chars, from, "monotone") {
        Some(GenerationMode::Xmonotone)
    } else if spells(chars, from, "xmonotonegap") || spells(chars, from, "monotonegap") {
        Some(GenerationMode::XmonotoneGap)
    } else {
        None
    }
}

/// Applies one flag to the parameters.
pub fn apply_flag(parameters: RunParameters, flag: &str) -> (applied: Result<
    RunParameters,
    ConfigError,
>)
    ensures
        match with_flag(parameters, flag@) {
            Ok(next) => applied == Ok::<RunParameters, ConfigError>(next),
            Err(fault) => applied matches Err(error) && error@ == fault,
        },
{
    let chars = chars_of(flag);
    if starts_with(&chars, "--mode=") {
        let from = "--mode=".unicode_len();
        match mode_from(&chars, from) {
            Some(mode) => Ok(
                RunParameters {
                    n: parameters.n,
                    count: parameters.count,
                    mode,
                    export_all: parameters.export_all,
                    minimize: parameters.minimize,
                },
            ),
            None => {
                let mut name = String::new();
                push_chars(&mut name, &chars, from);
                proof {
                    assert(name@ =~= flag@.skip(from as int));
                }
                Err(ConfigError::UnknownMode(name))
            },
        }
    } else if spells(&chars, 0, "--export-all") {
        proof {
            assert(chars@.skip(0) =~= chars@);
        }
        Ok(
            RunParameters {
                n: parameters.n,
                count: parameters.count,
                mode: parameters.mode,
                export_all: true,
                minimize: parameters.minimize,
            },
        )
    } else if spells(&chars, 0, "--minimize") {
        proof {
            assert(chars@.skip(0) =~= chars@);
        }
        Ok(
            RunParameters {
                n: parameters.n,
                count: parameters.count,
                mode: parameters.mode,
                export_all: parameters.export_all,
                minimize: true,
            },
        )
    } else {
        proof {
            assert(chars@.skip(0) =~= chars@);
        }
        Err(ConfigError::UnknownArgument(String::from_str(flag)))
    }
}

/// Works out the run parameters from the arguments that follow the
/// program's name.
pub fn interpret_arguments(arguments: &Vec<String>) -> (outcome: Result<RunParameters, ConfigError>)
    ensures
        match interpreted(texts(arguments@)) {
            Ok(parameters) => outcome == Ok::<RunParameters, ConfigError>(parameters),
            Err(fault) => outcome matches Err(error) && error@ == fault,
        },
{
    let ghost given = texts(arguments@);
    let n = if arguments.len() >= 1 {
        match parse_natural(arguments[0].as_str()) {
            Some(n) => n,
            None => {
                return Err(ConfigError::VertexCount);
            },
        }
    } else {
        DEFAULT_VERTICES
    };
    let count = if arguments.len() >= 2 {
        match parse_natural(arguments[1].as_str()) {
            Some(count) => count,
            None => {
                return Err(ConfigError::TrialCount);
            },
        }
    } else {
        DEFAULT_TRIALS
    };
    let mut parameters = RunParameters {
        n,
        count,
        mode: GenerationMode::QuickStarLike,
        export_all: false,
        minimize: false,
    };
    if arguments.len() < 2 {
        return Ok(parameters);
    }
    let mut i: usize = 2;
    while i < arguments.len()
        invariant
            2 <= i <= arguments@.len(),
            given == texts(arguments@),
            interpreted(given) == with_flags(plain(n, count), given.skip(2)),
            with_flags(parameters, given.skip(i as int)) == with_flags(
                plain(n, count),
                given.skip(2),
            ),
        decreases arguments.len() - i,
    {
        proof {
            assert(given.skip(i as int).drop_first() =~= given.skip(i + 1));
            assert(given.skip(i as int)[0] == arguments@[i as int]@);
        }
        match apply_flag(parameters, arguments[i].as_str()) {
            Ok(next) => {
                parameters = next;
            },
            Err(error) => {
                return Err(error);
            },
        }
        i += 1;
    }
    Ok(parameters)
}

impl ConfigError {
    /// The message for the user.
    pub fn message(&self) -> (text: String)
        ensures
            text@ == message_of(self@),
    {
        match self {
            ConfigError::VertexCount => String::from_str(
                "The first argument should be a natural number.",
            ),
            ConfigError::TrialCount => String::from_str(
                "The second argument (if provided) should be a natural number.",
            ),
            ConfigError::UnknownMode(name) => {
                let mut text = String::from_str("Generation mode not recognised: ");
                text.append(name.as_str());
                text.append("\nPossible Values: 2opt, quickstar, xmonotone, xmonotonegap");
                text
            },
            ConfigError::UnknownArgument(argument) => {
                let mut text = String::from_str("Unrecognised argument: ");
                text.append(argument.as_str());
                text
            },
        }
    }
}

} // verus!
