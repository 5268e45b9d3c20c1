//! The command line of the example fuzzer.
//!
//! ```text
//! baby_fuzzer_external_mutator [--timeout-ms <ms>] [--kill-on-stderr] [--iters <n>] [-- <program> [args...]]
//! ```
use vstd::prelude::*;
use vstd::string::{StrSliceExecFns, StringExecFns};
use crate::time::Duration;

verus! {

/// The name of the program, if the command line does not tell.
pub const DEFAULT_PROGRAM_NAME: &'static str = "baby_fuzzer_external_mutator";

/// Command line options.
#[derive(Debug)]
pub struct Options {
    /// Timeout for a single roundtrip to the external mutator.
    pub timeout: Duration,
    /// Kill and respawn the external mutator whenever it writes to stderr.
    pub kill_on_stderr: bool,
    /// Stop after this many fuzzing iterations (run forever / until a crash if `None`).
    pub iters: Option<u64>,
    /// The external mutator program.
    pub program: String,
    /// Arguments for the external mutator program.
    pub args: Vec<String>,
}

/// What [`Options`] hold. The timeout is in nanoseconds.
pub struct OptionsModel {
    pub timeout: nat,
    pub kill_on_stderr: bool,
    pub iters: Option<u64>,
    pub program: Seq<char>,
    pub args: Seq<Seq<char>>,
}

/// The characters of each string.
pub open spec fn texts(v: Seq<String>) -> Seq<Seq<char>> {
    Seq::new(v.len(), |i: int| v[i]@)
}

impl View for Options {
    type V = OptionsModel;

    open spec fn view(&self) -> OptionsModel {
        OptionsModel {
            timeout: self.timeout@,
            kill_on_stderr: self.kill_on_stderr,
            iters: self.iters,
            program: self.program@,
            args: texts(self.args@),
        }
    }
}

/// Whether `c` is a decimal digit.
pub open spec fn is_decimal(c: char) -> bool {
    '0' <= c <= '9'
}

/// The number that decimal digits stand for.
pub open spec fn decimal_number(text: Seq<char>) -> nat
    decreases text.len(),
{
    if text.len() == 0 {
        0
    } else {
        (decimal_number(text.drop_last()) * 10 + (text.last() as int - '0' as int)) as nat
    }
}

/// `text` without a plus sign at its start.
pub open spec fn unsigned_text(text: Seq<char>) -> Seq<char> {
    if text.len() > 0 && text[0] == '+' {
        text.skip(1)
    } else {
        text
    }
}

/// The number that `text` is: decimal digits, at least one, possibly after a plus sign, with a
/// value that fits.
pub open spec fn parsed_number(text: Seq<char>) -> Option<u64> {
    let digits = unsigned_text(text);
    if digits.len() > 0 && (forall|i: int| 0 <= i < digits.len() ==> is_decimal(#[trigger] digits[i]))
        && decimal_number(digits) <= u64::MAX {
        Some(decimal_number(digits) as u64)
    } else {
        None
    }
}

/// The options that `args` make of the options `o`, or `None` if they are not understood. Later
/// arguments override earlier ones; everything after `--` is the external mutator and its arguments.
pub open spec fn parsed_options(o: OptionsModel, args: Seq<Seq<char>>) -> Option<OptionsModel>
    decreases args.len(),
{
    if args.len() == 0 {
        Some(o)
    } else if args[0] == "--timeout-ms"@ {
        if args.len() > 1 && parsed_number(args[1]) is Some {
            parsed_options(
                OptionsModel {
                    timeout: (parsed_number(args[1])->0 * 1_000_000) as nat,
                    ..o
                },
                args.skip(2),
            )
        } else {
            None
        }
    } else if args[0] == "--kill-on-stderr"@ {
        parsed_options(OptionsModel { kill_on_stderr: true, ..o }, args.skip(1))
    } else if args[0] == "--iters"@ {
        if args.len() > 1 && parsed_number(args[1]) is Some {
            parsed_options(OptionsModel { iters: parsed_number(args[1]), ..o }, args.skip(2))
        } else {
            None
        }
    } else if args[0] == "--"@ {
        if args.len() > 1 {
            Some(OptionsModel { program: args[1], args: args.skip(2), ..o })
        } else {
            None
        }
    } else {
        None
    }
}

/// The options without any arguments.
pub open spec fn default_options(default_args: Seq<Seq<char>>) -> OptionsModel {
    OptionsModel {
        timeout: 1_000_000_000,
        kill_on_stderr: false,
        iters: None,
        program: "python3"@,
        args: default_args,
    }
}

/// The arguments for the default external mutator, which is in `dir`.
pub open spec fn default_args_text(dir: Seq<char>, multipart: bool) -> Seq<Seq<char>> {
    let script = dir + "/mutator.py"@;
    if multipart {
        seq![script, "--multipart"@]
    } else {
        seq![script]
    }
}

/// The `words`, with a space between every two of them.
pub open spec fn spaced(words: Seq<Seq<char>>) -> Seq<char>
    decreases words.len(),
{
    if words.len() == 0 {
        Seq::empty()
    } else if words.len() == 1 {
        words[0]
    } else {
        spaced(words.drop_last()) + " "@ + words.last()
    }
}

/// The arguments for the default external mutator (`python3 mutator.py`).
pub fn default_mutator_args(dir: &str, multipart: bool) -> (args: Vec<String>)
    ensures
        texts(args@) == default_args_text(dir@, multipart),
{
    let script: String = dir.to_owned().concat("/mutator.py");
    let mut args: Vec<String> = Vec::new();
    args.push(script);
    if multipart {
        args.push("--multipart".to_owned());
    }
    assert(texts(args@) =~= default_args_text(dir@, multipart));
    args
}

/// The message that explains the command line of `prog`.
pub fn usage(prog: &str, default_args: &Vec<String>) -> (message: String)
    ensures
        message@ == "Usage: "@ + prog@
            + " [--timeout-ms <ms>] [--kill-on-stderr] [--iters <n>] [-- <program> [args...]]\n\nWithout `-- <program>`, `python3 "@
            + spaced(texts(default_args@)) + "` is used as external mutator."@,
{
    let mut message: String = "Usage: ".to_owned();
    message.append(prog);
    message.append(
        " [--timeout-ms <ms>] [--kill-on-stderr] [--iters <n>] [-- <program> [args...]]\n\nWithout `-- <program>`, `python3 ",
    );
    let ghost before = message@;
    let ghost words = texts(default_args@);
    let mut i: usize = 0;
    proof {
        assert(words.take(0) =~= Seq::<Seq<char>>::empty());
        assert(message@ =~= before + spaced(words.take(0)));
    }
    while i < default_args.len()
        invariant
            words == texts(default_args@),
            i <= default_args@.len(),
            message@ == before + spaced(words.take(i as int)),
        decreases default_args@.len() - i,
    {
        if i > 0 {
            message.append(" ");
        }
        message.append(default_args[i].as_str());
        proof {
            let front = words.take(i + 1);
            assert(front.drop_last() =~= words.take(i as int));
            assert(front.last() == default_args@[i as int]@);
            assert(message@ =~= before + spaced(front));
        }
        i += 1;
    }
    assert(words.take(i as int) =~= words);
    message.append("` is used as external mutator.");
    message
}

/// The number of a text is at least that of any text it starts with.
proof fn lemma_decimal_number_monotone(text: Seq<char>, n: int)
    requires
        0 <= n <= text.len(),
        forall|i: int| 0 <= i < text.len() ==> is_decimal(#[trigger] text[i]),
    ensures
        decimal_number(text.take(n)) <= decimal_number(text),
    decreases text.len() - n,
{
    if n < text.len() {
        lemma_decimal_number_monotone(text, n + 1);
        assert(text.take(n + 1).drop_last() =~= text.take(n));
        assert(text.take(n + 1).last() == text[n]);
    } else {
        assert(text.take(n) =~= text);
    }
}

/// Parses a number on the command line.
pub fn parse_num(text: &str) -> (number: Option<u64>)
    ensures
        number == parsed_number(text@),
{
    let len: usize = text.unicode_len();
    let start: usize = if len > 0 && text.get_char(0) == '+' { 1 } else { 0 };
    let ghost digits = unsigned_text(text@);
    if start == len {
        return None;
    }
    let mut value: u64 = 0;
    let mut i: usize = start;
    assert(digits.take(0) =~= Seq::<char>::empty());
    while i < len
        invariant
            len == text@.len(),
            digits == unsigned_text(text@),
            start <= i <= len,
            digits.len() == len - start,
            digits == text@.skip(start as int),
            forall|j: int| 0 <= j < i - start ==> is_decimal(#[trigger] digits[j]),
            value == decimal_number(digits.take(i - start)),
        decreases len - i,
    {
        let c: char = text.get_char(i);
        let ghost k = i - start;
        assert(digits[k] == c);
        if c < '0' || c > '9' {
            assert(!is_decimal(digits[k]));
            return None;
        }
        let d: u64 = (c as u32 - '0' as u32) as u64;
        proof {
            assert(digits.take(k + 1).drop_last() =~= digits.take(k));
            assert(digits.take(k + 1).last() == c);
        }
        if value > u64::MAX / 10 || value * 10 > u64::MAX - d {
            proof {
                if forall|j: int| 0 <= j < digits.len() ==> is_decimal(#[trigger] digits[j]) {
                    lemma_decimal_number_monotone(digits, k + 1);
                }
            }
            return None;
        }
        value = value * 10 + d;
        i += 1;
    }
    assert(digits.take(i - start) =~= digits);
    Some(value)
}

/// Whether an argument is the given one.
fn is_arg(arg: &String, expected: &str) -> (same: bool)
    ensures
        same == (arg@ == expected@),
{
    *arg == expected.to_owned()
}

/// Parses the command line arguments (after the name of the program). Returns `None` if they are
/// not understood, and the usage has to be explained.
pub fn parse_args(args: &Vec<String>, default_args: Vec<String>) -> (options: Option<Options>)
    ensures
        match options {
            Some(options) => parsed_options(
                default_options(texts(default_args@)),
                texts(args@),
            ) == Some(options@),
            None => parsed_options(default_options(texts(default_args@)), texts(args@)) is None,
        },
{
    let mut options = Options {
        timeout: Duration::from_millis(1000),
        kill_on_stderr: false,
        iters: None,
        program: "python3".to_owned(),
        args: default_args,
    };
    let ghost all = texts(args@);
    let ghost result = parsed_options(options@, all);
    let mut i: usize = 0;
    assert(all.skip(0) =~= all);
    while i < args.len()
        invariant
            all == texts(args@),
            i <= args@.len(),
            result == parsed_options(default_options(texts(default_args@)), all),
            result == parsed_options(options@, all.skip(i as int)),
        decreases args@.len() - i,
    {
        let ghost rest = all.skip(i as int);
        assert(rest[0] == args@[i as int]@);
        proof {
            assert(rest.skip(1) =~= all.skip(i + 1));
            if i + 1 < args@.len() {
                assert(rest.skip(2) =~= all.skip(i + 2));
                assert(rest[1] == args@[i + 1]@);
            }
        }
        if is_arg(&args[i], "--timeout-ms") {
            if i + 1 >= args.len() {
                return None;
            }
            match parse_num(args[i + 1].as_str()) {
                Some(millis) => {
                    options.timeout = Duration::from_millis(millis);
                },
                None => {
                    return None;
                },
            }
            i += 2;
        } else if is_arg(&args[i], "--kill-on-stderr") {
            options.kill_on_stderr = true;
            i += 1;
        } else if is_arg(&args[i], "--iters") {
            if i + 1 >= args.len() {
                return None;
            }
            match parse_num(args[i + 1].as_str()) {
                Some(iters) => {
                    options.iters = Some(iters);
                },
                None => {
                    return None;
                },
            }
            i += 2;
        } else if is_arg(&args[i], "--") {
            if i + 1 >= args.len() {
                return None;
            }
            options.program = args[i + 1].clone();
            let mut tail: Vec<String> = Vec::new();
            let mut j: usize = i + 2;
            while j < args.len()
                invariant
                    all == texts(args@),
                    i + 2 <= j <= args@.len(),
                    tail@.len() == j - i - 2,
                    forall|k: int|
                        0 <= k < tail@.len() ==> (#[trigger] tail@[k])@ == all[i + 2 + k],
                decreases args@.len() - j,
            {
                assert(all[j as int] == args@[j as int]@);
                tail.push(args[j].clone());
                j += 1;
            }
            assert(texts(tail@) =~= all.skip(i + 2));
            options.args = tail;
            return Some(options);
        } else {
            return None;
        }
    }
    assert(all.skip(i as int) =~= Seq::<Seq<char>>::empty());
    Some(options)
}

} // verus!
