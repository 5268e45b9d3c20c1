//! What the command line means.
use vstd::prelude::*;
use crate::options::{
    decimal_number, default_args_text, default_options, is_decimal, parsed_number, parsed_options,
    spaced, texts, unsigned_text, Options, OptionsModel,
};

verus! {

/// Whether `args` are nothing but complete options, each with its value.
pub open spec fn are_options(args: Seq<Seq<char>>) -> bool
    decreases args.len(),
{
    if args.len() == 0 {
        true
    } else if args[0] == "--kill-on-stderr"@ {
        are_options(args.skip(1))
    } else if args[0] == "--timeout-ms"@ || args[0] == "--iters"@ {
        args.len() > 1 && parsed_number(args[1]) is Some && are_options(args.skip(2))
    } else {
        false
    }
}

/// The four words that the command line knows are different.
proof fn lemma_words()
    ensures
        "--timeout-ms"@ != "--kill-on-stderr"@,
        "--timeout-ms"@ != "--iters"@,
        "--timeout-ms"@ != "--"@,
        "--kill-on-stderr"@ != "--iters"@,
        "--kill-on-stderr"@ != "--"@,
        "--iters"@ != "--"@,
{
    reveal_strlit("--timeout-ms");
    reveal_strlit("--kill-on-stderr");
    reveal_strlit("--iters");
    reveal_strlit("--");
    assert("--timeout-ms"@.len() == 12 && "--kill-on-stderr"@.len() == 16);
    assert("--iters"@.len() == 7 && "--"@.len() == 2);
}

/// Options are always understood, they leave the program and its arguments alone, and what follows
/// them is understood as if it stood alone, on top of what they have set.
pub proof fn law_options_are_taken_in_turn(
    o: OptionsModel,
    opts: Seq<Seq<char>>,
    rest: Seq<Seq<char>>,
)
    requires
        are_options(opts),
    ensures
        parsed_options(o, opts) matches Some(set) && set.program == o.program && set.args == o.args
            && parsed_options(o, opts + rest) == parsed_options(set, rest),
    decreases opts.len(),
{
    lemma_words();
    let all = opts + rest;
    if opts.len() == 0 {
        assert(all =~= rest);
    } else {
        assert(all[0] == opts[0]);
        if opts[0] == "--kill-on-stderr"@ {
            let set = OptionsModel { kill_on_stderr: true, ..o };
            law_options_are_taken_in_turn(set, opts.skip(1), rest);
            assert(all.skip(1) =~= opts.skip(1) + rest);
        } else {
            assert(all[1] == opts[1]);
            let n = parsed_number(opts[1]);
            let set = if opts[0] == "--timeout-ms"@ {
                OptionsModel { timeout: (n->0 * 1_000_000) as nat, ..o }
            } else {
                OptionsModel { iters: n, ..o }
            };
            law_options_are_taken_in_turn(set, opts.skip(2), rest);
            assert(all.skip(2) =~= opts.skip(2) + rest);
        }
    }
}

/// Each option sets what it is for, and nothing else, and overrides the same option before it.
pub proof fn law_options_set_what_they_name(
    o: OptionsModel,
    opts: Seq<Seq<char>>,
    text: Seq<char>,
    n: u64,
)
    requires
        are_options(opts),
        parsed_number(text) == Some(n),
    ensures
        parsed_options(o, opts) matches Some(set) && {
            &&& parsed_options(o, opts + seq!["--kill-on-stderr"@]) == Some(
                OptionsModel { kill_on_stderr: true, ..set },
            )
            &&& parsed_options(o, opts + seq!["--iters"@, text]) == Some(
                OptionsModel { iters: Some(n), ..set },
            )
            &&& parsed_options(o, opts + seq!["--timeout-ms"@, text]) matches Some(late)
                && late.timeout == n * 1_000_000 && late == (OptionsModel {
                timeout: late.timeout,
                ..set
            })
        },
{
    lemma_words();
    let kill = seq!["--kill-on-stderr"@];
    let iters = seq!["--iters"@, text];
    let timeout = seq!["--timeout-ms"@, text];
    law_options_are_taken_in_turn(o, opts, kill);
    law_options_are_taken_in_turn(o, opts, iters);
    law_options_are_taken_in_turn(o, opts, timeout);
    assert(kill.skip(1) =~= Seq::<Seq<char>>::empty());
    assert(iters.skip(2) =~= Seq::<Seq<char>>::empty());
    assert(timeout.skip(2) =~= Seq::<Seq<char>>::empty());
    reveal_with_fuel(parsed_options, 2);
}

/// After `--` comes the external mutator, and everything after that, be it nothing, is the list of
/// its arguments. They do not depend on the default program and its arguments.
pub proof fn law_program_and_arguments(
    o: OptionsModel,
    opts: Seq<Seq<char>>,
    program: Seq<char>,
    args: Seq<Seq<char>>,
)
    requires
        are_options(opts),
    ensures
        parsed_options(o, opts + seq!["--"@, program] + args) matches Some(all) && parsed_options(
            o,
            opts,
        ) matches Some(set) && {
            &&& all.program == program
            &&& all.args == args
            &&& all.timeout == set.timeout
            &&& all.kill_on_stderr == set.kill_on_stderr
            &&& all.iters == set.iters
        },
{
    lemma_words();
    let rest = seq!["--"@, program] + args;
    assert(opts + seq!["--"@, program] + args =~= opts + rest);
    law_options_are_taken_in_turn(o, opts, rest);
    assert(rest[0] == "--"@ && rest[1] == program);
    assert(rest.skip(2) =~= args);
}

/// What is neither an option with its value nor `--` with a program is not understood, wherever it
/// stands before the first `--`.
pub proof fn law_other_arguments_are_refused(
    o: OptionsModel,
    opts: Seq<Seq<char>>,
    arg: Seq<char>,
    text: Seq<char>,
    rest: Seq<Seq<char>>,
)
    requires
        are_options(opts),
        parsed_number(text) is None,
    ensures
        arg != "--timeout-ms"@ && arg != "--kill-on-stderr"@ && arg != "--iters"@ && arg != "--"@
            ==> parsed_options(o, opts + (seq![arg] + rest)) is None,
        parsed_options(o, opts + seq!["--"@]) is None,
        parsed_options(o, opts + seq!["--iters"@]) is None,
        parsed_options(o, opts + seq!["--timeout-ms"@]) is None,
        parsed_options(o, opts + (seq!["--iters"@, text] + rest)) is None,
        parsed_options(o, opts + (seq!["--timeout-ms"@, text] + rest)) is None,
{
    lemma_words();
    law_options_are_taken_in_turn(o, opts, seq![arg] + rest);
    law_options_are_taken_in_turn(o, opts, seq!["--"@]);
    law_options_are_taken_in_turn(o, opts, seq!["--iters"@]);
    law_options_are_taken_in_turn(o, opts, seq!["--timeout-ms"@]);
    law_options_are_taken_in_turn(o, opts, seq!["--iters"@, text] + rest);
    law_options_are_taken_in_turn(o, opts, seq!["--timeout-ms"@, text] + rest);
    assert((seq![arg] + rest)[0] == arg);
    assert((seq!["--iters"@, text] + rest)[0] == "--iters"@);
    assert((seq!["--iters"@, text] + rest)[1] == text);
    assert((seq!["--timeout-ms"@, text] + rest)[0] == "--timeout-ms"@);
    assert((seq!["--timeout-ms"@, text] + rest)[1] == text);
}

/// A command line is understood exactly if it is made of options, possibly followed by `--` and a
/// program with its arguments.
pub proof fn law_understood_command_lines(o: OptionsModel, args: Seq<Seq<char>>)
    ensures
        parsed_options(o, args) is Some <==> exists|k: int|
            0 <= k <= args.len() && are_options(#[trigger] args.take(k)) && (k == args.len() || (
            args[k] == "--"@ && k + 1 < args.len())),
{
    if parsed_options(o, args) is Some {
        lemma_options_before_the_end(o, args);
    }
    if exists|k: int|
        0 <= k <= args.len() && are_options(#[trigger] args.take(k)) && (k == args.len() || (args[k]
            == "--"@ && k + 1 < args.len())) {
        let k = choose|k: int|
            0 <= k <= args.len() && are_options(#[trigger] args.take(k)) && (k == args.len() || (
            args[k] == "--"@ && k + 1 < args.len()));
        if k == args.len() {
            law_options_are_taken_in_turn(o, args.take(k), Seq::empty());
            assert(args.take(k) =~= args);
        } else {
            law_program_and_arguments(o, args.take(k), args[k + 1], args.skip(k + 2));
            assert(args.take(k) + seq!["--"@, args[k + 1]] + args.skip(k + 2) =~= args);
        }
    }
}

proof fn lemma_options_before_the_end(o: OptionsModel, args: Seq<Seq<char>>)
    requires
        parsed_options(o, args) is Some,
    ensures
        exists|k: int|
            0 <= k <= args.len() && are_options(#[trigger] args.take(k)) && (k == args.len() || (
            args[k] == "--"@ && k + 1 < args.len())),
    decreases args.len(),
{
    lemma_words();
    if args.len() == 0 || args[0] == "--"@ {
        assert(are_options(args.take(0)));
    } else {
        let n: int = if args[0] == "--kill-on-stderr"@ {
            1
        } else {
            2
        };
        let rest = args.skip(n);
        let set = if n == 1 {
            OptionsModel { kill_on_stderr: true, ..o }
        } else if args[0] == "--timeout-ms"@ {
            OptionsModel { timeout: (parsed_number(args[1])->0 * 1_000_000) as nat, ..o }
        } else {
            OptionsModel { iters: parsed_number(args[1]), ..o }
        };
        lemma_options_before_the_end(set, rest);
        let k = choose|k: int|
            0 <= k <= rest.len() && are_options(#[trigger] rest.take(k)) && (k == rest.len() || (
            rest[k] == "--"@ && k + 1 < rest.len()));
        let front = args.take(k + n);
        assert(front.skip(n) =~= rest.take(k));
        assert(front[0] == args[0]);
        if n == 2 {
            assert(front[1] == args[1]);
        }
        assert(are_options(front));
    }
}

/// Without any arguments, the default external mutator gets one second for each request, is not
/// killed for output on stderr, and the fuzzer does not stop on its own.
pub proof fn law_default_options(default_args: Seq<Seq<char>>)
    ensures
        parsed_options(default_options(default_args), Seq::empty()) matches Some(o) && {
            &&& o.timeout == 1_000_000_000
            &&& !o.kill_on_stderr
            &&& o.iters is None
            &&& o.program == "python3"@
            &&& o.args == default_args
        },
{
}

/// The default external mutator is the script in the given directory, which is told if inputs have
/// several parts.
pub proof fn law_default_arguments(dir: Seq<char>)
    ensures
        default_args_text(dir, false) == seq![dir + "/mutator.py"@],
        default_args_text(dir, true) == default_args_text(dir, false).push("--multipart"@),
{
    assert(default_args_text(dir, true) =~= default_args_text(dir, false).push("--multipart"@));
}

/// Words are put together with exactly one space between any two neighbours.
pub proof fn law_spaced_words(a: Seq<Seq<char>>, b: Seq<Seq<char>>, word: Seq<char>)
    ensures
        spaced(Seq::empty()) == Seq::<char>::empty(),
        spaced(seq![word]) == word,
        a.len() > 0 && b.len() > 0 ==> spaced(a + b) == spaced(a) + seq![' '] + spaced(b),
    decreases b.len(),
{
    reveal_strlit(" ");
    assert(" "@ =~= seq![' ']);
    if a.len() > 0 && b.len() > 0 {
        assert((a + b).drop_last() =~= a + b.drop_last());
        assert((a + b).last() == b.last());
        if b.len() == 1 {
            assert(a + b.drop_last() =~= a);
            assert(b[0] == b.last());
        } else {
            law_spaced_words(a, b.drop_last(), word);
            assert(spaced(a + b) =~= spaced(a) + seq![' '] + spaced(b));
        }
    }
}

/// The number `n` in decimal digits, without leading zeros.
pub open spec fn decimal_text(n: nat) -> Seq<char>
    decreases n,
{
    if n < 10 {
        seq![(48 + n) as char]
    } else {
        decimal_text(n / 10).push((48 + n % 10) as char)
    }
}

/// As many zeros as given.
pub open spec fn zeros(count: nat) -> Seq<char> {
    Seq::new(count, |i: int| '0')
}

proof fn lemma_decimal_text(n: nat)
    ensures
        decimal_text(n).len() > 0,
        forall|i: int| 0 <= i < decimal_text(n).len() ==> is_decimal(#[trigger] decimal_text(n)[i]),
        decimal_number(decimal_text(n)) == n,
    decreases n,
{
    let text = decimal_text(n);
    if n < 10 {
        assert(text.drop_last() =~= Seq::<char>::empty());
        assert(decimal_number(Seq::<char>::empty()) == 0);
        assert(text.last() as int == 48 + n);
    } else {
        lemma_decimal_text(n / 10);
        assert(text.drop_last() =~= decimal_text(n / 10));
        assert(text.last() as int == 48 + n % 10);
    }
}

proof fn lemma_leading_zeros(count: nat, text: Seq<char>)
    ensures
        decimal_number(zeros(count) + text) == decimal_number(text),
    decreases text.len(), count,
{
    let all = zeros(count) + text;
    if text.len() > 0 {
        assert(all.drop_last() =~= zeros(count) + text.drop_last());
        lemma_leading_zeros(count, text.drop_last());
    } else if count > 0 {
        assert(all.drop_last() =~= zeros((count - 1) as nat) + text);
        lemma_leading_zeros((count - 1) as nat, text);
        assert(decimal_number(text) == 0);
    } else {
        assert(all =~= text);
    }
}

/// A number that is written in decimal, with or without leading zeros and a plus sign, is read as
/// that number, if it fits, and is not understood otherwise.
pub proof fn law_numbers_read_back(n: nat, count: nat)
    ensures
        ({
            let text = zeros(count) + decimal_text(n);
            let read = if n <= u64::MAX {
                Some(n as u64)
            } else {
                None
            };
            parsed_number(text) == read && parsed_number(seq!['+'] + text) == read
        }),
{
    let text = zeros(count) + decimal_text(n);
    lemma_decimal_text(n);
    lemma_leading_zeros(count, decimal_text(n));
    assert forall|i: int| 0 <= i < text.len() implies is_decimal(#[trigger] text[i]) by {
        if i >= count {
            assert(text[i] == decimal_text(n)[i - count]);
        }
    }
    assert(is_decimal(text[0]));
    assert(unsigned_text(text) == text);
    assert((seq!['+'] + text).skip(1) =~= text);
    assert(unsigned_text(seq!['+'] + text) == text);
}

/// Every text of decimal digits is some number, written with some leading zeros.
pub proof fn law_digits_are_numbers(text: Seq<char>)
    requires
        text.len() > 0,
        forall|i: int| 0 <= i < text.len() ==> '0' <= #[trigger] text[i] <= '9',
    ensures
        exists|n: nat, count: nat| #[trigger] (zeros(count) + decimal_text(n)) == text,
    decreases text.len(),
{
    let d = (text.last() as int - 48) as nat;
    assert(text[text.len() - 1] == text.last());
    assert(text.last() == (48 + d) as char);
    if text.len() == 1 {
        assert(zeros(0) + decimal_text(d) =~= text);
    } else {
        let front = text.drop_last();
        assert forall|i: int| 0 <= i < front.len() implies '0' <= #[trigger] front[i] <= '9' by {
            assert(front[i] == text[i]);
        }
        law_digits_are_numbers(front);
        let (n, count) = choose|n: nat, count: nat| #[trigger]
            (zeros(count) + decimal_text(n)) == front;
        if n == 0 {
            assert(decimal_text(0) =~= seq!['0']);
            assert(zeros(count + 1) =~= zeros(count) + seq!['0']);
            assert(zeros(count + 1) + decimal_text(d) =~= front.push(text.last()));
            assert(front.push(text.last()) =~= text);
        } else {
            let m = 10 * n + d;
            assert(m / 10 == n && m % 10 == d);
            assert(decimal_text(m) =~= decimal_text(n).push((48 + d) as char));
            assert(zeros(count) + decimal_text(m) =~= front.push(text.last()));
            assert(front.push(text.last()) =~= text);
        }
    }
}

/// Nothing but decimal digits, possibly after one plus sign, is read as a number.
pub proof fn law_other_texts_are_no_numbers(text: Seq<char>, i: int)
    requires
        0 <= i < text.len(),
        !('0' <= text[i] <= '9'),
    ensures
        i > 0 || text[0] != '+' ==> parsed_number(text) is None,
        parsed_number(seq!['+'] + text) is None,
        parsed_number(Seq::empty()) is None,
        parsed_number(seq!['+']) is None,
{
    let signed = seq!['+'] + text;
    assert(signed.skip(1) =~= text);
    assert(!is_decimal(unsigned_text(signed)[i]));
    assert(seq!['+'].skip(1) =~= Seq::<char>::empty());
    if text[0] == '+' {
        if i > 0 {
            assert(unsigned_text(text)[i - 1] == text[i]);
            assert(!is_decimal(unsigned_text(text)[i - 1]));
        }
    } else {
        assert(!is_decimal(unsigned_text(text)[i]));
    }
}

/// The view of options holds each of them, and the texts of several strings are those of each.
pub proof fn law_options_view(o: Options, strings: Seq<String>, i: int)
    ensures
        o@.timeout == o.timeout@,
        o@.kill_on_stderr == o.kill_on_stderr,
        o@.iters == o.iters,
        o@.program == o.program@,
        o@.args == texts(o.args@),
        texts(strings).len() == strings.len(),
        0 <= i < strings.len() ==> texts(strings)[i] == strings[i]@,
{
}

} // verus!
