//! The example fuzzer: its command line, its harness, and how long things take.
use external_mutator::harness::{harness, multipart, plain, signals_set, SIGNALS_LEN};
use external_mutator::inputs::{set_bytes, BytesInput, HasMutatorBytes, MultipartInput, ResizableMutator};
use external_mutator::mutator::command_args;
use external_mutator::options::{default_mutator_args, parse_args, parse_num, usage, Options};
use external_mutator::process::{wait_timeout, ExitCheck, KillStep, Reaper, WaitStep};
use external_mutator::time::Duration;

fn strings(words: &[&str]) -> Vec<String> {
    words.iter().map(|word| (*word).to_string()).collect()
}

fn parsed(args: &[&str]) -> Option<Options> {
    parse_args(&strings(args), strings(&["/dir/mutator.py"]))
}

#[test]
fn default_options() {
    let options = parsed(&[]).unwrap();
    assert_eq!(options.timeout, Duration::from_millis(1000));
    assert_eq!(options.timeout, Duration::from_secs(1));
    assert!(!options.kill_on_stderr);
    assert_eq!(options.iters, None);
    assert_eq!(options.program, "python3");
    assert_eq!(options.args, strings(&["/dir/mutator.py"]));
}

#[test]
fn all_options() {
    let options = parsed(&[
        "--timeout-ms", "100", "--kill-on-stderr", "--iters", "+7", "--timeout-ms", "2500", "--",
        "sh", "--iters", "--",
    ])
    .unwrap();
    assert_eq!(options.timeout, Duration::from_parts(2, 500_000_000));
    assert!(options.kill_on_stderr);
    assert_eq!(options.iters, Some(7));
    assert_eq!(options.program, "sh");
    assert_eq!(options.args, strings(&["--iters", "--"]));
}

#[test]
fn bad_options() {
    for args in [
        &["--timeout-ms"][..],
        &["--timeout-ms", "soon"],
        &["--iters"],
        &["--iters", "-1"],
        &["--"],
        &["--help"],
        &["7"],
    ] {
        assert!(parsed(args).is_none(), "args: {args:?}");
    }
}

#[test]
fn numbers() {
    assert_eq!(parse_num("0"), Some(0));
    assert_eq!(parse_num("18446744073709551615"), Some(u64::MAX));
    assert_eq!(parse_num("18446744073709551616"), None);
    assert_eq!(parse_num("99999999999999999999999"), None);
    assert_eq!(parse_num("+12"), Some(12));
    for text in ["", "+", "++1", "-1", " 1", "1 ", "0x1", "1\u{0661}"] {
        assert_eq!(parse_num(text), None, "text: {text:?}");
    }
}

#[test]
fn usage_names_the_default_mutator() {
    assert_eq!(
        default_mutator_args("/dir", false),
        strings(&["/dir/mutator.py"])
    );
    let args = default_mutator_args("/dir", true);
    assert_eq!(args, strings(&["/dir/mutator.py", "--multipart"]));
    assert_eq!(
        usage("fuzzer", &args),
        "Usage: fuzzer [--timeout-ms <ms>] [--kill-on-stderr] [--iters <n>] [-- <program> [args...]]\n\
         \n\
         Without `-- <program>`, `python3 /dir/mutator.py --multipart` is used as external mutator."
    );
}

#[test]
fn switch_comes_after_all_arguments() {
    assert_eq!(command_args(&Vec::new()), vec![b"--mutator".to_vec()]);
    assert_eq!(
        command_args(&vec![b"mutator.py".to_vec(), b"--seed".to_vec()]),
        vec![
            b"mutator.py".to_vec(),
            b"--seed".to_vec(),
            b"--mutator".to_vec(),
        ]
    );
}

#[test]
fn bug_needs_abc() {
    for (input, bug, depth) in [
        (&b""[..], false, 0),
        (b"b", false, 0),
        (b"a", false, 1),
        (b"axc", false, 1),
        (b"ab", false, 2),
        (b"abx", false, 2),
        (b"abc", true, 2),
        (b"abcd", true, 2),
        (b"xabc", false, 0),
    ] {
        let mut signals = [0_u8; SIGNALS_LEN];
        assert_eq!(harness(input, &mut signals), bug);
        let mut expected = [0_u8; SIGNALS_LEN];
        for idx in 0..=depth {
            signals_set(&mut expected, idx);
        }
        assert_eq!(signals, expected);
    }
}

#[test]
fn harness_sees_the_payload_only() {
    let bytes = |text: &str| BytesInput::new(text.as_bytes().to_vec());
    assert_eq!(plain::harness_bytes(&bytes("abc")), b"abc");

    let input = multipart::generate(bytes("head"), bytes("body"));
    assert_eq!(input.parts()[0], ("header".to_string(), bytes("head")));
    assert_eq!(input.parts()[1], ("payload".to_string(), bytes("body")));
    assert_eq!(multipart::harness_bytes(&input), b"body");

    let input = MultipartInput::new(vec![
        ("payload".to_string(), bytes("a")),
        ("header".to_string(), bytes("x")),
        ("payload".to_string(), bytes("bc")),
    ]);
    assert_eq!(multipart::harness_bytes(&input), b"abc");
    assert_eq!(multipart::harness_bytes(&MultipartInput::new(vec![])), b"");
}

#[test]
fn bytes_are_replaced() {
    let mut input = BytesInput::new(b"abc".to_vec());
    let copy = input.clone();
    set_bytes(&mut input, b"longer");
    assert_eq!(input.mutator_bytes(), b"longer");
    set_bytes(&mut input, b"");
    assert_eq!(input.mutator_bytes(), b"");
    input.resize(2, 7);
    assert_eq!(input.mutator_bytes(), [7, 7]);
    input.mutator_bytes_mut()[0] = 1;
    input.resize(1, 9);
    assert_eq!(input.mutator_bytes(), [1]);
    assert_eq!(copy.mutator_bytes(), b"abc");
}

#[test]
fn durations() {
    let d = Duration::from_millis(1999);
    assert_eq!((d.as_secs(), d.subsec_nanos()), (1, 999_000_000));
    let sum = d.saturating_add(Duration::from_millis(1));
    assert_eq!(sum, Duration::from_secs(2));
    let longest = Duration::from_parts(u64::MAX, 999_999_999);
    assert_eq!(longest.saturating_add(Duration::from_parts(0, 1)), longest);
    assert_eq!(
        Duration::from_secs(u64::MAX).saturating_add(Duration::from_secs(1)),
        longest
    );
    assert_eq!(
        Duration::from_secs(u64::MAX).saturating_add(Duration::from_parts(0, 999_999_999)),
        longest
    );
    let d = Duration::from_millis(u64::MAX);
    assert_eq!(
        (d.as_secs(), d.subsec_nanos()),
        (18_446_744_073_709_551, 615_000_000)
    );
}

#[test]
fn processes_are_killed_once() {
    let mut reaper = Reaper::new();
    assert_eq!(reaper.kill(), KillStep::CheckExit);
    assert_eq!(reaper.checked(true), KillStep::Done);
    assert_eq!(reaper.checked(false), KillStep::KillAndReap);
    assert_eq!(reaper.kill(), KillStep::Done);
    assert_eq!(reaper.kill(), KillStep::Done);
}

#[test]
fn waiting_for_an_exit() {
    assert_eq!(
        wait_timeout(ExitCheck::Exited(true), false),
        WaitStep::Return(Some(true))
    );
    assert_eq!(
        wait_timeout(ExitCheck::Exited(false), true),
        WaitStep::Return(Some(false))
    );
    assert_eq!(wait_timeout(ExitCheck::Running, true), WaitStep::Sleep);
    assert_eq!(wait_timeout(ExitCheck::Running, false), WaitStep::Return(None));
    assert_eq!(wait_timeout(ExitCheck::Failed, true), WaitStep::Return(None));
}
