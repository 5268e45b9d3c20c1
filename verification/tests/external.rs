//! Conversations with external programs, which are played by Rust closures.
use std::cell::Cell;
use std::collections::VecDeque;
use std::rc::Rc;

use external_mutator::exchange::{Action, Event, Reply};
use external_mutator::inputs::{BytesInput, HasMutatorBytes, MultipartInput};
use external_mutator::mutate::{bytes_fields, multipart_fields, string_keys, MutationResult};
use external_mutator::mutator::{Error, ExternalProcessMutator};
use external_mutator::protocol::{can_send, decode_fields, encode_request, parse_id, split_id};
use external_mutator::reader::{OutputReader, ProcessEvent, ReadResult};
use external_mutator::time::Duration;

/// The max size of inputs, unless a test says otherwise.
const MAX_SIZE: usize = 1_048_576;

/// What a program does with one request.
#[derive(Default)]
struct Answer {
    /// Written to stderr, before anything is written to stdout.
    stderr: Vec<u8>,
    /// Written to stdout.
    stdout: Vec<u8>,
    /// Written to stdout, but not before the next request has been sent.
    late_stdout: Vec<u8>,
    /// Written to stderr after the exchange has ended.
    late_stderr: Vec<u8>,
    /// How long all of this takes, in milliseconds. `None` if it takes forever.
    millis: Option<u64>,
    /// Whether the program exits afterwards, with what status, if that can be found out.
    exit: Option<Option<bool>>,
}

/// Writes one line right away.
fn echo(line: &str) -> Answer {
    Answer {
        stdout: [line.as_bytes(), b"\n"].concat(),
        millis: Some(0),
        ..Answer::default()
    }
}

/// Never writes anything.
fn silence() -> Answer {
    Answer::default()
}

/// A running program: called with the id and the rest of each request.
type Program = Box<dyn FnMut(&str, &str) -> Answer>;

/// A program that can be started, with its arguments after the script.
type Script = Box<dyn Fn(&[String]) -> Program>;

/// The mutator, and the world around it.
struct World {
    mutator: ExternalProcessMutator,
    script: Script,
    program: Option<Program>,
    reader: OutputReader,
    events: VecDeque<ProcessEvent>,
    /// What a running program has yet to write.
    late_stdout: Vec<u8>,
    late_stderr: Vec<u8>,
    exit: Option<bool>,
    next_pid: u32,
    /// If set, programs cannot be spawned.
    spawn_error: Option<Error>,
    /// The time spent waiting, in nanoseconds.
    clock: u128,
    /// When the current request is given up.
    deadline: u128,
    /// When the next output is ready. `None` if never.
    ready: Option<u128>,
    /// All requests that were sent.
    requests: Vec<Vec<u8>>,
}

fn nanos(d: Duration) -> u128 {
    u128::from(d.as_secs()) * 1_000_000_000 + u128::from(d.subsec_nanos())
}

/// Starts a script with the interpreter `sh`, so that it sees the arguments after `-c <script> sh`.
fn sh(script: Script) -> World {
    let program = b"sh".to_vec();
    let args = vec![b"-c".to_vec(), b"script".to_vec(), b"sh".to_vec()];
    let mutator = ExternalProcessMutator::new(program, args, Ok(1000))
        .unwrap()
        .with_timeout(Duration::from_secs(5));
    let mut world = World {
        mutator,
        script,
        program: None,
        reader: OutputReader::new(),
        events: VecDeque::new(),
        late_stdout: Vec::new(),
        late_stderr: Vec::new(),
        exit: None,
        next_pid: 1001,
        spawn_error: None,
        clock: 0,
        deadline: 0,
        ready: None,
        requests: Vec::new(),
    };
    world.start();
    world
}

impl World {
    fn with(mut self, change: impl FnOnce(ExternalProcessMutator) -> ExternalProcessMutator) -> Self {
        self.mutator = change(self.mutator);
        self
    }

    fn start(&mut self) {
        let argv: Vec<String> = self
            .mutator
            .args()
            .into_iter()
            .map(|arg| String::from_utf8(arg).unwrap())
            .collect();
        assert_eq!(self.mutator.program(), b"sh");
        assert_eq!(argv[0], "-c");
        self.program = Some((self.script)(&argv[3..]));
        self.reader = OutputReader::new();
        self.events.clear();
        self.late_stdout.clear();
        self.late_stderr.clear();
        self.exit = None;
        self.ready = None;
    }

    fn stdout(&mut self, bytes: Vec<u8>) {
        self.reader.stdout_read(ReadResult::Read(bytes));
        let events = self.reader.polled(false);
        self.events.extend(events);
    }

    fn stderr(&mut self, bytes: Vec<u8>) {
        let events = self.reader.stderr_read(ReadResult::Read(bytes));
        self.events.extend(events);
    }

    /// The program gets a request.
    fn request(&mut self, request: Vec<u8>, timeout: Duration) {
        self.deadline = self.clock + nanos(timeout);
        let late = std::mem::take(&mut self.late_stdout);
        if !late.is_empty() {
            self.stdout(late);
        }
        let line = String::from_utf8(request.clone()).unwrap();
        self.requests.push(request);
        let line = line.strip_suffix('\n').unwrap();
        let (id, rest) = line.split_once(' ').unwrap_or((line, ""));
        let Some(program) = &mut self.program else {
            return;
        };
        let answer = program(id, rest.trim_end());
        self.ready = answer
            .millis
            .map(|millis| self.clock + u128::from(millis) * 1_000_000);
        if !answer.stderr.is_empty() {
            self.stderr(answer.stderr);
        }
        if !answer.stdout.is_empty() {
            self.stdout(answer.stdout);
        }
        self.late_stdout = answer.late_stdout;
        self.late_stderr = answer.late_stderr;
        if let Some(status) = answer.exit {
            self.exit = status;
            self.program = None;
            self.stdout(Vec::new());
            self.ready = Some(self.ready.unwrap_or(self.clock));
        }
    }

    /// Waits for output until the deadline.
    fn receive(&mut self) -> Event {
        match self.ready {
            Some(ready) if ready <= self.deadline => {
                self.clock = self.clock.max(ready);
                match self.events.pop_front() {
                    Some(event) => Event::Output(event),
                    None if self.program.is_none() => Event::Disconnected,
                    None => {
                        self.clock = self.deadline;
                        Event::TimedOut
                    }
                }
            }
            _ => {
                self.clock = self.deadline;
                Event::TimedOut
            }
        }
    }

    /// Performs one exchange.
    fn exchange(&mut self, fields: Vec<Vec<u8>>) -> Result<Option<Vec<Vec<u8>>>, Error> {
        assert!(can_send(&fields));
        let (mut exchange, mut action) = self.mutator.begin_exchange(fields);
        loop {
            let event = match action {
                Action::Spawn => match self.spawn_error {
                    Some(err) => Event::SpawnFailed(err),
                    None => {
                        self.start();
                        self.next_pid += 1;
                        Event::Spawned(self.next_pid - 1)
                    }
                },
                Action::Poll => match self.events.pop_front() {
                    Some(event) => Event::Output(event),
                    None if self.program.is_none() => Event::Disconnected,
                    None => Event::NoOutput,
                },
                Action::AwaitExit => Event::ExitStatus(self.exit),
                Action::Send { request, timeout } => {
                    self.request(request, timeout);
                    self.receive()
                }
                Action::Receive => self.receive(),
                Action::Kill => {
                    self.program = None;
                    Event::Killed
                }
                Action::Finish(result) => {
                    let late = std::mem::take(&mut self.late_stderr);
                    if !late.is_empty() {
                        self.stderr(late);
                    }
                    return result;
                }
            };
            action = self.mutator.exchange(&mut exchange, event);
        }
    }

    /// Mutates an input of bytes once.
    fn run(&mut self, input: &mut BytesInput) -> MutationResult {
        let exchanged = self.exchange(bytes_fields(input));
        self.mutator.mutate(input, exchanged, MAX_SIZE).unwrap()
    }

    /// Mutates an input of several parts once.
    fn run_multipart(&mut self, input: &mut MultipartInput<BytesInput, String>) -> MutationResult {
        let keys = string_keys(input);
        let exchanged = self.exchange(multipart_fields(input, &keys));
        self.mutator
            .mutate_multipart(input, &keys, exchanged, MAX_SIZE)
            .unwrap()
    }
}

/// A script that treats every request alike.
fn each(answer: impl Fn(&str, &str) -> Answer + 'static) -> Script {
    let answer = Rc::new(answer);
    Box::new(move |_| {
        let answer = answer.clone();
        Box::new(move |id, l| answer(id, l))
    })
}

/// Runs a single mutation of a bytes input with the given script,
/// returns the result, the (mutated) input, and the spawn count.
fn mutate_once(script: Script, input: &[u8]) -> (MutationResult, Vec<u8>, usize) {
    let mut world = sh(script);
    let mut input = BytesInput::new(input.to_vec());
    (
        world.run(&mut input),
        input.mutator_bytes().to_vec(),
        world.mutator.spawn_count(),
    )
}

#[test]
fn test_encode_and_parse() {
    assert_eq!(encode_request(0x1f, &[b"abc"]), b"1f 616263\n");
    assert_eq!(
        encode_request(2, &[b"\"a\"", b"xy", b"\"b\"", b""]),
        b"2 226122 7879 226222 \n"
    );
    assert_eq!(encode_request(5, &[]), b"5\n");
    assert_eq!(encode_request(u64::MAX, &[b""]), b"ffffffffffffffff \n");

    assert_eq!(split_id(b"1f 6162"), (&b"1f"[..], Some(&b"6162"[..])));
    assert_eq!(split_id(b"1f "), (&b"1f"[..], Some(&b""[..])));
    assert_eq!(split_id(b"1f"), (&b"1f"[..], None));

    assert_eq!(parse_id(b"1f"), Some(0x1f));
    assert_eq!(parse_id(b"FF"), Some(0xff));
    assert_eq!(parse_id(b"ffffffffffffffff"), Some(u64::MAX));
    assert_eq!(parse_id(b"10000000000000000"), None);
    assert_eq!(parse_id(b"0x1f"), None);
    assert_eq!(parse_id(b"+1f"), None);
    assert_eq!(parse_id(b""), None);

    assert_eq!(decode_fields(None).unwrap(), Vec::<Vec<u8>>::new());
    assert_eq!(decode_fields(Some(b"")).unwrap(), vec![Vec::<u8>::new()]);
    assert_eq!(
        decode_fields(Some(b"61  62")).unwrap(),
        vec![b"a".to_vec(), vec![], b"b".to_vec()]
    );
    assert!(decode_fields(Some(b"6")).is_err());
    assert!(decode_fields(Some(b"zz")).is_err());
}

#[test]
fn test_mutator_switch() {
    // Replies with "ok" as hex if the `--mutator` switch was passed as last (and only) argument
    let (result, bytes, _) = mutate_once(
        Box::new(|args: &[String]| {
            let ok = args.len() == 1 && args[0] == "--mutator";
            Box::new(move |id, _| if ok { echo(&format!("{id} 6f6b")) } else { silence() })
        }),
        b"x",
    );
    assert_eq!(result, MutationResult::Mutated);
    assert_eq!(bytes, b"ok");
}

#[test]
fn test_mutated_and_unchanged() {
    // Prepends 'A' to all inputs of length 1, returns everything else as-is.
    let mut world = sh(each(|id, l| {
        if l.len() == 2 {
            echo(&format!("{id} 41{l}"))
        } else {
            echo(&format!("{id} {l}"))
        }
    }));
    let mut input = BytesInput::new(b"b".to_vec());
    assert_eq!(world.run(&mut input), MutationResult::Mutated);
    assert_eq!(input.mutator_bytes(), b"Ab");

    assert_eq!(world.run(&mut input), MutationResult::Skipped);
    assert_eq!(input.mutator_bytes(), b"Ab");
    assert_eq!(world.mutator.spawn_count(), 1);
}

#[test]
fn test_request_ids() {
    // Only answers if the ids are consecutive (as hex, starting at 0), otherwise times out.
    let mut world = sh(Box::new(|_: &[String]| {
        let mut n = 0;
        Box::new(move |id, l| {
            let expected = format!("{n:x}");
            n += 1;
            if id == expected {
                echo(&format!("{id} 41{l}"))
            } else {
                silence()
            }
        })
    }));
    let mut input = BytesInput::new(b"b".to_vec());
    for _ in 0..20 {
        assert_eq!(world.run(&mut input), MutationResult::Mutated);
    }
    assert_eq!(input.mutator_bytes().len(), 21);
    assert_eq!(world.mutator.spawn_count(), 1);
    assert_eq!(
        world.requests[16],
        format!("10 {}62\n", "41".repeat(16)).into_bytes()
    );
}

#[test]
fn test_wrong_id_respawns() {
    let mut world = sh(each(|id, l| echo(&format!("ff{id} 41{l}"))));
    let mut input = BytesInput::new(b"b".to_vec());
    assert_eq!(world.run(&mut input), MutationResult::Skipped);
    assert_eq!(input.mutator_bytes(), b"b");
    assert_eq!(world.mutator.spawn_count(), 2);

    // A reply without any id respawns, too
    let (result, bytes, spawn_count) = mutate_once(each(|_, _| echo("nothex")), b"b");
    assert_eq!(
        (result, &bytes[..], spawn_count),
        (MutationResult::Skipped, &b"b"[..], 2)
    );
}

#[test]
fn test_stale_reply_is_never_applied() {
    // Answers every request twice, the second answer must never be used for the next request.
    // Every other time, the second answer arrives only after the next request has been sent.
    let late = Rc::new(Cell::new(false));
    let mut world = sh(each({
        let late = late.clone();
        move |id, l| {
            let second = format!("{id} 42{l}\n").into_bytes();
            let mut answer = echo(&format!("{id} 41{l}"));
            if late.get() {
                answer.late_stdout = second;
            } else {
                answer.stdout.extend(second);
            }
            late.set(!late.get());
            answer
        }
    }));
    let mut input = BytesInput::new(b"b".to_vec());
    assert_eq!(world.run(&mut input), MutationResult::Mutated);
    assert_eq!(input.mutator_bytes(), b"Ab");
    let mut skipped = 0;
    for _ in 0..10 {
        let before = input.mutator_bytes().to_vec();
        match world.run(&mut input) {
            // The stale line got discarded before sending the next request
            MutationResult::Mutated => {
                assert_eq!(input.mutator_bytes(), [b"A", &before[..]].concat());
            }
            // The stale line was received as the reply: wrong id
            MutationResult::Skipped => {
                skipped += 1;
                assert_eq!(input.mutator_bytes(), before);
            }
        }
    }
    assert!(0 < skipped && skipped < 10);
    assert_eq!(world.mutator.spawn_count(), 1 + skipped);
}

#[test]
fn test_timeout_respawns() {
    let mut world = sh(each(|_, _| silence())).with(|mutator| {
        mutator
            .with_timeout(Duration::from_millis(200))
            .with_startup_timeout(Duration::from_secs(0))
    });
    let mut input = BytesInput::new(b"abc".to_vec());
    let first_pid = world.mutator.pid();

    assert_eq!(world.run(&mut input), MutationResult::Skipped);
    assert!(world.clock < nanos(Duration::from_secs(5)));
    assert_eq!(world.clock, 200_000_000);
    assert_eq!(input.mutator_bytes(), b"abc");
    assert_eq!(world.mutator.spawn_count(), 2);
    assert_ne!(world.mutator.pid(), first_pid);
}

/// Answers the first request 300 milliseconds after it was started, and later ones at once.
fn slow_start() -> Script {
    Box::new(|_: &[String]| {
        let mut first = true;
        Box::new(move |id, l| {
            let millis = if first { 300 } else { 0 };
            first = false;
            Answer {
                millis: Some(millis),
                ..echo(&format!("{id} 41{l}"))
            }
        })
    })
}

#[test]
fn test_startup_timeout() {
    // Slow startup: the first request needs the startup timeout, later ones are fast.
    let mut world = sh(slow_start()).with(|mutator| {
        mutator
            .with_timeout(Duration::from_millis(100))
            .with_startup_timeout(Duration::from_secs(5))
    });
    let mut input = BytesInput::new(b"b".to_vec());
    for _ in 0..3 {
        assert_eq!(world.run(&mut input), MutationResult::Mutated);
    }
    assert_eq!(input.mutator_bytes(), b"AAAb");
    assert_eq!(world.mutator.spawn_count(), 1);
}

#[test]
fn test_exit_respawns() {
    // One-shot mutator: answers a single request, then exits.
    let mut world = sh(each(|id, l| Answer {
        exit: Some(Some(true)),
        ..echo(&format!("{id} ff{l}"))
    }));
    let mut input = BytesInput::new(b"a".to_vec());
    for i in 1..=3 {
        assert_eq!(world.run(&mut input), MutationResult::Mutated);
        assert_eq!(input.mutator_bytes().len(), 1 + i);
    }
    assert_eq!(world.mutator.spawn_count(), 3);

    // Crashes (non-zero exit) after answering once: no retry, the mutation is skipped.
    let mut world = sh(Box::new(|_: &[String]| {
        let mut first = true;
        Box::new(move |id, l| {
            if first {
                first = false;
                echo(&format!("{id} ff{l}"))
            } else {
                Answer {
                    exit: Some(Some(false)),
                    ..Answer::default()
                }
            }
        })
    }));
    let mut input = BytesInput::new(b"a".to_vec());
    assert_eq!(world.run(&mut input), MutationResult::Mutated);
    assert_eq!(world.run(&mut input), MutationResult::Skipped);
    assert_eq!(world.mutator.spawn_count(), 2);

    // Exits without answering
    let (result, _, spawn_count) = mutate_once(
        each(|_, _| Answer {
            exit: Some(Some(false)),
            ..Answer::default()
        }),
        b"a",
    );
    assert_eq!((result, spawn_count), (MutationResult::Skipped, 2));
}

#[test]
fn test_stderr() {
    let script = || {
        each(|id, l| Answer {
            stderr: b"something went wrong\n".to_vec(),
            ..echo(&format!("{id} 41{l}"))
        })
    };
    // stderr gets ignored (only logged)
    let mut world = sh(script()).with(|mutator| mutator.with_kill_on_stderr(false));
    let mut input = BytesInput::new(b"b".to_vec());
    assert_eq!(world.run(&mut input), MutationResult::Mutated);
    assert_eq!(input.mutator_bytes(), b"Ab");
    assert_eq!(world.mutator.spawn_count(), 1);

    // stderr kills the process
    let mut world = sh(script()).with(|mutator| mutator.with_kill_on_stderr(true));
    let mut input = BytesInput::new(b"b".to_vec());
    assert_eq!(world.run(&mut input), MutationResult::Skipped);
    assert_eq!(input.mutator_bytes(), b"b");
    assert_eq!(world.mutator.spawn_count(), 2);
}

#[test]
fn test_invalid_and_empty_output() {
    let skipped_without_respawn = (MutationResult::Skipped, b"b".to_vec(), 1);
    // invalid hex
    assert_eq!(
        mutate_once(each(|id, _| echo(&format!("{id} nothex"))), b"b"),
        skipped_without_respawn
    );
    // only the id: no mutation
    assert_eq!(
        mutate_once(each(|id, _| echo(id)), b"b"),
        skipped_without_respawn
    );
    // an empty field: no bytes
    assert_eq!(
        mutate_once(each(|id, _| echo(&format!("{id} "))), b"b"),
        skipped_without_respawn
    );
    // too many fields
    assert_eq!(
        mutate_once(each(|id, l| echo(&format!("{id} 41{l} 42"))), b"b"),
        skipped_without_respawn
    );
}

fn multipart(parts: &[(&str, &str)]) -> MultipartInput<BytesInput, String> {
    MultipartInput::new(
        parts
            .iter()
            .map(|(k, v)| ((*k).to_string(), BytesInput::new(v.as_bytes().to_vec())))
            .collect(),
    )
}

fn parts(input: &MultipartInput<BytesInput, String>) -> Vec<(String, String)> {
    input
        .parts()
        .iter()
        .map(|(k, v)| {
            let v = String::from_utf8(v.mutator_bytes().to_vec()).unwrap();
            (k.clone(), v)
        })
        .collect()
}

/// Mutates `[("a", "x"), ("b", "y")]` once with a script that sees `id k1 v1 k2 v2`.
fn mutate_ab(
    reply: impl Fn(&str, [&str; 4]) -> Answer + 'static,
) -> (MutationResult, Vec<(String, String)>, usize) {
    let mut world = sh(each(move |id, l| {
        let words: Vec<&str> = l.split(' ').collect();
        reply(id, [words[0], words[1], words[2], words[3]])
    }));
    let mut input = multipart(&[("a", "x"), ("b", "y")]);
    let result = world.run_multipart(&mut input);
    (result, parts(&input), world.mutator.spawn_count())
}

fn owned(parts: &[(&str, &str)]) -> Vec<(String, String)> {
    parts
        .iter()
        .map(|(k, v)| ((*k).to_string(), (*v).to_string()))
        .collect()
}

#[test]
fn test_request_format_and_mutation() {
    // Only answers if the request has the expected format.
    let (result, parts, _) = mutate_ab(|id, [k1, v1, k2, v2]| {
        if format!("{k1} {v1} {k2} {v2}") == "226122 78 226222 79" {
            echo(&format!("{id} {k1} 41{v1} {k2} {v2}"))
        } else {
            silence()
        }
    });
    assert_eq!(result, MutationResult::Mutated);
    assert_eq!(parts, owned(&[("a", "Ax"), ("b", "y")]));
}

#[test]
fn test_reorder_remove_duplicate() {
    let (result, parts, _) =
        mutate_ab(|id, [k1, v1, k2, v2]| echo(&format!("{id} {k2} {v2} {k1} {v1} {k1} 41{v1}")));
    assert_eq!(result, MutationResult::Mutated);
    assert_eq!(parts, owned(&[("b", "y"), ("a", "x"), ("a", "Ax")]));

    let (result, parts, _) = mutate_ab(|id, [_, _, k2, v2]| echo(&format!("{id} {k2} {v2}")));
    assert_eq!(result, MutationResult::Mutated);
    assert_eq!(parts, owned(&[("b", "y")]));
}

#[test]
fn test_empty_part() {
    // The last field is empty (trailing space)
    let (result, parts, _) =
        mutate_ab(|id, [k1, v1, k2, _]| echo(&format!("{id} {k1} {v1} {k2} ")));
    assert_eq!(result, MutationResult::Mutated);
    assert_eq!(parts, owned(&[("a", "x"), ("b", "")]));
}

#[test]
fn test_skipped() {
    let unchanged = owned(&[("a", "x"), ("b", "y")]);
    let replies: [fn(&str, [&str; 4]) -> Answer; 5] = [
        |id, [k1, v1, k2, v2]| echo(&format!("{id} {k1} {v1} {k2} {v2}")), // unchanged
        |id, _| echo(id),                                                  // no mutation
        |id, [_, v1, _, _]| echo(&format!("{id} 7a7a {v1}")),              // unknown key
        |id, [k1, _, _, _]| echo(&format!("{id} {k1}")),                   // odd number of fields
        |id, [k1, _, _, _]| echo(&format!("{id} {k1} nothex")),            // invalid hex
    ];
    for (i, reply) in replies.into_iter().enumerate() {
        assert_eq!(
            mutate_ab(reply),
            (MutationResult::Skipped, unchanged.clone(), 1),
            "reply: {i}"
        );
    }
    // Wrong id: respawn
    assert_eq!(
        mutate_ab(|id, [k1, v1, k2, v2]| echo(&format!("1{id} {k1} 41{v1} {k2} {v2}"))),
        (MutationResult::Skipped, unchanged, 2)
    );
}

#[test]
fn test_no_parts() {
    // A request for an input without parts consists of the id only.
    let mut world = sh(each(|id, rest| if rest.is_empty() { echo(id) } else { silence() }));
    let mut input = multipart(&[]);
    assert_eq!(world.run_multipart(&mut input), MutationResult::Skipped);
    assert_eq!(world.mutator.spawn_count(), 1);
    assert_eq!(world.requests, vec![b"0\n".to_vec()]);
}

#[test]
fn test_spawn_error() {
    assert!(ExternalProcessMutator::new(
        b"/nonexistent/mutator".to_vec(),
        vec![b"x".to_vec()],
        Err(Error::Os(2)),
    )
    .is_err());
}

#[test]
fn defaults_and_settings() {
    let mut mutator =
        ExternalProcessMutator::new(b"python3".to_vec(), vec![b"mutator.py".to_vec()], Ok(42))
            .unwrap();
    assert_eq!(mutator.name(), "ExternalProcessMutator");
    assert_eq!(mutator.program(), b"python3");
    assert_eq!(
        mutator.args(),
        vec![b"mutator.py".to_vec(), b"--mutator".to_vec()]
    );
    assert_eq!(mutator.timeout(), Duration::from_secs(1));
    assert_eq!(mutator.startup_timeout(), Duration::from_secs(5));
    assert!(!mutator.kill_on_stderr());
    assert_eq!(mutator.pid(), Some(42));
    assert_eq!(mutator.spawn_count(), 1);
    assert_eq!(mutator.replies(), 0);
    assert_eq!(mutator.effective_timeout(), Duration::from_secs(6));

    mutator.set_timeout(Duration::from_millis(10));
    mutator.set_startup_timeout(Duration::from_millis(20));
    mutator.set_kill_on_stderr(true);
    let mut mutator = mutator.with_name("other".to_string());
    assert_eq!(mutator.timeout(), Duration::from_millis(10));
    assert_eq!(mutator.startup_timeout(), Duration::from_millis(20));
    assert!(mutator.kill_on_stderr());
    assert_eq!(mutator.name(), "other");
    assert_eq!(mutator.effective_timeout(), Duration::from_millis(30));
    assert!(mutator.post_exec().is_ok());
    assert!(mutator.exceeds_max_size(11, 10));
    assert!(!mutator.exceeds_max_size(10, 10));
}

#[test]
fn failed_respawn_is_reported() {
    let mut world = sh(each(|_, _| silence()));
    world.spawn_error = Some(Error::Os(12));
    let fields = vec![b"b".to_vec()];
    assert_eq!(world.exchange(fields.clone()), Err(Error::Os(12)));
    assert_eq!(world.mutator.pid(), None);
    assert_eq!(world.mutator.spawn_count(), 1);

    // No process is left, so the next exchange has to spawn one first.
    world.spawn_error = Some(Error::IllegalState);
    assert_eq!(world.exchange(fields.clone()), Err(Error::IllegalState));
    assert_eq!(world.requests.len(), 1);

    // The error is handed on, and the input is left alone.
    let mut input = BytesInput::new(b"b".to_vec());
    assert_eq!(
        world.mutator.mutate(&mut input, Err(Error::Os(12)), MAX_SIZE),
        Err(Error::Os(12))
    );
    assert_eq!(input.mutator_bytes(), b"b");

    world.spawn_error = None;
    assert_eq!(world.exchange(fields), Ok(None));
    assert_eq!(world.mutator.spawn_count(), 3);
    // The failed exchange that sent nothing did not use up an id.
    assert_eq!(world.requests, vec![b"0 62\n".to_vec(), b"1 62\n".to_vec()]);
}

#[test]
fn clean_exit_is_retried_with_the_same_request() {
    // Answers one request, and then exits cleanly as soon as it sees another one.
    let mut world = sh(Box::new(|_: &[String]| {
        let mut first = true;
        Box::new(move |id, l| {
            if first {
                first = false;
                echo(&format!("{id} 41{l}"))
            } else {
                Answer {
                    exit: Some(Some(true)),
                    ..Answer::default()
                }
            }
        })
    }));
    let mut input = BytesInput::new(b"b".to_vec());
    assert_eq!(world.run(&mut input), MutationResult::Mutated);
    assert_eq!(world.run(&mut input), MutationResult::Mutated);
    assert_eq!(input.mutator_bytes(), b"AAb");
    assert_eq!(world.mutator.spawn_count(), 2);
    assert_eq!(
        world.requests,
        vec![
            b"0 62\n".to_vec(),
            b"1 4162\n".to_vec(),
            b"1 4162\n".to_vec(),
        ]
    );
}

#[test]
fn a_request_is_retried_only_once() {
    // The first process answers once, all others exit cleanly without an answer.
    let spawned = Cell::new(0);
    let mut world = sh(Box::new(move |_: &[String]| {
        let mut healthy = spawned.get() == 0;
        spawned.set(spawned.get() + 1);
        Box::new(move |id, l| {
            if healthy {
                healthy = false;
                echo(&format!("{id} 41{l}"))
            } else {
                Answer {
                    exit: Some(Some(true)),
                    ..Answer::default()
                }
            }
        })
    }));
    let mut input = BytesInput::new(b"b".to_vec());
    assert_eq!(world.run(&mut input), MutationResult::Mutated);
    assert_eq!(world.run(&mut input), MutationResult::Skipped);
    assert_eq!(world.requests.len(), 3);
    assert_eq!(world.mutator.spawn_count(), 3);
    // A process that never answered anything is not retried at all.
    assert_eq!(world.run(&mut input), MutationResult::Skipped);
    assert_eq!(world.requests.len(), 4);
    assert_eq!(input.mutator_bytes(), b"Ab");
}

#[test]
fn leftover_stderr_respawns_before_the_request() {
    let script = || {
        each(|id, l| Answer {
            late_stderr: b"oops".to_vec(),
            ..echo(&format!("{id} 41{l}"))
        })
    };
    let mut world = sh(script()).with(|mutator| mutator.with_kill_on_stderr(true));
    let mut input = BytesInput::new(b"b".to_vec());
    assert_eq!(world.run(&mut input), MutationResult::Mutated);
    assert_eq!(world.mutator.spawn_count(), 1);
    assert_eq!(world.run(&mut input), MutationResult::Mutated);
    assert_eq!(world.mutator.spawn_count(), 2);
    assert_eq!(input.mutator_bytes(), b"AAb");

    let mut world = sh(script());
    assert_eq!(world.run(&mut input), MutationResult::Mutated);
    assert_eq!(world.run(&mut input), MutationResult::Mutated);
    assert_eq!(world.mutator.spawn_count(), 1);
}

#[test]
fn blank_lines_on_stderr_kill_the_process() {
    for stderr in [&b"\n"[..], b"\r\n", b"\n\n"] {
        let stderr = stderr.to_vec();
        let script = || {
            let stderr = stderr.clone();
            each(move |id, l| Answer {
                stderr: stderr.clone(),
                ..echo(&format!("{id} 41{l}"))
            })
        };
        let mut world = sh(script()).with(|mutator| mutator.with_kill_on_stderr(true));
        let mut input = BytesInput::new(b"b".to_vec());
        assert_eq!(world.run(&mut input), MutationResult::Skipped);
        assert_eq!(world.mutator.spawn_count(), 2);

        let mut world = sh(script());
        assert_eq!(world.run(&mut input), MutationResult::Mutated);
        assert_eq!(world.mutator.spawn_count(), 1);
    }
}

#[test]
fn timeouts_are_honored_despite_stderr() {
    let new = || ExternalProcessMutator::new(b"sh".to_vec(), Vec::new(), Ok(1)).unwrap();
    let stderr = || ProcessEvent::Stderr(b"still busy".to_vec());

    let mut mutator = new();
    let (mut exchange, action) = mutator.begin_exchange(vec![b"b".to_vec()]);
    assert_eq!(action, Action::Poll);
    assert_eq!(
        mutator.exchange(&mut exchange, Event::NoOutput),
        Action::Send {
            request: b"0 62\n".to_vec(),
            timeout: Duration::from_secs(6),
        }
    );
    assert_eq!(
        mutator.exchange(&mut exchange, Event::Output(stderr())),
        Action::Receive
    );
    assert_eq!(
        mutator.exchange(&mut exchange, Event::Overdue(stderr())),
        Action::Spawn
    );
    assert_eq!(
        mutator.exchange(&mut exchange, Event::Spawned(2)),
        Action::Finish(Ok(None))
    );

    // A reply that is there when the timeout is over still counts.
    let mut mutator = new();
    let (mut exchange, _) = mutator.begin_exchange(vec![b"b".to_vec()]);
    mutator.exchange(&mut exchange, Event::NoOutput);
    let reply = ProcessEvent::Stdout(b"0 63".to_vec());
    assert_eq!(
        mutator.exchange(&mut exchange, Event::Overdue(reply)),
        Action::Poll
    );
    assert_eq!(
        mutator.exchange(&mut exchange, Event::NoOutput),
        Action::Finish(Ok(Some(vec![b"c".to_vec()])))
    );
}

#[test]
fn without_a_process_there_is_no_reply() {
    let mut world = sh(each(|_, _| silence()));
    world.spawn_error = Some(Error::Os(12));
    assert!(world.exchange(vec![b"b".to_vec()]).is_err());
    assert_eq!(world.mutator.pid(), None);
    for event in [
        Event::Output(ProcessEvent::Stdout(b"0 63".to_vec())),
        Event::Output(ProcessEvent::Stderr(b"x".to_vec())),
        Event::TimedOut,
        Event::Disconnected,
    ] {
        assert!(matches!(
            world.mutator.roundtrip(0, event),
            Some(Reply::Exited)
        ));
    }
    assert_eq!(world.mutator.replies(), 0);
}

#[test]
fn final_line_without_terminator_is_a_reply() {
    let mut world = sh(each(|id, l| Answer {
        stdout: format!("{id} 41{l}").into_bytes(),
        millis: Some(0),
        exit: Some(None),
        ..Answer::default()
    }));
    let mut input = BytesInput::new(b"b".to_vec());
    assert_eq!(world.run(&mut input), MutationResult::Mutated);
    assert_eq!(input.mutator_bytes(), b"Ab");
    assert_eq!(world.mutator.pid(), None);
}

#[test]
fn startup_timeout_counts_for_the_first_request_only() {
    let mut world = sh(each(|id, l| Answer {
        millis: Some(300),
        ..echo(&format!("{id} 41{l}"))
    }))
    .with(|mutator| {
        mutator
            .with_timeout(Duration::from_millis(100))
            .with_startup_timeout(Duration::from_millis(200))
    });
    let mut input = BytesInput::new(b"b".to_vec());
    assert_eq!(world.run(&mut input), MutationResult::Mutated);
    assert_eq!(world.mutator.replies(), 1);
    assert_eq!(world.mutator.effective_timeout(), Duration::from_millis(100));
    assert_eq!(world.run(&mut input), MutationResult::Skipped);
    assert_eq!(world.mutator.spawn_count(), 2);
    assert_eq!(world.mutator.effective_timeout(), Duration::from_millis(300));
    assert_eq!(world.clock, 400_000_000);
}

#[test]
fn oversized_replies_are_skipped() {
    let mutator = ExternalProcessMutator::new(Vec::new(), Vec::new(), Ok(1)).unwrap();
    let reply = vec![b"abcd".to_vec()];
    let mut input = BytesInput::new(b"b".to_vec());
    assert_eq!(
        mutator.mutate(&mut input, Ok(Some(reply.clone())), 3),
        Ok(MutationResult::Skipped)
    );
    assert_eq!(input.mutator_bytes(), b"b");
    assert_eq!(
        mutator.mutate(&mut input, Ok(Some(reply)), 4),
        Ok(MutationResult::Mutated)
    );
    assert_eq!(input.mutator_bytes(), b"abcd");

    let mut input = multipart(&[("a", "x")]);
    let keys = string_keys(&input);
    let reply = vec![b"\"a\"".to_vec(), b"abcd".to_vec()];
    assert_eq!(
        mutator.mutate_multipart(&mut input, &keys, Ok(Some(reply.clone())), 3),
        Ok(MutationResult::Skipped)
    );
    assert_eq!(parts(&input), owned(&[("a", "x")]));
    assert_eq!(
        mutator.mutate_multipart(&mut input, &keys, Ok(Some(reply)), 4),
        Ok(MutationResult::Mutated)
    );
    assert_eq!(parts(&input), owned(&[("a", "abcd")]));
    assert_eq!(
        mutator.mutate_multipart(&mut input, &keys, Err(Error::IllegalState), 4),
        Err(Error::IllegalState)
    );
}

#[test]
fn keys_are_sent_in_their_debug_form() {
    let input = multipart(&[("a", "x"), ("q\"\n", "")]);
    let keys = string_keys(&input);
    assert_eq!(keys, vec!["\"a\"".to_string(), "\"q\\\"\\n\"".to_string()]);
    assert_eq!(
        multipart_fields(&input, &keys),
        vec![
            b"\"a\"".to_vec(),
            b"x".to_vec(),
            b"\"q\\\"\\n\"".to_vec(),
            Vec::new(),
        ]
    );
}

#[test]
fn new_parts_are_described_by_the_reply() {
    let mutator = ExternalProcessMutator::new(Vec::new(), Vec::new(), Ok(1)).unwrap();
    let mut input = multipart(&[("a", "x"), ("b", "y"), ("a", "z")]);
    let keys = string_keys(&input);
    let reply = vec![
        b"\"b\"".to_vec(),
        b"".to_vec(),
        b"\"a\"".to_vec(),
        b"new".to_vec(),
    ];
    assert_eq!(
        mutator.mutate_multipart(&mut input, &keys, Ok(Some(reply.clone())), MAX_SIZE),
        Ok(MutationResult::Mutated)
    );
    assert_eq!(input.len(), 2);
    assert_eq!(multipart_fields(&input, &string_keys(&input)), reply);
}
