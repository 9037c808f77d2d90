use rbspy::frame::StackFrame;
use rbspy::memory_error::MemoryCopyError;
use rbspy::output_file::{open_failure, ownership_failure, sudo_owner, OpenPlan};
use rbspy::output_format::{OutputFormat, Outputter};
use rbspy::scanner_cache::{CachedFrameInfo, StackScannerCache, MAX_ENTRIES_PER_CACHE};
use rbspy::text::{append_numeral, chars_of, compare_text, lowercases_to, parse_u32};
use rbspy::trace::{Header, StackTrace};
use std::cmp::Ordering;
use std::str::FromStr;

const FORMATS: [OutputFormat; 7] = [
    OutputFormat::flamegraph,
    OutputFormat::collapsed,
    OutputFormat::callgrind,
    OutputFormat::speedscope,
    OutputFormat::pprof,
    OutputFormat::summary,
    OutputFormat::summary_by_line,
];

fn frame(name: &str, relative: &str, absolute: Option<&str>, lineno: Option<usize>) -> StackFrame {
    StackFrame {
        name: name.to_string(),
        relative_path: relative.to_string(),
        absolute_path: absolute.map(|path| path.to_string()),
        lineno,
    }
}

#[test]
fn path_prefers_the_absolute_one() {
    assert_eq!(frame("f", "f.rb", None, None).path(), "f.rb");
    assert_eq!(frame("f", "f.rb", Some("/a/f.rb"), None).path(), "/a/f.rb");
}

#[test]
fn unknown_c_function_has_its_frame() {
    let unknown = StackFrame::unknown_c_function();
    assert_eq!(
        unknown,
        frame("(unknown) [c function]", "(unknown)", None, None)
    );
    assert_eq!(unknown.to_string(), "(unknown) [c function] - (unknown)");
}

#[test]
fn frames_have_a_text() {
    assert_eq!(frame("f", "f.rb", None, Some(0)).to_string(), "f - f.rb:0");
    assert_eq!(
        frame("f", "f.rb", Some("/a/f.rb"), Some(1230)).to_string(),
        "f - /a/f.rb:1230"
    );
    assert_eq!(
        frame("f", "f.rb", None, Some(usize::MAX)).to_string(),
        format!("f - f.rb:{}", usize::MAX)
    );
}

#[test]
fn frames_are_ordered_by_path_name_and_line() {
    let base = frame("f", "b.rb", None, Some(5));
    assert_eq!(base.cmp(&base.clone()), Ordering::Equal);
    assert_eq!(base.cmp(&frame("a", "c.rb", None, None)), Ordering::Less);
    assert_eq!(base.cmp(&frame("z", "a.rb", None, Some(9))), Ordering::Greater);
    assert_eq!(base.cmp(&frame("g", "b.rb", None, Some(1))), Ordering::Less);
    assert_eq!(base.cmp(&frame("f", "b.rb", None, Some(6))), Ordering::Less);
    assert_eq!(base.cmp(&frame("f", "b.rb", None, None)), Ordering::Greater);
    assert_eq!(
        base.partial_cmp(&frame("f", "b.rb", None, Some(4))),
        Some(Ordering::Greater)
    );
    assert!(frame("f", "b.rb", None, None) < base);
}

#[test]
fn frames_may_be_equal_in_order_and_differ() {
    let a = frame("f", "a.rb", Some("/f.rb"), None);
    let b = frame("f", "b.rb", Some("/f.rb"), None);
    assert_eq!(a.cmp(&b), Ordering::Equal);
    assert_ne!(a, b);
}

#[test]
fn order_of_frames_is_transitive_and_reverses() {
    let mut frames: Vec<StackFrame> = Vec::new();
    for path in ["", "a.rb", "a.rbx", "\u{e9}.rb"] {
        for name in ["", "f", "g"] {
            for lineno in [None, Some(0), Some(7)] {
                frames.push(frame(name, path, None, lineno));
            }
        }
    }
    for (i, a) in frames.iter().enumerate() {
        for (j, b) in frames.iter().enumerate() {
            assert_eq!(a.cmp(b), i.cmp(&j));
            assert_eq!(a.cmp(b), b.cmp(a).reverse());
        }
    }
}

#[test]
fn strings_are_ordered_as_their_bytes() {
    let strings = ["", "a", "ab", "b", "B", "\u{e9}", "\u{20ac}", "\u{1f600}", "a\u{ffff}"];
    for a in strings {
        for b in strings {
            assert_eq!(compare_text(a, b), a.cmp(b));
        }
    }
}

#[test]
fn empty_trace_has_nothing() {
    let trace = StackTrace::new_empty();
    assert!(trace.trace.is_empty());
    assert_eq!(trace.pid, None);
    assert_eq!(trace.thread_id, None);
    assert_eq!(trace.time, None);
    assert_eq!(trace.on_cpu, None);
    assert_eq!(trace.to_string(), "");
    assert_eq!(trace, StackTrace::from_frames(Vec::new()));
}

#[test]
fn traces_have_a_text() {
    let first = frame("f", "f.rb", None, Some(1));
    let second = frame("g", "g.rb", None, None);
    let third = frame("h", "h.rb", Some("/h.rb"), Some(30));
    let one = StackTrace::from_frames(vec![first.clone()]);
    assert_eq!(one.to_string(), "f - f.rb:1");
    let trace = StackTrace::from_frames(vec![first.clone(), second.clone(), third]);
    assert_eq!(trace.to_string(), "h - /h.rb:30\ng - g.rb\nf - f.rb:1");
    assert_eq!(trace.iter().count(), 3);
    assert_eq!(trace.iter().next(), Some(&first));
    assert_eq!(trace.iter().nth(1), Some(&second));
}

#[test]
fn headers_hold_what_they_are_given() {
    let now = std::time::SystemTime::UNIX_EPOCH;
    let header = Header::recording(100, "0.1.0", now);
    assert_eq!(header.sample_rate, Some(100));
    assert_eq!(header.rbspy_version, Some("0.1.0".to_string()));
    assert_eq!(header.start_time, Some(now));
    let absent = Header::absent();
    assert_eq!(absent.sample_rate, None);
    assert_eq!(absent.rbspy_version, None);
    assert_eq!(absent.start_time, None);
}

fn info(name: &str, body_ptr: usize) -> CachedFrameInfo {
    CachedFrameInfo {
        name: name.to_string(),
        relative_path: "f.rb".to_string(),
        absolute_path: Some("/f.rb".to_string()),
        body_ptr,
    }
}

#[test]
fn new_cache_is_empty() {
    let cache = StackScannerCache::default();
    assert_eq!(cache.ec_pointer_slot(), None);
    assert_eq!(cache.cfunc_name(&(0, 0, 0)), None);
    assert_eq!(cache.classpath(&(0, 0)), None);
    assert!(cache.frame(&(0, 0, 0)).is_none());
}

#[test]
fn slot_is_set_and_cleared() {
    let mut cache = StackScannerCache::new();
    cache.set_ec_pointer_slot(0x1000);
    assert_eq!(cache.ec_pointer_slot(), Some(0x1000));
    cache.set_ec_pointer_slot(0x2000);
    assert_eq!(cache.ec_pointer_slot(), Some(0x2000));
    cache.clear_ec_pointer_slot();
    assert_eq!(cache.ec_pointer_slot(), None);
}

#[test]
fn caches_find_what_was_stored() {
    let mut cache = StackScannerCache::new();
    cache.store_cfunc_name((1, 2, 3), "first");
    cache.store_cfunc_name((1, 2, 4), "second");
    cache.store_cfunc_name((2, 2, 3), "third");
    cache.store_classpath((1, 2), "Klass", true);
    cache.store_frame((1, 2, 3), info("f", 9));
    assert_eq!(cache.cfunc_name(&(1, 2, 3)), Some("first".to_string()));
    assert_eq!(cache.cfunc_name(&(1, 2, 4)), Some("second".to_string()));
    assert_eq!(cache.cfunc_name(&(2, 2, 3)), Some("third".to_string()));
    assert_eq!(cache.cfunc_name(&(1, 3, 3)), None);
    assert_eq!(cache.classpath(&(1, 2)), Some(("Klass".to_string(), true)));
    assert_eq!(cache.classpath(&(2, 1)), None);
    let found = cache.frame(&(1, 2, 3)).unwrap();
    assert_eq!(found.name, "f");
    assert_eq!(found.relative_path, "f.rb");
    assert_eq!(found.absolute_path, Some("/f.rb".to_string()));
    assert_eq!(found.body_ptr, 9);
    assert!(cache.frame(&(3, 2, 1)).is_none());
}

#[test]
fn caches_overwrite_while_there_is_room() {
    let mut cache = StackScannerCache::new();
    cache.store_cfunc_name((1, 2, 3), "old");
    cache.store_cfunc_name((1, 2, 3), "new");
    assert_eq!(cache.cfunc_name(&(1, 2, 3)), Some("new".to_string()));
    cache.store_classpath((1, 2), "Old", false);
    cache.store_classpath((1, 2), "New", true);
    assert_eq!(cache.classpath(&(1, 2)), Some(("New".to_string(), true)));
    cache.store_frame((1, 2, 3), info("old", 1));
    cache.store_frame((1, 2, 3), info("new", 2));
    assert_eq!(cache.frame(&(1, 2, 3)).unwrap().body_ptr, 2);
}

#[test]
fn full_cache_takes_nothing() {
    let mut cache = StackScannerCache::new();
    for i in 0..MAX_ENTRIES_PER_CACHE {
        cache.store_cfunc_name((i, 0, 0), "f");
    }
    assert_eq!(MAX_ENTRIES_PER_CACHE, 100_000);
    assert_eq!(
        cache.cfunc_name(&(MAX_ENTRIES_PER_CACHE - 1, 0, 0)),
        Some("f".to_string())
    );
    cache.store_cfunc_name((MAX_ENTRIES_PER_CACHE, 0, 0), "late");
    assert_eq!(cache.cfunc_name(&(MAX_ENTRIES_PER_CACHE, 0, 0)), None);
    cache.store_cfunc_name((0, 0, 0), "changed");
    assert_eq!(cache.cfunc_name(&(0, 0, 0)), Some("f".to_string()));
    cache.store_classpath((1, 2), "Klass", false);
    assert_eq!(cache.classpath(&(1, 2)), Some(("Klass".to_string(), false)));
}

#[test]
fn os_errors_are_judged() {
    let denied = MemoryCopyError::from_os_error(
        1,
        true,
        Some(14),
        std::io::Error::from_raw_os_error(14),
    );
    assert!(matches!(denied, MemoryCopyError::PermissionDenied));
    let succeeded =
        MemoryCopyError::from_os_error(1, false, Some(0), std::io::Error::from_raw_os_error(0));
    assert!(matches!(succeeded, MemoryCopyError::OperationSucceeded));
    let invalid =
        MemoryCopyError::from_os_error(7, false, Some(14), std::io::Error::from_raw_os_error(14));
    assert!(matches!(invalid, MemoryCopyError::InvalidAddressError(7)));
    let other =
        MemoryCopyError::from_os_error(7, false, Some(5), std::io::Error::from_raw_os_error(5));
    assert!(matches!(other, MemoryCopyError::Io(7, error) if error.raw_os_error() == Some(5)));
    let unknown = MemoryCopyError::from_os_error(
        7,
        false,
        None,
        std::io::Error::from(std::io::ErrorKind::InvalidInput),
    );
    assert!(matches!(unknown, MemoryCopyError::Io(7, _)));
}

#[test]
fn failed_copies_are_judged_by_the_last_os_error() {
    let error = anyhow::Error::msg(0x1234usize);
    nix::errno::Errno::EFAULT.set();
    let invalid = MemoryCopyError::from(error);
    assert!(matches!(invalid, MemoryCopyError::InvalidAddressError(0x1234)));

    let error = anyhow::Error::msg("no address");
    nix::errno::Errno::EFAULT.set();
    let invalid = MemoryCopyError::from(error);
    assert!(matches!(invalid, MemoryCopyError::InvalidAddressError(0)));

    let error = anyhow::Error::msg(0x1234usize);
    nix::errno::Errno::EPERM.set();
    let denied = MemoryCopyError::from(error);
    assert!(matches!(denied, MemoryCopyError::PermissionDenied));

    let error = anyhow::Error::msg(0x1234usize);
    nix::errno::Errno::ESRCH.set();
    let other = MemoryCopyError::from(error);
    assert!(matches!(
        other,
        MemoryCopyError::Io(0x1234, error) if error.raw_os_error() == Some(3)
    ));
}

#[test]
fn memory_errors_have_messages() {
    assert_eq!(
        MemoryCopyError::OperationSucceeded.to_string(),
        "The operation completed successfully"
    );
    assert_eq!(
        MemoryCopyError::PermissionDenied.to_string(),
        "Permission denied when reading from process. If you're not running as root, try again with sudo. If you're using Docker, try passing `--cap-add=SYS_PTRACE` to `docker run`"
    );
    let error = std::io::Error::from_raw_os_error(5);
    assert_eq!(
        MemoryCopyError::Io(0xdeadbeef, error).to_string(),
        "Failed to copy memory address deadbeef"
    );
    assert_eq!(
        MemoryCopyError::ProcessEnded.to_string(),
        "Process isn't running"
    );
    assert_eq!(
        MemoryCopyError::Message("oops".to_string()).to_string(),
        "Copy error: oops"
    );
    assert_eq!(
        MemoryCopyError::InvalidAddressError(0).to_string(),
        "Tried to read invalid memory address 0"
    );
}

#[test]
fn formats_have_names_and_extensions() {
    let names = OutputFormat::possible_values();
    assert_eq!(
        names,
        [
            "flamegraph",
            "collapsed",
            "callgrind",
            "speedscope",
            "pprof",
            "summary",
            "summary-by-line"
        ]
    );
    let extensions: Vec<String> = FORMATS.iter().map(|format| format.extension()).collect();
    assert_eq!(
        extensions,
        [
            "flamegraph.svg",
            "collapsed.txt",
            "callgrind.txt",
            "speedscope.json",
            "profile.pb.gz",
            "summary.txt",
            "summary_by_line.txt"
        ]
    );
}

#[test]
fn formats_are_found_by_name_in_any_case() {
    for (format, name) in FORMATS.iter().zip(OutputFormat::possible_values()) {
        assert_eq!(OutputFormat::from_str(name), Ok(*format));
        assert_eq!(OutputFormat::from_str(&name.to_uppercase()), Ok(*format));
        assert_eq!(name.parse::<OutputFormat>(), Ok(*format));
    }
    for name in ["", "summary_by_line", "Flamegraphs", " summary", "\u{17f}ummary"] {
        let error = OutputFormat::from_str(name).unwrap_err();
        assert_eq!(error.name, name);
        assert_eq!(error.to_string(), format!("Unknown output format: {}", name));
        assert!(<OutputFormat as FromStr>::from_str(name).is_err());
    }
}

#[test]
fn formats_have_an_outputter() {
    assert_eq!(
        OutputFormat::flamegraph.outputter(0.1),
        Outputter::Flamegraph(0.1)
    );
    assert_eq!(OutputFormat::collapsed.outputter(0.1), Outputter::Collapsed);
    assert_eq!(OutputFormat::callgrind.outputter(0.1), Outputter::Callgrind);
    assert_eq!(OutputFormat::speedscope.outputter(0.1), Outputter::Speedscope);
    assert_eq!(OutputFormat::pprof.outputter(0.1), Outputter::Pprof);
    assert_eq!(OutputFormat::summary.outputter(0.1), Outputter::Summary);
    assert_eq!(
        OutputFormat::summary_by_line.outputter(0.1),
        Outputter::SummaryLine
    );
}

#[test]
fn output_files_are_opened_by_plan() {
    let plan = OpenPlan::new(true);
    assert!(plan.write && plan.create && plan.truncate && plan.no_follow);
    assert_eq!(plan.mode, 0o600);
    let plan = OpenPlan::new(false);
    assert!(plan.write && plan.create && plan.truncate && !plan.no_follow);
    assert_eq!(plan.mode, 0o600);
}

#[test]
fn output_file_failures_have_messages() {
    assert_eq!(
        open_failure("/tmp/out", true),
        "Refusing to write through the symlink /tmp/out while running as root. Please give the real path, or `-` for standard output."
    );
    assert_eq!(
        open_failure("/tmp/out", false),
        "Failed to create output file /tmp/out"
    );
    assert_eq!(
        ownership_failure("/tmp/out"),
        "Failed to change ownership of output file /tmp/out"
    );
}

#[test]
fn sudo_user_owns_the_output_file() {
    assert_eq!(
        sudo_owner(true, Some("1000"), Some("100")),
        Some((1000, 100))
    );
    assert_eq!(sudo_owner(false, Some("1000"), Some("100")), None);
    assert_eq!(sudo_owner(true, None, Some("100")), None);
    assert_eq!(sudo_owner(true, Some("1000"), None), None);
    assert_eq!(sudo_owner(true, Some("root"), Some("100")), None);
    assert_eq!(sudo_owner(true, Some("1000"), Some("-1")), None);
}

#[test]
fn numbers_are_read_as_std_reads_them() {
    for text in [
        "0", "7", "007", "+7", "4294967295", "4294967296", "99999999999999999999999", "", "+",
        "++7", "-0", " 7", "7 ", "1_000", "\u{0663}",
    ] {
        assert_eq!(parse_u32(text), text.parse::<u32>().ok());
    }
}

#[test]
fn numerals_read_back() {
    for n in [0u32, 9, 10, 12345, u32::MAX] {
        let mut text = String::new();
        append_numeral(&mut text, n as u64, 10);
        assert_eq!(text, n.to_string());
        assert_eq!(parse_u32(&text), Some(n));
        let mut text = "0x".to_string();
        append_numeral(&mut text, n as u64, 16);
        assert_eq!(text, format!("0x{:x}", n));
    }
}

#[test]
fn case_is_folded_for_ascii_alone() {
    assert!(lowercases_to("SumMary", "summary"));
    assert!(!lowercases_to("summary", "Summary"));
    assert!(!lowercases_to("\u{c9}", "\u{e9}"));
    assert!(!lowercases_to("summary", "summary-by-line"));
    assert_eq!(chars_of("a\u{e9}"), ['a', '\u{e9}']);
}
