use rcore_os::boot::{clear_bss, range_line, rust_main, SectionLayout};
use rcore_os::text::{push_dec, push_hex};
use rcore_os::console::{level_enabled, level_filter_of, print, str_equal, LevelFilter, LogLevel, Logger};
use rcore_os::panic_trace::{slap, slip, Frame};
use rcore_os::syscall::{sys_write, WriteAction};
use rcore_os::task::{TaskControlBlockInner, TaskStatus};
use rcore_os::timer::{get_time_ms, get_time_us, set_next_trigger, sleep_deadline, still_sleeping};
use rcore_os::trap::{complete_syscall, trap_cause, trap_handler, trap_report, TrapAction, TrapCause, TrapContext};

#[test]
fn log_setting_selects_the_filter() {
    assert_eq!(level_filter_of(Some("SILENT")), LevelFilter::Off);
    assert_eq!(level_filter_of(Some("ERROR")), LevelFilter::Error);
    assert_eq!(level_filter_of(Some("WARN")), LevelFilter::Warn);
    assert_eq!(level_filter_of(Some("INFO")), LevelFilter::Info);
    assert_eq!(level_filter_of(Some("DEBUG")), LevelFilter::Debug);
    assert_eq!(level_filter_of(Some("TRACE")), LevelFilter::Trace);
    assert_eq!(level_filter_of(Some("warn")), LevelFilter::Info);
    assert_eq!(level_filter_of(Some("")), LevelFilter::Info);
    assert_eq!(level_filter_of(None), LevelFilter::Info);
}

#[test]
fn str_equal_compares_characters() {
    assert!(str_equal("WARN", "WARN"));
    assert!(!str_equal("WARN", "WARNING"));
    assert!(!str_equal("WARN", "WARM"));
    assert!(str_equal("", ""));
}

#[test]
fn a_filter_passes_its_level_and_the_more_severe_ones() {
    assert!(level_enabled(LogLevel::Warn, LevelFilter::Warn));
    assert!(level_enabled(LogLevel::Error, LevelFilter::Warn));
    assert!(!level_enabled(LogLevel::Info, LevelFilter::Warn));
    assert!(!level_enabled(LogLevel::Error, LevelFilter::Off));
    assert!(level_enabled(LogLevel::Trace, LevelFilter::Trace));
}

#[test]
fn logger_renders_coloured_lines() {
    let logger = Logger::new(None);
    assert_eq!(logger.log(LogLevel::Error, "boom"), Some("\x1b[31m[ERROR][0] boom\x1b[0m".to_string()));
    assert_eq!(logger.log(LogLevel::Warn, "w"), Some("\x1b[93m[WARN][0] w\x1b[0m".to_string()));
    assert_eq!(logger.log(LogLevel::Info, "hi"), Some("\x1b[34m[INFO][0] hi\x1b[0m".to_string()));
    assert_eq!(logger.log(LogLevel::Debug, "d"), None);
    assert_eq!(logger.log(LogLevel::Trace, "t"), None);
    let verbose = Logger::new(Some("TRACE"));
    assert!(verbose.enabled(LogLevel::Trace));
    assert_eq!(verbose.log(LogLevel::Debug, "d"), Some("\x1b[32m[DEBUG][0] d\x1b[0m".to_string()));
    assert_eq!(verbose.log(LogLevel::Trace, "t"), Some("\x1b[90m[TRACE][0] t\x1b[0m".to_string()));
    let silent = Logger::new(Some("SILENT"));
    assert_eq!(silent.log(LogLevel::Error, "boom"), None);
}

#[test]
fn print_hands_out_character_codes() {
    assert_eq!(print("Hi\n"), vec![72, 105, 10]);
    assert_eq!(print("é"), vec![0xe9]);
    assert_eq!(print(""), Vec::<usize>::new());
}

#[test]
fn hex_text_has_no_leading_zeros() {
    let mut s = String::from("a=");
    push_hex(&mut s, 0);
    assert_eq!(s, "a=0x0");
    let mut s = String::new();
    push_hex(&mut s, 0x8020_0000);
    assert_eq!(s, "0x80200000");
    let mut s = String::new();
    push_hex(&mut s, usize::MAX);
    assert_eq!(s, "0xffffffffffffffff");
    assert_eq!(range_line(".bss ", 15, 16), ".bss [0xf, 0x10)");
}

#[test]
fn boot_report_lists_the_sections() {
    let layout = SectionLayout {
        stext: 0x8020_0000,
        etext: 0x8020_2000,
        srodata: 0x8020_3000,
        erodata: 0x8020_4000,
        sdata: 0x8020_4000,
        edata: 0x8020_5000,
        sstack: 0x8020_5000,
        estack: 0x8021_5000,
        sbss: 0x8021_5000,
        ebss: 0x8021_6000,
    };
    // Memory from 0x80214ff8: eight bytes before .bss, .bss, eight bytes after.
    let mut mem = vec![0xaau8; 8 + 0x1000 + 8];
    let boot = rust_main(&layout, &mut mem, 0x8021_4ff8);
    assert!(mem[..8].iter().all(|b| *b == 0xaa));
    assert!(mem[8..8 + 0x1000].iter().all(|b| *b == 0));
    assert!(mem[8 + 0x1000..].iter().all(|b| *b == 0xaa));
    assert_eq!(boot.shutdown, "Shutdown machine!");
    let lines = boot.records;
    let expected: Vec<(LogLevel, &str)> = vec![
        (LogLevel::Info, ".text, [0x80200000, 0x80202000)"),
        (LogLevel::Info, ".data [0x80204000, 0x80205000)"),
        (LogLevel::Info, ".bss [0x80215000, 0x80216000)"),
        (LogLevel::Info, ".rodata [0x80203000, 0x80204000)"),
        (LogLevel::Debug, "boot_stack [0x80205000, 0x80215000)"),
        (LogLevel::Info, "Hello, World!"),
        (LogLevel::Warn, "Hello, World!"),
        (LogLevel::Error, "Hello, World!"),
        (LogLevel::Trace, "Hello, World!"),
    ];
    assert_eq!(lines.len(), expected.len());
    for (got, want) in lines.iter().zip(expected.iter()) {
        assert_eq!(got.0, want.0);
        assert_eq!(got.1, want.1);
    }
}

#[test]
fn clear_bss_zeroes_only_the_bss() {
    let mut mem = vec![7u8; 16];
    clear_bss(&mut mem, 0x1000, 0x1004, 0x100a);
    assert_eq!(mem, vec![7, 7, 7, 7, 0, 0, 0, 0, 0, 0, 7, 7, 7, 7, 7, 7]);
    let mut mem = vec![7u8; 4];
    clear_bss(&mut mem, 0, 2, 2);
    assert_eq!(mem, vec![7, 7, 7, 7]);
    // An empty or reversed section writes nothing, wherever it lies.
    clear_bss(&mut mem, 0, 100, 50);
    assert_eq!(mem, vec![7, 7, 7, 7]);
}

#[test]
fn app_context_starts_in_user_mode() {
    let cx = TrapContext::app_init_context(0x1_0000, 0x8000, 0x122);
    assert_eq!(cx.sepc, 0x1_0000);
    assert_eq!(cx.sstatus, 0x22);
    assert_eq!(cx.x[2], 0x8000);
    for i in 0..32 {
        if i != 2 {
            assert_eq!(cx.x[i], 0);
        }
    }
    // Bits outside the register's mask are dropped.
    let cx = TrapContext::app_init_context(0, 0, 0x123);
    assert_eq!(cx.sstatus, 0x22);
}

#[test]
fn set_sp_writes_x2() {
    let mut cx = TrapContext::app_init_context(0, 1, 0);
    cx.set_sp(0xabc);
    assert_eq!(cx.x[2], 0xabc);
    assert_eq!(cx.x[1], 0);
}

#[test]
fn scause_values_decode_to_causes() {
    let top = 1usize << 63;
    assert_eq!(trap_cause(8), TrapCause::UserEnvCall);
    assert_eq!(trap_cause(top | 5), TrapCause::SupervisorTimer);
    assert_eq!(trap_cause(7), TrapCause::StoreFault);
    assert_eq!(trap_cause(15), TrapCause::StorePageFault);
    assert_eq!(trap_cause(2), TrapCause::IllegalInstruction);
    assert_eq!(trap_cause(13), TrapCause::Other { interrupt: false, code: 13 });
    assert_eq!(trap_cause(10), TrapCause::Other { interrupt: false, code: 10 });
    assert_eq!(trap_cause(top | 9), TrapCause::Other { interrupt: true, code: 9 });
    assert_eq!(trap_cause(top | 8), TrapCause::Other { interrupt: true, code: 8 });
}

#[test]
fn a_system_call_resumes_after_ecall() {
    let mut cx = TrapContext::app_init_context(0x100, 0x8000, 0);
    cx.x[17] = 64;
    cx.x[10] = 1;
    cx.x[11] = 0x2000;
    cx.x[12] = 5;
    let action = trap_handler(&mut cx, TrapCause::UserEnvCall, 0);
    assert_eq!(action, TrapAction::Syscall { id: 64, a0: 1, a1: 0x2000, a2: 5 });
    assert_eq!(cx.sepc, 0x104);
    complete_syscall(&mut cx, 5);
    assert_eq!(cx.x[10], 5);
    complete_syscall(&mut cx, -1);
    assert_eq!(cx.x[10], usize::MAX);
}

#[test]
fn other_traps_leave_the_context_alone() {
    let mut cx = TrapContext::app_init_context(0x100, 0x8000, 0);
    assert_eq!(trap_handler(&mut cx, TrapCause::SupervisorTimer, 0), TrapAction::Preempt);
    assert_eq!(trap_handler(&mut cx, TrapCause::StoreFault, 0), TrapAction::KillPageFault);
    assert_eq!(trap_handler(&mut cx, TrapCause::StorePageFault, 0), TrapAction::KillPageFault);
    assert_eq!(
        trap_handler(&mut cx, TrapCause::IllegalInstruction, 0),
        TrapAction::KillIllegalInstruction
    );
    let odd = TrapCause::Other { interrupt: false, code: 13 };
    assert_eq!(
        trap_handler(&mut cx, odd, 0xdead),
        TrapAction::Unsupported { cause: odd, stval: 0xdead }
    );
    assert_eq!(cx.sepc, 0x100);
}

#[test]
fn timer_converts_ticks() {
    // One microsecond is taken as 12 ticks (integer division of the frequency).
    assert_eq!(get_time_us(12_500_000), 1_041_666);
    assert_eq!(get_time_us(12), 1);
    assert_eq!(get_time_us(25), 2);
    assert_eq!(get_time_ms(12_500_000), 1000);
    assert_eq!(get_time_ms(12_499), 0);
    assert_eq!(set_next_trigger(0), 125_000);
    assert_eq!(set_next_trigger(1_000), 126_000);
}

#[test]
fn write_goes_to_stdout_only() {
    let buffers = vec![b"hel".to_vec(), "lo \u{e9}".as_bytes().to_vec()];
    match sys_write(1, &buffers, 7) {
        WriteAction::Print { text, ret } => {
            assert_eq!(text, "hello \u{e9}");
            assert_eq!(ret, 7);
        },
        _ => panic!("expected Print"),
    }
    match sys_write(2, &buffers, 7) {
        WriteAction::Reject { message, ret } => {
            assert_eq!(message, "[kernel] Unsupported fd in sys_write!");
            assert_eq!(ret, -1);
        },
        _ => panic!("expected Reject"),
    }
    assert!(matches!(sys_write(0, &buffers, 7), WriteAction::Reject { .. }));
    // A two-byte character split across two pages is still written.
    let split = vec![b"ok".to_vec(), vec![0x61, 0xc3], vec![0xa9]];
    match sys_write(1, &split, 5) {
        WriteAction::Print { text, ret } => {
            assert_eq!(text, "oka\u{e9}");
            assert_eq!(ret, 5);
        },
        _ => panic!("expected Print"),
    }
    // Bytes that are not UTF-8 stop the kernel.
    let bad = vec![b"ok".to_vec(), vec![0xc3], vec![0x28]];
    assert!(matches!(sys_write(1, &bad, 4), WriteAction::InvalidUtf8));
    assert!(matches!(sys_write(1, &vec![vec![0xff]], 1), WriteAction::InvalidUtf8));
    match sys_write(1, &Vec::new(), 0) {
        WriteAction::Print { text, ret } => {
            assert!(text.is_empty());
            assert_eq!(ret, 0);
        },
        _ => panic!("expected Print"),
    }
}

#[test]
fn a_new_thread_is_ready() {
    let inner = TaskControlBlockInner::new(0x8_0000);
    assert_eq!(inner.get_status(), TaskStatus::Ready);
    assert_eq!(inner.exit_code, None);
    let running = TaskControlBlockInner { trap_cx_ppn: 1, task_status: TaskStatus::Running, exit_code: None };
    assert_eq!(running.get_status(), TaskStatus::Running);
}

#[test]
fn slip_chain_halves_down_to_the_panic() {
    let unwind = slip(50);
    assert_eq!(unwind.message, "ahh");
    assert_eq!(
        unwind.frames,
        vec![
            Frame::Slip(50),
            Frame::Slip(25),
            Frame::Slap(12),
            Frame::Slap(6),
            Frame::Slip(3),
            Frame::Slip(1),
            Frame::Slap(0)
        ]
    );
    assert_eq!(slip(0).frames, vec![Frame::Slip(0)]);
    assert_eq!(slap(0).frames, vec![Frame::Slap(0)]);
    assert_eq!(slap(0).message, "ahh");
    assert_eq!(slap(2).frames, vec![Frame::Slap(2), Frame::Slip(1), Frame::Slap(0)]);
    let long = slip(i16::MAX).frames;
    assert_eq!(long.len(), 16);
    assert_eq!(*long.last().unwrap(), Frame::Slap(0));
}

#[test]
fn trap_reports_name_the_fault() {
    assert_eq!(
        trap_report(&TrapAction::KillPageFault),
        Some("[kernel] PageFault in application, kernel killed it.".to_string())
    );
    assert_eq!(
        trap_report(&TrapAction::KillIllegalInstruction),
        Some("[kernel] IllegalInstruction in application, kernel killed it.".to_string())
    );
    let load_page_fault = trap_cause(13);
    assert_eq!(
        trap_report(&TrapAction::Unsupported { cause: load_page_fault, stval: 0x8040_0000 }),
        Some("Unsupported trap Exception(13), stval = 0x80400000!".to_string())
    );
    let external = trap_cause((1usize << 63) | 9);
    assert_eq!(
        trap_report(&TrapAction::Unsupported { cause: external, stval: 0 }),
        Some("Unsupported trap Interrupt(9), stval = 0x0!".to_string())
    );
    assert_eq!(trap_report(&TrapAction::Preempt), None);
    assert_eq!(trap_report(&TrapAction::Syscall { id: 64, a0: 1, a1: 2, a2: 3 }), None);
}

#[test]
fn sleep_waits_thirty_seconds() {
    let wait_for = sleep_deadline(1_000);
    assert_eq!(wait_for, 31_000);
    assert!(still_sleeping(30_999, wait_for));
    assert!(!still_sleeping(31_000, wait_for));
}

#[test]
fn decimal_text_has_no_leading_zeros() {
    let mut s = String::new();
    push_dec(&mut s, 0);
    assert_eq!(s, "0");
    let mut s = String::from("n=");
    push_dec(&mut s, 1090);
    assert_eq!(s, "n=1090");
    let mut s = String::new();
    push_dec(&mut s, usize::MAX);
    assert_eq!(s, usize::MAX.to_string());
}
