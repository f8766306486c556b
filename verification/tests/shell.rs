use csp_shell::command::{commands, execute, resolve, Effect, Execute};
use csp_shell::command::exit::ExitCommand;
use csp_shell::command::help::HelpCommand;
use csp_shell::command::ifc::{render_report, IfcCommand};
use csp_shell::command::ping::PingCommand;
use csp_shell::command::sleep::SleepCommand;
use csp_shell::network::interface::{interfaces, InterfaceState};
use csp_shell::shell::{process_line, LineOutcome};
use csp_shell::text::{fmt_u32, fmt_u32_pad5, parse_u64, str_eq, to_lowercase, tokenize, NumeralError};

fn args(xs: &[&str]) -> Vec<String> {
    xs.iter().map(|s| s.to_string()).collect()
}

#[test]
fn resolve_is_case_insensitive() {
    let a = resolve("PING").expect("upper-case name must resolve");
    let b = resolve("ping").expect("lower-case name must resolve");
    assert_eq!(a.name, "ping");
    assert_eq!(b.name, "ping");
    assert_eq!(a.argc, 1);
    let c = resolve("PiNg").expect("mixed-case name must resolve");
    assert_eq!(c.name, "ping");
}

#[test]
fn resolve_unknown_name() {
    assert!(resolve("frobnicate").is_none());
    assert!(resolve("").is_none());
}

#[test]
fn commands_table_is_fixed() {
    let cmds = commands();
    let names: Vec<&str> = cmds.iter().map(|c| c.name).collect();
    assert_eq!(names, vec!["ping", "ifc", "help", "sleep", "exit"]);
    let argcs: Vec<usize> = cmds.iter().map(|c| c.argc).collect();
    assert_eq!(argcs, vec![1, 0, 0, 1, 0]);
    assert_eq!(cmds[0].syntax, "ping <node> [timeout] [size] [opt]");
    assert_eq!(cmds[3].syntax, "sleep <time>");
}

#[test]
fn sleep_parses_and_reports_duration() {
    let mut st = interfaces();
    let r = SleepCommand.execute(&mut st, &args(&["100"]));
    match r {
        Ok(out) => {
            assert!(out.text.is_none());
            assert_eq!(out.effect, Effect::SleepMs(100));
        }
        Err(e) => panic!("sleep 100 must succeed, got {}", e),
    }
}

#[test]
fn sleep_rejects_non_numeric() {
    let mut st = interfaces();
    let r = SleepCommand.execute(&mut st, &args(&["abc"]));
    match r {
        Ok(_) => panic!("sleep abc must fail"),
        Err(e) => assert_eq!(e, "abc".parse::<u64>().unwrap_err().to_string()),
    }
}

#[test]
fn sleep_error_texts_match_integer_parsing() {
    let mut st = interfaces();
    for bad in ["", "+", "-1", "12a", "18446744073709551616"] {
        let got = match SleepCommand.execute(&mut st, &args(&[bad])) {
            Ok(_) => panic!("sleep {:?} must fail", bad),
            Err(e) => e,
        };
        assert_eq!(got, bad.parse::<u64>().unwrap_err().to_string(), "input {:?}", bad);
    }
}

#[test]
fn sleep_accepts_plus_sign() {
    let mut st = interfaces();
    let r = SleepCommand.execute(&mut st, &args(&["+100"]));
    match r {
        Ok(out) => assert_eq!(out.effect, Effect::SleepMs(100)),
        Err(e) => panic!("sleep +100 must succeed, got {}", e),
    }
}

#[test]
fn ifc_empty_registry_empty_report() {
    let mut st = InterfaceState { interfaces: Vec::new() };
    let r = IfcCommand.execute(&mut st, &args(&[]));
    match r {
        Ok(out) => {
            assert_eq!(out.effect, Effect::Nothing);
            assert_eq!(out.text.expect("ifc reports text"), "");
        }
        Err(e) => panic!("ifc must not fail, got {}", e),
    }
}

#[test]
fn ifc_is_read_only_and_idempotent() {
    let mut st = interfaces();
    let first = IfcCommand.execute(&mut st, &args(&[])).unwrap().text.unwrap();
    let second = IfcCommand.execute(&mut st, &args(&[])).unwrap().text.unwrap();
    assert_eq!(first, second);
    for ifc in &st.interfaces {
        assert_eq!(ifc.tx, 0);
        assert_eq!(ifc.rx, 0);
        assert_eq!(ifc.tx_error, 0);
        assert_eq!(ifc.rx_error, 0);
        assert_eq!(ifc.tx_bytes, 0);
        assert_eq!(ifc.rx_bytes, 0);
    }
}

#[test]
fn render_report_exact_layout() {
    let st = interfaces();
    let styled = vec!["LOOP".to_string(), "ZMQPROXY".to_string()];
    let r = render_report(&st, &styled);
    let expected = "LOOP\n\ttx: 00000 rx: 00000 txe: 00000 rxe: 00000\n\ttxb: 0 rxb: 0 addr: 30/0\n\n\
                    ZMQPROXY\n\ttx: 00000 rx: 00000 txe: 00000 rxe: 00000\n\ttxb: 0 rxb: 0 addr: 10/0\n";
    assert_eq!(r, expected);
}

#[test]
fn help_one_line_per_command() {
    let mut st = interfaces();
    let r = HelpCommand.execute(&mut st, &args(&[])).unwrap();
    assert_eq!(r.effect, Effect::Nothing);
    let text = r.text.expect("help reports text");
    let expected = "  ping\t\tcsp: Ping\n  ifc\t\tcsp: Show interface\n  help\t\tshell: Show help\n  sleep\t\tshell: Sleep X ms\n  exit\t\tshell: Exit program";
    assert_eq!(text, expected);
    let lines: Vec<&str> = text.split('\n').collect();
    let cmds = commands();
    assert_eq!(lines.len(), cmds.len());
    for (line, cmd) in lines.iter().zip(cmds.iter()) {
        assert!(line.contains(cmd.name), "line {:?} lacks name {}", line, cmd.name);
        assert!(line.contains(cmd.description), "line {:?} lacks description", line);
    }
}

#[test]
fn ping_unknown_interface() {
    let mut st = interfaces();
    let r = PingCommand.execute(&mut st, &args(&["NOPE"]));
    match r {
        Ok(_) => panic!("ping of an unregistered node must fail"),
        Err(e) => assert_eq!(e, "no such interface"),
    }
}

#[test]
fn ping_loopback_not_implemented() {
    let mut st = interfaces();
    let r = PingCommand.execute(&mut st, &args(&["LOOP"]));
    match r {
        Ok(_) => panic!("the loopback transmit placeholder must fail loudly"),
        Err(e) => assert_eq!(e, "not implemented"),
    }
}

#[test]
fn exit_requests_termination() {
    let mut st = interfaces();
    let r = ExitCommand.execute(&mut st, &args(&[])).unwrap();
    assert!(r.text.is_none());
    assert_eq!(r.effect, Effect::Terminate);
}

#[test]
fn dispatcher_execute_routes_to_handler() {
    let cmds = commands();
    let mut st = interfaces();
    let r = execute(&cmds[4], &mut st, &args(&[])).unwrap();
    assert_eq!(r.effect, Effect::Terminate);
}

#[test]
fn registry_default_set() {
    let a = interfaces();
    let b = interfaces();
    assert_eq!(a.interfaces.len(), 2);
    assert_eq!(a.interfaces[0].name, "LOOP");
    assert_eq!(a.interfaces[0].addr, 30);
    assert_eq!(a.interfaces[0].netmask, 0);
    assert_eq!(a.interfaces[1].name, "ZMQPROXY");
    assert_eq!(a.interfaces[1].addr, 10);
    assert_ne!(a.interfaces[0].name, a.interfaces[1].name);
    for (x, y) in a.interfaces.iter().zip(b.interfaces.iter()) {
        assert_eq!(x.name, y.name);
        assert_eq!(x.addr, y.addr);
        assert_eq!(x.netmask, y.netmask);
        assert_eq!(x.tx, y.tx);
    }
}

#[test]
fn unknown_command_leaves_counters_unchanged() {
    let mut st = interfaces();
    let r = process_line(&mut st, "frobnicate");
    match r {
        LineOutcome::Unknown { notice } => {
            assert_eq!(notice, "Unknown command 'frobnicate'");
        }
        _ => panic!("an unresolved name must yield the unknown-command notice"),
    }
    assert_eq!(st.interfaces.len(), 2);
    for ifc in &st.interfaces {
        assert_eq!(ifc.tx, 0);
        assert_eq!(ifc.rx, 0);
        assert_eq!(ifc.tx_error, 0);
        assert_eq!(ifc.rx_error, 0);
    }
}

#[test]
fn empty_input_does_nothing() {
    let mut st = interfaces();
    match process_line(&mut st, "") {
        LineOutcome::Empty => {}
        _ => panic!("empty input must be ignored"),
    }
    match process_line(&mut st, "   \t ") {
        LineOutcome::Empty => {}
        _ => panic!("blank input must be ignored"),
    }
}

#[test]
fn usage_on_missing_arguments() {
    let mut st = interfaces();
    match process_line(&mut st, "sleep") {
        LineOutcome::Usage { usage, notice } => {
            assert_eq!(usage, "usage: sleep <time>");
            assert_eq!(notice, "Could not execute command 'sleep'");
        }
        _ => panic!("sleep without arguments must yield the usage message"),
    }
}

#[test]
fn process_line_dispatches_sleep() {
    let mut st = interfaces();
    match process_line(&mut st, "sleep 50") {
        LineOutcome::Done { text, effect } => {
            assert!(text.is_none());
            assert_eq!(effect, Effect::SleepMs(50));
        }
        _ => panic!("sleep 50 must dispatch"),
    }
}

#[test]
fn process_line_is_case_insensitive() {
    let mut st = interfaces();
    match process_line(&mut st, "EXIT") {
        LineOutcome::Done { text, effect } => {
            assert!(text.is_none());
            assert_eq!(effect, Effect::Terminate);
        }
        _ => panic!("EXIT must dispatch to exit"),
    }
}

#[test]
fn process_line_reports_handler_errors() {
    let mut st = interfaces();
    match process_line(&mut st, "ping LOOP") {
        LineOutcome::Failed { message } => assert_eq!(message, "not implemented"),
        _ => panic!("ping LOOP must report the placeholder error"),
    }
}

#[test]
fn tokenize_splits_on_whitespace() {
    assert_eq!(tokenize("  a  bc "), vec!["a".to_string(), "bc".to_string()]);
    assert_eq!(tokenize("one"), vec!["one".to_string()]);
    assert_eq!(tokenize("\t\r\n "), Vec::<String>::new());
    assert_eq!(
        tokenize("ping LOOP 100"),
        vec!["ping".to_string(), "LOOP".to_string(), "100".to_string()]
    );
}

#[test]
fn parse_u64_matches_integer_parsing() {
    assert_eq!(parse_u64("0"), Ok(0));
    assert_eq!(parse_u64("100"), Ok(100));
    assert_eq!(parse_u64("+7"), Ok(7));
    assert_eq!(parse_u64("18446744073709551615"), Ok(u64::MAX));
    assert_eq!(parse_u64("18446744073709551616"), Err(NumeralError::TooLarge));
    assert_eq!(parse_u64(""), Err(NumeralError::Empty));
    assert_eq!(parse_u64("+"), Err(NumeralError::InvalidDigit));
    assert_eq!(parse_u64("1x2"), Err(NumeralError::InvalidDigit));
    assert_eq!(parse_u64("-1"), Err(NumeralError::InvalidDigit));
    assert_eq!(parse_u64("++1"), Err(NumeralError::InvalidDigit));
    // the overflow is seen while digits are still being read, before a
    // later invalid character, as the platform's parser reports it
    assert_eq!(parse_u64("99999999999999999999x"), Err(NumeralError::TooLarge));
    for s in ["0", "42", "+9", "", "+", "-3", "1x", "18446744073709551616"] {
        assert_eq!(parse_u64(s).is_ok(), s.parse::<u64>().is_ok(), "input {:?}", s);
    }
}

#[test]
fn decimal_rendering() {
    assert_eq!(fmt_u32(0), "0");
    assert_eq!(fmt_u32(4294967295), "4294967295");
    assert_eq!(fmt_u32_pad5(42), "00042");
    assert_eq!(fmt_u32_pad5(0), "00000");
    assert_eq!(fmt_u32_pad5(123456), "123456");
}

#[test]
fn ascii_lowercasing() {
    assert_eq!(to_lowercase("PING"), "ping");
    assert_eq!(to_lowercase("PiNg9!"), "ping9!");
    assert!(str_eq("abc", "abc"));
    assert!(!str_eq("abc", "abd"));
    assert!(!str_eq("abc", "ab"));
}
