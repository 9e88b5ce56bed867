use hotkeys::process::{
    extract_process_name, parse_pid_from_xprop, parse_ps_output, parse_window_class_from_xprop,
    parse_window_id_from_xprop, ProcessInfo,
};

#[test]
fn test_parse_window_id() {
    let input = "_NET_ACTIVE_WINDOW(WINDOW): window id # 0x1e00007";
    let result = parse_window_id_from_xprop(input).unwrap();
    assert_eq!(result, 0x1e00007);
}

#[test]
fn test_parse_pid() {
    let input = "_NET_WM_PID(CARDINAL) = 12345";
    let result = parse_pid_from_xprop(input).unwrap();
    assert_eq!(result, 12345);
}

#[test]
fn test_parse_window_class() {
    let input = r#"WM_CLASS(STRING) = "sublime_text", "Sublime_text""#;
    let result = parse_window_class_from_xprop(input).unwrap();
    assert_eq!(result, "Sublime_text");
}

#[test]
fn test_extract_process_name() {
    // Test full path
    assert_eq!(extract_process_name("/usr/bin/firefox"), "firefox");

    // Test simple command
    assert_eq!(extract_process_name("python3"), "python3");

    // Test command with arguments
    assert_eq!(extract_process_name("python3 script.py --arg"), "python3");

    // Test kernel thread
    assert_eq!(extract_process_name("[kthreadd]"), "kthreadd");

    // Test complex path with arguments
    assert_eq!(extract_process_name("/usr/lib/firefox/firefox --board /tmp"), "firefox");
}

#[test]
fn test_parse_ps_output() {
    let sample_output = r#"USER         PID %CPU %MEM    VSZ   RSS TTY      STAT START   TIME COMMAND
root           1  0.0  0.1 169804 11456 ?        Ss   Aug07   0:01 /sbin/init splash
root           2  0.0  0.0      0     0 ?        S    Aug07   0:00 [kthreadd]
user        1234  1.2  2.5 123456 98765 ?        Sl   10:30   0:05 /usr/bin/firefox
user        5678  0.1  0.8  45678 12345 pts/0    S+   11:00   0:00 python3 script.py"#;

    let result = parse_ps_output(sample_output).unwrap();
    assert_eq!(result.len(), 4);

    assert_eq!(result[0].pid, 1);
    assert_eq!(result[0].name, "init");

    assert_eq!(result[1].pid, 2);
    assert_eq!(result[1].name, "kthreadd");

    assert_eq!(result[2].pid, 1234);
    assert_eq!(result[2].name, "firefox");

    assert_eq!(result[3].pid, 5678);
    assert_eq!(result[3].name, "python3");
}

#[test]
fn test_parse_window_id_strips_repeated_prefix() {
    let input = "_NET_ACTIVE_WINDOW(WINDOW): window id # 0x0x1e";
    assert_eq!(parse_window_id_from_xprop(input), Ok(0x1e));
}

#[test]
fn test_parse_window_id_missing() {
    assert_eq!(
        parse_window_id_from_xprop("nothing relevant here"),
        Err("no active window id in output")
    );
}

#[test]
fn test_parse_window_id_invalid_hex() {
    assert_eq!(
        parse_window_id_from_xprop("_NET_ACTIVE_WINDOW(WINDOW): window id # zz"),
        Err("window id is not valid hexadecimal")
    );
}

#[test]
fn test_parse_pid_missing() {
    assert_eq!(parse_pid_from_xprop("no pid line"), Err("no process id in output"));
}

#[test]
fn test_parse_pid_invalid() {
    assert_eq!(
        parse_pid_from_xprop("_NET_WM_PID(CARDINAL) = abc"),
        Err("process id is not a valid number")
    );
}

#[test]
fn test_parse_window_class_missing() {
    assert_eq!(
        parse_window_class_from_xprop("nothing here"),
        Err("no window class in output")
    );
}

#[test]
fn test_process_info_with_window_info() {
    let info = ProcessInfo::new("firefox".to_string(), 1234);
    assert_eq!(info.window_id, None);
    assert_eq!(info.window_class, None);

    let info = info.with_window_info(0x1e00007, Some("Firefox".to_string()));
    assert_eq!(info.name, "firefox");
    assert_eq!(info.pid, 1234);
    assert_eq!(info.window_id, Some(0x1e00007));
    assert_eq!(info.window_class, Some("Firefox".to_string()));
}
