use neurond::engine::provider::ProviderError;
use neurond::json::Json;
use neurond::linux::procfs::{
    get_system_cpu, get_system_disk, get_system_info, get_system_memory, parse_kb, read_proc_file,
};

fn number(n: u64) -> Json {
    Json::Number(serde_json::Number::from(n))
}

fn text(s: &str) -> Json {
    Json::Str(s.to_string())
}

#[test]
fn test_parse_kb() {
    assert_eq!(parse_kb("MemTotal:       16275820 kB"), 16275820);
    assert_eq!(parse_kb("SwapFree:              0 kB"), 0);
}

#[test]
fn parse_kb_gives_zero_without_a_number() {
    assert_eq!(parse_kb(""), 0);
    assert_eq!(parse_kb("   "), 0);
    assert_eq!(parse_kb("MemTotal:"), 0);
    assert_eq!(parse_kb("MemTotal: many kB"), 0);
    assert_eq!(parse_kb("MemTotal: -5 kB"), 0);
    assert_eq!(parse_kb("MemTotal: 12x kB"), 0);
}

#[test]
fn parse_kb_reads_like_the_standard_parser() {
    assert_eq!(parse_kb("VmRSS:\t  +42 kB"), 42);
    assert_eq!(parse_kb("  x 007"), 7);
    assert_eq!(parse_kb("x 18446744073709551615"), u64::MAX);
    assert_eq!(parse_kb("x 18446744073709551616"), 0);
    assert_eq!(parse_kb("x 99999999999999999999999"), 0);
    assert_eq!(parse_kb("x +"), 0);
    assert_eq!(parse_kb("x\u{00A0}12"), 12);
    assert_eq!(parse_kb("x\u{3000}12\u{2003}kB"), 12);
}

#[test]
fn test_memory_returns_json() {
    let meminfo = "MemTotal:       16275820 kB\nMemFree:         1000000 kB\nMemAvailable:    8137910 kB\nSwapTotal:       2097148 kB\nSwapFree:        1048574 kB\n";
    let res = get_system_memory(Ok(meminfo.to_string())).unwrap();
    assert!(res.get("total_mb").is_some());
    assert!(res.get("used_mb").is_some());
    assert_eq!(res.get("total_mb"), Some(&number(15894)));
    assert_eq!(res.get("used_mb"), Some(&number(7947)));
    assert_eq!(res.get("available_mb"), Some(&number(7947)));
    assert_eq!(res.get("swap_total_mb"), Some(&number(2047)));
    assert_eq!(res.get("swap_used_mb"), Some(&number(1023)));
}

#[test]
fn memory_takes_the_last_line_of_a_label_and_never_goes_negative() {
    let meminfo = "MemTotal: 1024 kB\r\nMemAvailable: 4096 kB\nMemTotal: 2048 kB\nSwapFree: 7 kB";
    let res = get_system_memory(Ok(meminfo.to_string())).unwrap();
    assert_eq!(res.get("total_mb"), Some(&number(2)));
    assert_eq!(res.get("used_mb"), Some(&number(0)));
    assert_eq!(res.get("available_mb"), Some(&number(4)));
    assert_eq!(res.get("swap_total_mb"), Some(&number(0)));
    assert_eq!(res.get("swap_used_mb"), Some(&number(0)));

    let empty = get_system_memory(Ok(String::new())).unwrap();
    assert_eq!(empty.get("total_mb"), Some(&number(0)));
}

#[test]
fn a_file_that_cannot_be_read_is_an_execution_failure() {
    assert_eq!(
        get_system_memory(Err("permission denied".to_string())),
        Err(ProviderError::Execution(
            "Failed to read /proc/meminfo: permission denied".to_string()
        ))
    );
    assert_eq!(
        get_system_cpu(Err("gone".to_string())),
        Err(ProviderError::Execution("Failed to read /proc/stat: gone".to_string()))
    );
    assert_eq!(
        read_proc_file("/proc/x", Err("no".to_string())),
        Err(ProviderError::Execution("Failed to read /proc/x: no".to_string()))
    );
    assert_eq!(read_proc_file("/proc/x", Ok("yes".to_string())), Ok("yes".to_string()));
}

#[test]
fn the_cores_are_the_numbered_cpu_lines() {
    let stat = "cpu  1 2 3 4\ncpu0 1 2 3 4\ncpu1 1 2 3 4\nintr 5\ncpu\nctxt 9\n";
    let res = get_system_cpu(Ok(stat.to_string())).unwrap();
    assert_eq!(res, Json::Object(vec![("cores".to_string(), number(3))]));
    let none = get_system_cpu(Ok(String::new())).unwrap();
    assert_eq!(none.get("cores"), Some(&number(0)));
}

#[test]
fn the_system_report_names_host_kernel_and_architecture() {
    let version = "Linux version 6.8.0-45-generic (buildd@lcy02) (x86_64-linux-gnu-gcc 13.2.0) #45";
    let res = get_system_info(Ok(" node-7\n".to_string()), Ok(version.to_string())).unwrap();
    assert_eq!(
        res,
        Json::Object(vec![
            ("hostname".to_string(), text("node-7")),
            ("os".to_string(), text("linux")),
            ("kernel".to_string(), text("6.8.0-45-generic")),
            ("arch".to_string(), text("x86_64")),
        ])
    );

    let arm = get_system_info(Ok("pi".to_string()), Ok("Linux version 6.1 aarch64".to_string()))
        .unwrap();
    assert_eq!(arm.get("arch"), Some(&text("aarch64")));
    assert_eq!(arm.get("kernel"), Some(&text("6.1")));

    let unknown =
        get_system_info(Err("missing".to_string()), Err("missing".to_string())).unwrap();
    assert_eq!(unknown.get("hostname"), Some(&text("unknown")));
    assert_eq!(unknown.get("kernel"), Some(&text("unknown")));
    assert_eq!(unknown.get("arch"), Some(&text("unknown")));

    let short = get_system_info(Ok("\t \n".to_string()), Ok("Linux version".to_string())).unwrap();
    assert_eq!(short.get("hostname"), Some(&text("")));
    assert_eq!(short.get("kernel"), Some(&text("unknown")));
    let blank_field =
        get_system_info(Ok("h".to_string()), Ok("Linux  x".to_string())).unwrap();
    assert_eq!(blank_field.get("kernel"), Some(&text("x")));
}

#[test]
fn no_disks_are_reported() {
    assert_eq!(get_system_disk(), Ok(Json::Array(vec![])));
}
