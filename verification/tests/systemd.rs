use neurond::engine::provider::ProviderError;
use neurond::json::Json;
use neurond::linux::systemd::{
    execute_command_stdout, get_unit_status, get_unit_status_args, journal_search,
    journal_search_args, journal_tail, journal_tail_args, list_units, list_units_args,
    CommandOutput,
};

fn ran(stdout: &str) -> Result<CommandOutput, String> {
    Ok(CommandOutput { success: true, status: "exit status: 0".to_string(), stdout: stdout.to_string() })
}

fn text(s: &str) -> Json {
    Json::Str(s.to_string())
}

fn object(entries: Vec<(&str, Json)>) -> Json {
    Json::Object(entries.into_iter().map(|(k, v)| (k.to_string(), v)).collect())
}

#[test]
fn test_list_units_executes() {
    let stdout = "  nginx.service loaded active running A high performance web server\n  ssh.service loaded active running OpenBSD Secure Shell server\n";
    let res = list_units(ran(stdout));
    assert!(res.is_ok(), "systemctl list-units should execute");

    let array = res.unwrap();
    assert!(matches!(array, Json::Array(_)));
}

#[test]
fn a_unit_line_has_four_words_and_a_description() {
    let stdout = "nginx.service loaded active running A  high   performance web server\nshort line only\n\nssh.service loaded inactive dead\n";
    let units = list_units(ran(stdout)).unwrap();
    assert_eq!(
        units,
        Json::Array(vec![
            object(vec![
                ("name", text("nginx.service")),
                ("load_state", text("loaded")),
                ("state", text("active")),
                ("sub_state", text("running")),
                ("description", text("A high performance web server")),
            ]),
            object(vec![
                ("name", text("ssh.service")),
                ("load_state", text("loaded")),
                ("state", text("inactive")),
                ("sub_state", text("dead")),
                ("description", text("")),
            ]),
        ])
    );
    assert_eq!(list_units(ran("")), Ok(Json::Array(vec![])));
}

#[test]
fn a_command_that_fails_is_an_execution_failure() {
    assert_eq!(
        execute_command_stdout("systemctl", Err("No such file or directory".to_string())),
        Err(ProviderError::Execution(
            "Failed to execute systemctl: No such file or directory".to_string()
        ))
    );
    let failed = CommandOutput {
        success: false,
        status: "exit status: 3".to_string(),
        stdout: "ignored".to_string(),
    };
    assert_eq!(
        list_units(Ok(failed)),
        Err(ProviderError::Execution(
            "Command systemctl failed with status: exit status: 3".to_string()
        ))
    );
    assert_eq!(
        journal_tail(None, Err("gone".to_string())),
        Err(ProviderError::Execution("Failed to execute journalctl: gone".to_string()))
    );
    assert_eq!(execute_command_stdout("x", ran("out")), Ok("out".to_string()));
}

#[test]
fn the_status_of_a_unit_is_its_properties() {
    let stdout = "Id=nginx.service\nActiveState= active \nExecStart={ path=/usr/sbin/nginx ; argv[]=nginx }\nno equals sign\n=empty name\nEmpty=\n";
    assert_eq!(
        get_unit_status(ran(stdout)),
        Ok(object(vec![
            ("Id", text("nginx.service")),
            ("ActiveState", text("active")),
            ("ExecStart", text("{ path=/usr/sbin/nginx ; argv[]=nginx }")),
            ("", text("empty name")),
            ("Empty", text("")),
        ]))
    );
    let twice = get_unit_status(ran("A=1\nA=2\n")).unwrap();
    assert_eq!(twice.get("A"), Some(&text("2")));
    assert_eq!(twice.to_text(), "{\"A\":\"2\"}");
}

#[test]
fn the_journal_entries_are_the_lines_that_are_documents() {
    let stdout = "{\"MESSAGE\":\"started\"}\nnot json\n\n{\"MESSAGE\":\"stopped\",\"PRIORITY\":\"6\"}\r\n[1,2]\n";
    let tail = journal_tail(Some("nginx.service"), ran(stdout)).unwrap();
    assert_eq!(tail.get("unit"), Some(&text("nginx.service")));
    assert_eq!(
        tail.get("entries"),
        Some(&Json::Array(vec![
            object(vec![("MESSAGE", text("started"))]),
            object(vec![("MESSAGE", text("stopped")), ("PRIORITY", text("6"))]),
            Json::Array(vec![
                Json::Number(serde_json::Number::from(1u64)),
                Json::Number(serde_json::Number::from(2u64)),
            ]),
        ]))
    );
    let all = journal_tail(None, ran("")).unwrap();
    assert_eq!(all, object(vec![("unit", Json::Null), ("entries", Json::Array(vec![]))]));

    let found = journal_search("oom", ran("{\"MESSAGE\":\"oom killer\"}")).unwrap();
    assert_eq!(
        found,
        object(vec![
            ("keyword", text("oom")),
            ("entries", Json::Array(vec![object(vec![("MESSAGE", text("oom killer"))])])),
        ])
    );
}

#[test]
fn the_arguments_are_those_of_the_tools() {
    assert_eq!(
        list_units_args(),
        vec!["list-units", "--type=service", "--all", "--no-pager", "--no-legend"]
    );
    assert_eq!(get_unit_status_args("nginx.service"), vec!["show", "nginx.service", "--no-pager"]);
    assert_eq!(journal_tail_args(None, 50), vec!["-o", "json", "-n", "50", "--no-pager"]);
    assert_eq!(
        journal_tail_args(Some("sshd"), 1200),
        vec!["-o", "json", "-n", "1200", "--no-pager", "-u", "sshd"]
    );
    assert_eq!(
        journal_search_args("oom", None, None),
        vec!["-o", "json", "--no-pager", "--grep", "oom"]
    );
    assert_eq!(
        journal_search_args("oom", Some("1 hour ago"), Some("err")),
        vec!["-o", "json", "--no-pager", "--grep", "oom", "--since=1 hour ago", "-p", "err"]
    );
    assert_eq!(
        journal_search_args("oom", None, Some("err")),
        vec!["-o", "json", "--no-pager", "--grep", "oom", "-p", "err"]
    );
}
