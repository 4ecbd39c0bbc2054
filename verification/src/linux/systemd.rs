//! Reading what `systemctl` and `journalctl` write.

use crate::engine::provider::{outcome_view, ProviderError, ProviderFailure};
use crate::json::{entry, json_parse, json_views, optional_json, Json, JsonValue};
use crate::text::{
    decimal_digits, decimal_text, join, join3, join_words, joined_from, lines, lines_of,
    split_at_first, split_once, text_views, trim, trimmed, words, words_of,
};
use vstd::prelude::*;

verus! {

/// What running a command gave: whether it ended in success, how its exit
/// status reads, and what it wrote to its standard output.
#[derive(Debug)]
pub struct CommandOutput {
    pub success: bool,
    pub status: String,
    pub stdout: String,
}

/// What running a command comes to: its standard output, or the failure that
/// names the command and says that it could not be run, or how it ended.
pub open spec fn stdout_of(cmd_name: Seq<char>, outcome: Result<CommandOutput, String>) -> Result<
    Seq<char>,
    ProviderFailure,
> {
    match outcome {
        Ok(output) => if output.success {
            Ok(output.stdout@)
        } else {
            Err(
                ProviderFailure::Execution(
                    "Command "@ + cmd_name + " failed with status: "@ + output.status@,
                ),
            )
        },
        Err(reason) => Err(
            ProviderFailure::Execution("Failed to execute "@ + cmd_name + ": "@ + reason@),
        ),
    }
}

/// What running a command comes to.
pub fn execute_command_stdout(cmd_name: &str, outcome: Result<CommandOutput, String>) -> (r: Result<
    String,
    ProviderError,
>)
    ensures
        match r {
            Ok(stdout) => stdout_of(cmd_name@, outcome) == Ok::<Seq<char>, ProviderFailure>(stdout@),
            Err(e) => stdout_of(cmd_name@, outcome) == Err::<Seq<char>, ProviderFailure>(e@),
        },
{
    match outcome {
        Ok(output) => {
            if output.success {
                Ok(output.stdout)
            } else {
                let mut message = join3("Command ", cmd_name, " failed with status: ");
                message.append(output.status.as_str());
                Err(ProviderError::Execution(message))
            }
        },
        Err(reason) => {
            let mut message = join3("Failed to execute ", cmd_name, ": ");
            message.append(reason.as_str());
            Err(ProviderError::Execution(message))
        },
    }
}

/// What the first `n` items give under `f`, leaving out the items for which
/// `f` gives nothing.
pub open spec fn kept_upto<A>(items: Seq<A>, f: spec_fn(A) -> Option<JsonValue>, n: int) -> Seq<
    JsonValue,
>
    decreases n,
{
    if n <= 0 {
        Seq::empty()
    } else {
        match f(items[n - 1]) {
            Some(v) => kept_upto(items, f, n - 1).push(v),
            None => kept_upto(items, f, n - 1),
        }
    }
}

/// What the items give under `f`, leaving out the items for which `f` gives
/// nothing.
pub open spec fn kept<A>(items: Seq<A>, f: spec_fn(A) -> Option<JsonValue>) -> Seq<JsonValue> {
    kept_upto(items, f, items.len() as int)
}

/// The unit that a line of the unit list shows: name, load state, state and
/// sub-state are its first four words, the description is the rest. A line with
/// fewer words shows no unit.
pub open spec fn unit_of(line: Seq<char>) -> Option<JsonValue> {
    let parts = words(line);
    if parts.len() >= 4 {
        Some(
            JsonValue::Object(
                seq![
                    ("name"@, JsonValue::Str(parts[0])),
                    ("load_state"@, JsonValue::Str(parts[1])),
                    ("state"@, JsonValue::Str(parts[2])),
                    ("sub_state"@, JsonValue::Str(parts[3])),
                    ("description"@, JsonValue::Str(joined_from(parts, 4))),
                ],
            ),
        )
    } else {
        None
    }
}

/// The unit list that running the listing comes to.
pub open spec fn units(outcome: Result<CommandOutput, String>) -> Result<JsonValue, ProviderFailure> {
    match stdout_of("systemctl"@, outcome) {
        Ok(stdout) => Ok(JsonValue::Array(kept(lines(stdout), |line: Seq<char>| unit_of(line)))),
        Err(e) => Err(e),
    }
}

/// The unit that a line of the unit list shows.
fn read_unit(line: &str) -> (r: Option<Json>)
    ensures
        optional_json(r) == unit_of(line@),
{
    let parts = words_of(line);
    if parts.len() >= 4 {
        let ghost views = text_views(parts@);
        assert(views[0] == parts@[0]@ && views[1] == parts@[1]@ && views[2] == parts@[2]@ && views[3]
            == parts@[3]@);
        let unit = Json::object(
            vec![
                entry("name", Json::text(parts[0].as_str())),
                entry("load_state", Json::text(parts[1].as_str())),
                entry("state", Json::text(parts[2].as_str())),
                entry("sub_state", Json::text(parts[3].as_str())),
                entry("description", Json::Str(join_words(&parts, 4))),
            ],
        );
        assert(unit@->Object_0 =~= unit_of(line@)->0->Object_0);
        Some(unit)
    } else {
        None
    }
}

/// The arguments with which `systemctl` lists the service units.
pub fn list_units_args() -> (r: Vec<String>)
    ensures
        text_views(r@) == seq![
            "list-units"@,
            "--type=service"@,
            "--all"@,
            "--no-pager"@,
            "--no-legend"@,
        ],
{
    let r = vec![
        "list-units".to_owned(),
        "--type=service".to_owned(),
        "--all".to_owned(),
        "--no-pager".to_owned(),
        "--no-legend".to_owned(),
    ];
    assert(text_views(r@) =~= seq![
        "list-units"@,
        "--type=service"@,
        "--all"@,
        "--no-pager"@,
        "--no-legend"@,
    ]);
    r
}

/// The service units, from what running `systemctl` to list them gave.
pub fn list_units(outcome: Result<CommandOutput, String>) -> (r: Result<Json, ProviderError>)
    ensures
        outcome_view(r) == units(outcome),
{
    let stdout = match execute_command_stdout("systemctl", outcome) {
        Ok(stdout) => stdout,
        Err(e) => {
            return Err(e);
        },
    };
    let all = lines_of(stdout.as_str());
    let ghost f = |line: Seq<char>| unit_of(line);
    let mut found: Vec<Json> = Vec::new();
    let mut i: usize = 0;
    while i < all.len()
        invariant
            i <= all.len(),
            f == |line: Seq<char>| unit_of(line),
            json_views(found@) == kept_upto(text_views(all@), f, i as int),
        decreases all.len() - i,
    {
        let ghost before = found@;
        assert(text_views(all@)[i as int] == all@[i as int]@);
        match read_unit(all[i].as_str()) {
            Some(unit) => {
                found.push(unit);
                assert(json_views(found@) =~= json_views(before).push(unit@));
            },
            None => {},
        }
        i += 1;
    }
    let report = Json::array(found);
    Ok(report)
}

/// The property that a line of the unit status states: what is before its
/// first `=` is the name, what is after it, without the white space around it,
/// is the value. A line without `=` states none.
pub open spec fn property_of(line: Seq<char>) -> Option<(Seq<char>, JsonValue)> {
    match split_at_first(line, '=') {
        Some((name, value)) => Some((name, JsonValue::Str(trimmed(value)))),
        None => None,
    }
}

/// The properties that the first `n` lines state, in order.
pub open spec fn properties_upto(lines: Seq<Seq<char>>, n: int) -> Seq<(Seq<char>, JsonValue)>
    decreases n,
{
    if n <= 0 {
        Seq::empty()
    } else {
        match property_of(lines[n - 1]) {
            Some(property) => properties_upto(lines, n - 1).push(property),
            None => properties_upto(lines, n - 1),
        }
    }
}

/// The unit status that running the query comes to: an object of the
/// properties, in the order of their lines.
pub open spec fn unit_status(outcome: Result<CommandOutput, String>) -> Result<
    JsonValue,
    ProviderFailure,
> {
    match stdout_of("systemctl"@, outcome) {
        Ok(stdout) => Ok(
            JsonValue::Object(properties_upto(lines(stdout), lines(stdout).len() as int)),
        ),
        Err(e) => Err(e),
    }
}

/// The arguments with which `systemctl` shows the unit `name`.
pub fn get_unit_status_args(name: &str) -> (r: Vec<String>)
    ensures
        text_views(r@) == seq!["show"@, name@, "--no-pager"@],
{
    let r = vec!["show".to_owned(), name.to_owned(), "--no-pager".to_owned()];
    assert(text_views(r@) =~= seq!["show"@, name@, "--no-pager"@]);
    r
}

/// The status of a unit, from what running `systemctl` to show it gave.
pub fn get_unit_status(outcome: Result<CommandOutput, String>) -> (r: Result<Json, ProviderError>)
    ensures
        outcome_view(r) == unit_status(outcome),
{
    let stdout = match execute_command_stdout("systemctl", outcome) {
        Ok(stdout) => stdout,
        Err(e) => {
            return Err(e);
        },
    };
    let all = lines_of(stdout.as_str());
    let mut props: Vec<(String, Json)> = Vec::new();
    let mut i: usize = 0;
    while i < all.len()
        invariant
            i <= all.len(),
            crate::json::entry_views(props@) == properties_upto(text_views(all@), i as int),
        decreases all.len() - i,
    {
        let ghost before = props@;
        assert(text_views(all@)[i as int] == all@[i as int]@);
        match split_once(all[i].as_str(), '=') {
            Some((name, value)) => {
                let property = (name, Json::Str(trim(value.as_str())));
                props.push(property);
                assert(crate::json::entry_views(props@) =~= crate::json::entry_views(before).push(
                    (name@, JsonValue::Str(trimmed(value@))),
                ));
            },
            None => {},
        }
        i += 1;
    }
    Ok(Json::object(props))
}

/// The journal entries that the lines of `journalctl` hold: every line that
/// is a JSON document, in order.
pub open spec fn journal_entries(stdout: Seq<char>) -> Seq<JsonValue> {
    kept(lines(stdout), |line: Seq<char>| json_parse(line))
}

/// The journal entries that the lines of `journalctl` hold.
fn read_entries(stdout: &str) -> (r: Vec<Json>)
    ensures
        json_views(r@) == journal_entries(stdout@),
{
    let all = lines_of(stdout);
    let ghost f = |line: Seq<char>| json_parse(line);
    let mut found: Vec<Json> = Vec::new();
    let mut i: usize = 0;
    while i < all.len()
        invariant
            i <= all.len(),
            f == |line: Seq<char>| json_parse(line),
            json_views(found@) == kept_upto(text_views(all@), f, i as int),
        decreases all.len() - i,
    {
        let ghost before = found@;
        assert(text_views(all@)[i as int] == all@[i as int]@);
        match Json::parse(all[i].as_str()) {
            Some(document) => {
                found.push(document);
                assert(json_views(found@) =~= json_views(before).push(document@));
            },
            None => {},
        }
        i += 1;
    }
    found
}

/// The arguments with which `journalctl` shows the last `lines` entries, of
/// one unit where one is given.
pub open spec fn tail_args(unit: Option<Seq<char>>, lines: u64) -> Seq<Seq<char>> {
    let common = seq!["-o"@, "json"@, "-n"@, decimal_digits(lines as nat), "--no-pager"@];
    match unit {
        Some(u) => common + seq!["-u"@, u],
        None => common,
    }
}

/// The view of a string slice that may be absent.
pub open spec fn optional_str(s: Option<&str>) -> Option<Seq<char>> {
    match s {
        Some(s) => Some(s@),
        None => None,
    }
}

/// The arguments with which `journalctl` shows the last `lines` entries.
pub fn journal_tail_args(unit: Option<&str>, lines: u64) -> (r: Vec<String>)
    ensures
        text_views(r@) == tail_args(optional_str(unit), lines),
{
    let mut args = vec![
        "-o".to_owned(),
        "json".to_owned(),
        "-n".to_owned(),
        decimal_text(lines),
        "--no-pager".to_owned(),
    ];
    assert(text_views(args@) =~= seq![
        "-o"@,
        "json"@,
        "-n"@,
        decimal_digits(lines as nat),
        "--no-pager"@,
    ]);
    match unit {
        Some(u) => {
            let ghost before = args@;
            args.push("-u".to_owned());
            args.push(u.to_owned());
            assert(text_views(args@) =~= text_views(before) + seq!["-u"@, u@]);
        },
        None => {},
    }
    args
}

/// The report of the last journal entries: the unit asked for, or `null`,
/// and the entries.
pub open spec fn tail_report(unit: Option<Seq<char>>, outcome: Result<CommandOutput, String>) -> Result<
    JsonValue,
    ProviderFailure,
> {
    match stdout_of("journalctl"@, outcome) {
        Ok(stdout) => Ok(
            JsonValue::Object(
                seq![
                    (
                        "unit"@,
                        match unit {
                            Some(u) => JsonValue::Str(u),
                            None => JsonValue::Null,
                        },
                    ),
                    ("entries"@, JsonValue::Array(journal_entries(stdout))),
                ],
            ),
        ),
        Err(e) => Err(e),
    }
}

/// The last journal entries, from what running `journalctl` gave.
pub fn journal_tail(unit: Option<&str>, outcome: Result<CommandOutput, String>) -> (r: Result<
    Json,
    ProviderError,
>)
    ensures
        outcome_view(r) == tail_report(optional_str(unit), outcome),
{
    let stdout = match execute_command_stdout("journalctl", outcome) {
        Ok(stdout) => stdout,
        Err(e) => {
            return Err(e);
        },
    };
    let entries = Json::array(read_entries(stdout.as_str()));
    let asked = match unit {
        Some(u) => Json::text(u),
        None => Json::Null,
    };
    let report = Json::object(vec![entry("unit", asked), entry("entries", entries)]);
    assert(report@->Object_0 =~= tail_report(optional_str(unit), outcome)->Ok_0->Object_0);
    Ok(report)
}

/// The arguments with which `journalctl` searches for `keyword`, from a time
/// on and from a priority up where these are given.
pub open spec fn search_args(
    keyword: Seq<char>,
    since: Option<Seq<char>>,
    priority: Option<Seq<char>>,
) -> Seq<Seq<char>> {
    let common = seq!["-o"@, "json"@, "--no-pager"@, "--grep"@, keyword];
    let timed = match since {
        Some(s) => common.push("--since="@ + s),
        None => common,
    };
    match priority {
        Some(p) => timed + seq!["-p"@, p],
        None => timed,
    }
}

/// The arguments with which `journalctl` searches for `keyword`.
pub fn journal_search_args(keyword: &str, since: Option<&str>, priority: Option<&str>) -> (r: Vec<
    String,
>)
    ensures
        text_views(r@) == search_args(keyword@, optional_str(since), optional_str(priority)),
{
    let mut args = vec![
        "-o".to_owned(),
        "json".to_owned(),
        "--no-pager".to_owned(),
        "--grep".to_owned(),
        keyword.to_owned(),
    ];
    assert(text_views(args@) =~= seq!["-o"@, "json"@, "--no-pager"@, "--grep"@, keyword@]);
    match since {
        Some(s) => {
            let ghost before = args@;
            args.push(join("--since=", s));
            assert(text_views(args@) =~= text_views(before).push("--since="@ + s@));
        },
        None => {},
    }
    match priority {
        Some(p) => {
            let ghost before = args@;
            args.push("-p".to_owned());
            args.push(p.to_owned());
            assert(text_views(args@) =~= text_views(before) + seq!["-p"@, p@]);
        },
        None => {},
    }
    args
}

/// The report of a journal search: the keyword and the entries.
pub open spec fn search_report(keyword: Seq<char>, outcome: Result<CommandOutput, String>) -> Result<
    JsonValue,
    ProviderFailure,
> {
    match stdout_of("journalctl"@, outcome) {
        Ok(stdout) => Ok(
            JsonValue::Object(
                seq![
                    ("keyword"@, JsonValue::Str(keyword)),
                    ("entries"@, JsonValue::Array(journal_entries(stdout))),
                ],
            ),
        ),
        Err(e) => Err(e),
    }
}

/// The journal entries that hold `keyword`, from what running `journalctl`
/// gave.
pub fn journal_search(keyword: &str, outcome: Result<CommandOutput, String>) -> (r: Result<
    Json,
    ProviderError,
>)
    ensures
        outcome_view(r) == search_report(keyword@, outcome),
{
    let stdout = match execute_command_stdout("journalctl", outcome) {
        Ok(stdout) => stdout,
        Err(e) => {
            return Err(e);
        },
    };
    let entries = Json::array(read_entries(stdout.as_str()));
    let report = Json::object(vec![entry("keyword", Json::text(keyword)), entry("entries", entries)]);
    assert(report@->Object_0 =~= search_report(keyword@, outcome)->Ok_0->Object_0);
    Ok(report)
}

} // verus!
