//! Reading the files of `/proc`.

use crate::engine::provider::{outcome_view, ProviderError, ProviderFailure};
use crate::json::{entry, number_of_u64, Json, JsonValue};
use crate::text::{
    chars_of, contains, decimal_u32, decimal_u64, find_char, find_from, join3, join_words,
    joined_from, lines, lines_of, occurs, optional_text, parse_u32, parse_u64,
    remove_all, skip_spaces, skip_word, starts_with, text_views, trim, trimmed, without, words,
    words_from,
};
use vstd::utf8::{decode_utf8, valid_utf8};
use vstd::string::StrSliceExecFns;
use vstd::prelude::*;

verus! {

/// The number of kilobytes that a line such as `MemTotal: 1234 kB` states:
/// its second word, read as a decimal number. 0 where the line has no second
/// word, or where that word is no such number.
pub open spec fn kb_value(line: Seq<char>) -> u64 {
    if words(line).len() >= 2 {
        match decimal_u64(words(line)[1]) {
            Some(v) => v,
            None => 0,
        }
    } else {
        0
    }
}

/// The number of kilobytes that a line such as `MemTotal: 1234 kB` states.
pub fn parse_kb(line: &str) -> (r: u64)
    ensures
        r == kb_value(line@),
{
    let chars = chars_of(line);
    let first = skip_spaces(&chars, 0);
    if first >= chars.len() {
        assert(words(line@) =~= Seq::<Seq<char>>::empty());
        return 0;
    }
    let first_end = skip_word(&chars, first);
    let second = skip_spaces(&chars, first_end);
    if second >= chars.len() {
        assert(words_from(line@, first_end as int) =~= Seq::<Seq<char>>::empty());
        assert(words(line@) =~= seq![line@.subrange(first as int, first_end as int)]);
        return 0;
    }
    let second_end = skip_word(&chars, second);
    proof {
        assert(words(line@) == seq![line@.subrange(first as int, first_end as int)] + words_from(
            line@,
            first_end as int,
        ));
        assert(words_from(line@, first_end as int) == seq![
            line@.subrange(second as int, second_end as int),
        ] + words_from(line@, second_end as int));
        assert(words(line@)[1] == line@.subrange(second as int, second_end as int));
    }
    match parse_u64(&chars, second, second_end) {
        Some(v) => v,
        None => 0,
    }
}

/// The file that holds the host's name.
pub const HOSTNAME_PATH: &'static str = "/proc/sys/kernel/hostname";

/// The file that holds the kernel's version line.
pub const VERSION_PATH: &'static str = "/proc/version";

/// The file that holds the processor statistics.
pub const STAT_PATH: &'static str = "/proc/stat";

/// The file that holds the memory statistics.
pub const MEMINFO_PATH: &'static str = "/proc/meminfo";

/// What reading a file of `/proc` comes to: the contents, or the failure that
/// names the file and carries the reason.
pub open spec fn read_result(path: Seq<char>, read: Result<String, String>) -> Result<
    Seq<char>,
    ProviderFailure,
> {
    match read {
        Ok(contents) => Ok(contents@),
        Err(reason) => Err(
            ProviderFailure::Execution("Failed to read "@ + path + ": "@ + reason@),
        ),
    }
}

/// What reading a file of `/proc` comes to.
pub fn read_proc_file(path: &str, read: Result<String, String>) -> (r: Result<String, ProviderError>)
    ensures
        match r {
            Ok(contents) => read_result(path@, read) == Ok::<Seq<char>, ProviderFailure>(contents@),
            Err(e) => read_result(path@, read) == Err::<Seq<char>, ProviderFailure>(e@),
        },
{
    match read {
        Ok(contents) => Ok(contents),
        Err(reason) => {
            let mut message = join3("Failed to read ", path, ": ");
            message.append(reason.as_str());
            Err(ProviderError::Execution(message))
        },
    }
}

/// The third of the fields that single spaces part `s` into, if `s` has
/// three.
pub open spec fn third_field(s: Seq<char>) -> Option<Seq<char>> {
    let first = find_from(s, ' ', 0);
    let second = find_from(s, ' ', first + 1);
    if first < s.len() && second < s.len() {
        Some(s.subrange(second + 1, find_from(s, ' ', second + 1)))
    } else {
        None
    }
}

/// The kernel release that a version line names: its third field, or
/// `unknown`.
pub open spec fn kernel_of(version: Seq<char>) -> Seq<char> {
    match third_field(version) {
        Some(field) => field,
        None => "unknown"@,
    }
}

/// The architecture that a version line names, as far as it is known.
pub open spec fn arch_of(version: Seq<char>) -> Seq<char> {
    if occurs(version, "x86_64"@) {
        "x86_64"@
    } else if occurs(version, "aarch64"@) {
        "aarch64"@
    } else {
        "unknown"@
    }
}

/// What was read, or `unknown` where nothing could be read.
pub open spec fn or_unknown(read: Result<String, String>) -> Seq<char> {
    match read {
        Ok(contents) => contents@,
        Err(_) => "unknown"@,
    }
}

/// The report on the system: host name, operating system, kernel release and
/// architecture.
pub open spec fn system_info(hostname: Seq<char>, version: Seq<char>) -> JsonValue {
    JsonValue::Object(
        seq![
            ("hostname"@, JsonValue::Str(trimmed(hostname))),
            ("os"@, JsonValue::Str("linux"@)),
            ("kernel"@, JsonValue::Str(kernel_of(version))),
            ("arch"@, JsonValue::Str(arch_of(version))),
        ],
    )
}

/// The kernel release that a version line names.
fn kernel_release(version: &str) -> (r: String)
    ensures
        r@ == kernel_of(version@),
{
    let chars = chars_of(version);
    let first = find_char(&chars, ' ', 0);
    if first >= chars.len() {
        return "unknown".to_owned();
    }
    let second = find_char(&chars, ' ', first + 1);
    if second >= chars.len() {
        return "unknown".to_owned();
    }
    let third = find_char(&chars, ' ', second + 1);
    version.substring_char(second + 1, third).to_owned()
}

/// The report on the system, from what reading the host name and the version
/// line gave. What could not be read is reported as `unknown`.
pub fn get_system_info(hostname: Result<String, String>, version: Result<String, String>) -> (r:
    Result<Json, ProviderError>)
    ensures
        outcome_view(r) == Ok::<JsonValue, ProviderFailure>(
            system_info(or_unknown(hostname), or_unknown(version)),
        ),
{
    let hostname_text = match hostname {
        Ok(contents) => contents,
        Err(_) => "unknown".to_owned(),
    };
    let version_text = match version {
        Ok(contents) => contents,
        Err(_) => "unknown".to_owned(),
    };
    let arch = if contains(version_text.as_str(), "x86_64") {
        "x86_64"
    } else if contains(version_text.as_str(), "aarch64") {
        "aarch64"
    } else {
        "unknown"
    };
    let report = Json::object(
        vec![
            entry("hostname", Json::Str(trim(hostname_text.as_str()))),
            entry("os", Json::text("linux")),
            entry("kernel", Json::Str(kernel_release(version_text.as_str()))),
            entry("arch", Json::text(arch)),
        ],
    );
    assert(report@->Object_0 =~= system_info(hostname_text@, version_text@)->Object_0);
    Ok(report)
}

/// A line of the processor statistics that stands for one core: `cpu` and
/// something after it.
pub open spec fn is_core_line(line: Seq<char>) -> bool {
    "cpu"@.is_prefix_of(line) && line.len() > 3
}

/// The number of core lines among the first `n` lines.
pub open spec fn cores_upto(lines: Seq<Seq<char>>, n: int) -> nat
    decreases n,
{
    if n <= 0 {
        0
    } else {
        cores_upto(lines, n - 1) + if is_core_line(lines[n - 1]) {
            1nat
        } else {
            0nat
        }
    }
}

/// The number of cores that the processor statistics show.
pub open spec fn core_count(stat: Seq<char>) -> nat {
    cores_upto(lines(stat), lines(stat).len() as int)
}

/// The report on the processor.
pub open spec fn cpu_report(cores: u64) -> JsonValue {
    JsonValue::Object(seq![("cores"@, JsonValue::Number(number_of_u64(cores)))])
}

/// The report on the processor that reading the statistics comes to.
pub open spec fn system_cpu(read: Result<String, String>) -> Result<JsonValue, ProviderFailure> {
    match read_result(STAT_PATH@, read) {
        Ok(stat) => Ok(cpu_report(core_count(stat) as u64)),
        Err(e) => Err(e),
    }
}

/// The report on the processor, from what reading the statistics gave.
pub fn get_system_cpu(stat: Result<String, String>) -> (r: Result<Json, ProviderError>)
    ensures
        outcome_view(r) == system_cpu(stat),
{
    let text = match read_proc_file(STAT_PATH, stat) {
        Ok(text) => text,
        Err(e) => {
            return Err(e);
        },
    };
    let all = lines_of(text.as_str());
    let mut cores: u64 = 0;
    let mut i: usize = 0;
    while i < all.len()
        invariant
            i <= all.len(),
            cores == cores_upto(text_views(all@), i as int),
            cores <= i,
        decreases all.len() - i,
    {
        let line = all[i].as_str();
        assert(text_views(all@)[i as int] == line@);
        if starts_with(line, "cpu") && line.unicode_len() > 3 {
            cores += 1;
        }
        i += 1;
    }
    let report = Json::object(vec![entry("cores", Json::from_u64(cores))]);
    assert(report@->Object_0 =~= cpu_report(cores)->Object_0);
    Ok(report)
}

/// The four numbers that the memory report is made of, in kilobytes.
#[derive(Debug, Clone, Copy, PartialEq, Eq, Structural)]
pub struct MemoryInfo {
    pub total: u64,
    pub available: u64,
    pub swap_total: u64,
    pub swap_free: u64,
}

impl MemoryInfo {
    /// The numbers before any line is read.
    pub open spec fn zero() -> MemoryInfo {
        MemoryInfo { total: 0, available: 0, swap_total: 0, swap_free: 0 }
    }

    /// The numbers after one more line: a line that starts with one of the
    /// four labels sets that number.
    pub open spec fn with_line(self, line: Seq<char>) -> MemoryInfo {
        if "MemTotal:"@.is_prefix_of(line) {
            MemoryInfo { total: kb_value(line), ..self }
        } else if "MemAvailable:"@.is_prefix_of(line) {
            MemoryInfo { available: kb_value(line), ..self }
        } else if "SwapTotal:"@.is_prefix_of(line) {
            MemoryInfo { swap_total: kb_value(line), ..self }
        } else if "SwapFree:"@.is_prefix_of(line) {
            MemoryInfo { swap_free: kb_value(line), ..self }
        } else {
            self
        }
    }

    /// The numbers after the first `n` lines.
    pub open spec fn upto(lines: Seq<Seq<char>>, n: int) -> MemoryInfo
        decreases n,
    {
        if n <= 0 {
            Self::zero()
        } else {
            Self::upto(lines, n - 1).with_line(lines[n - 1])
        }
    }

    /// The numbers that the memory statistics state.
    pub open spec fn of(meminfo: Seq<char>) -> MemoryInfo {
        Self::upto(lines(meminfo), lines(meminfo).len() as int)
    }

    /// The report: each number in whole megabytes; what is used is the total
    /// less what is free, and 0 where more is free than there is.
    pub open spec fn report(self) -> JsonValue {
        JsonValue::Object(
            seq![
                ("total_mb"@, JsonValue::Number(number_of_u64(self.total / 1024))),
                ("used_mb"@, JsonValue::Number(number_of_u64(less(self.total, self.available) / 1024))),
                ("available_mb"@, JsonValue::Number(number_of_u64(self.available / 1024))),
                ("swap_total_mb"@, JsonValue::Number(number_of_u64(self.swap_total / 1024))),
                (
                    "swap_used_mb"@,
                    JsonValue::Number(number_of_u64(less(self.swap_total, self.swap_free) / 1024)),
                ),
            ],
        )
    }
}

/// `a` less `b`, and 0 where `b` is the larger.
pub open spec fn less(a: u64, b: u64) -> u64 {
    if a >= b {
        (a - b) as u64
    } else {
        0
    }
}

/// `a` less `b`, and 0 where `b` is the larger.
fn minus(a: u64, b: u64) -> (r: u64)
    ensures
        r == less(a, b),
{
    if a >= b {
        a - b
    } else {
        0
    }
}

/// The report on the memory that reading the statistics comes to.
pub open spec fn system_memory(read: Result<String, String>) -> Result<JsonValue, ProviderFailure> {
    match read_result(MEMINFO_PATH@, read) {
        Ok(meminfo) => Ok(MemoryInfo::of(meminfo).report()),
        Err(e) => Err(e),
    }
}

/// The report on the memory, from what reading the statistics gave.
pub fn get_system_memory(meminfo: Result<String, String>) -> (r: Result<Json, ProviderError>)
    ensures
        outcome_view(r) == system_memory(meminfo),
{
    let text = match read_proc_file(MEMINFO_PATH, meminfo) {
        Ok(text) => text,
        Err(e) => {
            return Err(e);
        },
    };
    let all = lines_of(text.as_str());
    let mut info = MemoryInfo { total: 0, available: 0, swap_total: 0, swap_free: 0 };
    let mut i: usize = 0;
    while i < all.len()
        invariant
            i <= all.len(),
            info == MemoryInfo::upto(text_views(all@), i as int),
        decreases all.len() - i,
    {
        let line = all[i].as_str();
        assert(text_views(all@)[i as int] == line@);
        if starts_with(line, "MemTotal:") {
            info.total = parse_kb(line);
        } else if starts_with(line, "MemAvailable:") {
            info.available = parse_kb(line);
        } else if starts_with(line, "SwapTotal:") {
            info.swap_total = parse_kb(line);
        } else if starts_with(line, "SwapFree:") {
            info.swap_free = parse_kb(line);
        }
        i += 1;
    }
    let report = Json::object(
        vec![
            entry("total_mb", Json::from_u64(info.total / 1024)),
            entry("used_mb", Json::from_u64(minus(info.total, info.available) / 1024)),
            entry("available_mb", Json::from_u64(info.available / 1024)),
            entry("swap_total_mb", Json::from_u64(info.swap_total / 1024)),
            entry("swap_used_mb", Json::from_u64(minus(info.swap_total, info.swap_free) / 1024)),
        ],
    );
    assert(report@->Object_0 =~= info.report()->Object_0);
    Ok(report)
}

/// The report on the disks: none are reported.
pub fn get_system_disk() -> (r: Result<Json, ProviderError>)
    ensures
        outcome_view(r) == Ok::<JsonValue, ProviderFailure>(JsonValue::Array(Seq::empty())),
{
    let report = Json::array(Vec::new());
    assert(report@->Array_0 =~= Seq::<JsonValue>::empty());
    Ok(report)
}

/// The process that a directory of `/proc` stands for, if its name is the
/// number of one.
pub fn parse_pid(name: &str) -> (r: Option<u32>)
    ensures
        r == decimal_u32(name@),
{
    parse_u32(name)
}

/// What the status file of a process states of it.
#[derive(Debug, PartialEq, Eq)]
pub struct ProcessStatus {
    pub name: Option<String>,
    pub state: Option<String>,
    pub rss_kb: Option<u64>,
}

/// The mathematical value of a [`ProcessStatus`].
pub ghost struct ProcessFacts {
    pub name: Option<Seq<char>>,
    pub state: Option<Seq<char>>,
    pub rss_kb: Option<u64>,
}

impl View for ProcessStatus {
    type V = ProcessFacts;

    open spec fn view(&self) -> ProcessFacts {
        ProcessFacts {
            name: optional_text(self.name),
            state: optional_text(self.state),
            rss_kb: self.rss_kb,
        }
    }
}

impl ProcessFacts {
    /// Nothing is known.
    pub open spec fn nothing() -> ProcessFacts {
        ProcessFacts { name: None, state: None, rss_kb: None }
    }

    /// What is known after one more line. A line that starts with `Name:` or
    /// `State:` and a tab states the name or the state: the line without that
    /// label and without the white space around the rest. One that starts with
    /// `VmRSS:` and a tab states the resident memory in kilobytes.
    pub open spec fn with_line(self, line: Seq<char>) -> ProcessFacts {
        if "Name:\t"@.is_prefix_of(line) {
            ProcessFacts { name: Some(trimmed(without(line, "Name:\t"@))), ..self }
        } else if "State:\t"@.is_prefix_of(line) {
            ProcessFacts { state: Some(trimmed(without(line, "State:\t"@))), ..self }
        } else if "VmRSS:\t"@.is_prefix_of(line) {
            ProcessFacts { rss_kb: Some(kb_value(line)), ..self }
        } else {
            self
        }
    }

    /// What is known after the first `n` lines.
    pub open spec fn upto(lines: Seq<Seq<char>>, n: int) -> ProcessFacts
        decreases n,
    {
        if n <= 0 {
            Self::nothing()
        } else {
            Self::upto(lines, n - 1).with_line(lines[n - 1])
        }
    }

    /// What a status file states.
    pub open spec fn of(status: Seq<char>) -> ProcessFacts {
        Self::upto(lines(status), lines(status).len() as int)
    }
}

/// What the status file of a process states of it.
pub fn read_process_status(status: &str) -> (r: ProcessStatus)
    ensures
        r@ == ProcessFacts::of(status@),
{
    let all = lines_of(status);
    let mut facts = ProcessStatus { name: None, state: None, rss_kb: None };
    let mut i: usize = 0;
    while i < all.len()
        invariant
            i <= all.len(),
            facts@ == ProcessFacts::upto(text_views(all@), i as int),
        decreases all.len() - i,
    {
        let line = all[i].as_str();
        assert(text_views(all@)[i as int] == line@);
        if starts_with(line, "Name:\t") {
            facts.name = Some(trim(remove_all(line, "Name:\t").as_str()));
        } else if starts_with(line, "State:\t") {
            facts.state = Some(trim(remove_all(line, "State:\t").as_str()));
        } else if starts_with(line, "VmRSS:\t") {
            facts.rss_kb = Some(parse_kb(line));
        }
        i += 1;
    }
    facts
}

/// The first place from `i` on that holds a zero byte; the length where
/// there is none.
pub open spec fn zero_from(bytes: Seq<u8>, i: int) -> int
    decreases bytes.len() - i,
{
    if 0 <= i < bytes.len() && bytes[i] != 0 {
        zero_from(bytes, i + 1)
    } else {
        i
    }
}

/// The zero byte that ends a chunk is within the bytes and not before the
/// chunk.
pub proof fn lemma_zero_from(bytes: Seq<u8>, i: int)
    requires
        0 <= i <= bytes.len(),
    ensures
        i <= zero_from(bytes, i) <= bytes.len(),
    decreases bytes.len() - i,
{
    if i < bytes.len() && bytes[i] != 0 {
        lemma_zero_from(bytes, i + 1);
    }
}

/// The texts of the chunks that zero bytes part the bytes into, from `i` on:
/// the chunks that are UTF-8, decoded, in order.
pub open spec fn arguments_from(bytes: Seq<u8>, i: int) -> Seq<Seq<char>>
    decreases bytes.len() - i,
    via arguments_from_decreases
{
    if 0 <= i <= bytes.len() {
        let end = zero_from(bytes, i);
        let chunk = bytes.subrange(i, end);
        let first = if valid_utf8(chunk) {
            seq![decode_utf8(chunk)]
        } else {
            Seq::empty()
        };
        if end < bytes.len() {
            first + arguments_from(bytes, end + 1)
        } else {
            first
        }
    } else {
        Seq::empty()
    }
}

#[via_fn]
proof fn arguments_from_decreases(bytes: Seq<u8>, i: int) {
    if 0 <= i <= bytes.len() {
        lemma_zero_from(bytes, i);
    }
}

/// The command line that the bytes of a `cmdline` file hold: its arguments
/// with one space between each two; `None` where that is empty.
pub open spec fn command_of(bytes: Seq<u8>) -> Option<Seq<char>> {
    let line = joined_from(arguments_from(bytes, 0), 0);
    if line.len() == 0 {
        None
    } else {
        Some(line)
    }
}

/// `std::str::from_utf8`: the text that the bytes encode, where they are
/// UTF-8.
#[verifier::external_body]
fn utf8_text(bytes: &Vec<u8>) -> (r: Option<String>)
    ensures
        match r {
            Some(text) => valid_utf8(bytes@) && text@ == decode_utf8(bytes@),
            None => !valid_utf8(bytes@),
        },
{
    std::str::from_utf8(bytes).ok().map(|text| text.to_owned())
}

/// The command line that the bytes of a `cmdline` file hold.
pub fn command_line(bytes: &Vec<u8>) -> (r: Option<String>)
    ensures
        optional_text(r) == command_of(bytes@),
{
    let mut arguments: Vec<String> = Vec::new();
    let mut i: usize = 0;
    assert(text_views(arguments@) + arguments_from(bytes@, 0) =~= arguments_from(bytes@, 0));
    loop
        invariant_except_break
            i <= bytes.len(),
            arguments_from(bytes@, 0) == text_views(arguments@) + arguments_from(bytes@, i as int),
        ensures
            arguments_from(bytes@, 0) == text_views(arguments@),
        decreases bytes.len() - i,
    {
        let mut chunk: Vec<u8> = Vec::new();
        let mut end: usize = i;
        while end < bytes.len() && bytes[end] != 0
            invariant
                i <= end <= bytes.len(),
                zero_from(bytes@, i as int) == zero_from(bytes@, end as int),
                chunk@ == bytes@.subrange(i as int, end as int),
            decreases bytes.len() - end,
        {
            chunk.push(bytes[end]);
            assert(chunk@ =~= bytes@.subrange(i as int, end + 1));
            end += 1;
        }
        let ghost before = arguments@;
        match utf8_text(&chunk) {
            Some(text) => {
                arguments.push(text);
                assert(text_views(arguments@) =~= text_views(before).push(text@));
            },
            None => {},
        }
        if end < bytes.len() {
            assert(text_views(arguments@) + arguments_from(bytes@, end + 1) =~= text_views(before)
                + arguments_from(bytes@, i as int));
            i = end + 1;
        } else {
            assert(text_views(arguments@) =~= text_views(before) + arguments_from(bytes@, i as int));
            break;
        }
    }
    let line = join_words(&arguments, 0);
    if line.as_str().unicode_len() == 0 {
        None
    } else {
        Some(line)
    }
}

} // verus!
