//! The synthetic event source: bounded, optionally paced production of
//! log lines in one of several formats, stepped as a state machine whose
//! decisions are all here; the surrounding loop only sleeps and sends.

use vstd::prelude::*;

use crate::datetime::{
    civil_from_millis, rfc3339_millis, spec_civil_from_days, spec_rfc3339_millis, MILLIS_PER_DAY,
    MILLIS_PER_HOUR, MILLIS_PER_MINUTE, MILLIS_PER_SECOND,
};
use crate::event::{LogEvent, Value};
use crate::host::{now_unix_millis, random_in_range, random_index};
use crate::json::{emit_obj_body, spec_json_obj};
use crate::schema::LogSchema;
use crate::strutil::{spec_dec, spec_pad2, u64_to_dec, u64_to_pad2};

verus! {

/// The line formats the source can synthesize.
pub enum OutputFormat {
    /// A uniformly random pick from `lines`, optionally prefixed with the
    /// zero-based tick number.
    Shuffle { sequence: bool, lines: Vec<String> },
    ApacheCommon,
    ApacheError,
    Syslog,
    BsdSyslog,
    Json,
}

/// Why a generator configuration is rejected.
#[derive(PartialEq, Eq, Structural, Clone, Copy, Debug)]
pub enum GeneratorConfigError {
    ShuffleGeneratorItemsEmpty,
}

impl GeneratorConfigError {
    /// The operator-visible description.
    pub fn message(&self) -> (r: String)
        ensures
            r@ == "A non-empty list of lines is required for the shuffle format"@,
    {
        String::from_str("A non-empty list of lines is required for the shuffle format")
    }
}

/// The generator source configuration: pacing in whole milliseconds, a
/// tick budget, and the line format.
pub struct GeneratorConfig {
    pub interval_millis: u64,
    pub count: usize,
    pub format: OutputFormat,
}

impl OutputFormat {
    /// A shuffle without lines cannot pick one; everything else passes.
    pub fn validate(&self) -> (r: Result<(), GeneratorConfigError>)
        ensures
            r == if self matches OutputFormat::Shuffle { lines, .. } && lines@.len() == 0 {
                Err::<(), GeneratorConfigError>(GeneratorConfigError::ShuffleGeneratorItemsEmpty)
            } else {
                Ok::<(), GeneratorConfigError>(())
            },
    {
        match self {
            OutputFormat::Shuffle { lines, .. } => {
                if lines.len() == 0 {
                    Err(GeneratorConfigError::ShuffleGeneratorItemsEmpty)
                } else {
                    Ok(())
                }
            },
            _ => Ok(()),
        }
    }

    /// One line for tick `n`. A shuffle pick comes from `lines`; the
    /// other formats synthesize a fresh plausible record.
    pub fn generate_line(&self, n: usize) -> (r: String)
        requires
            self matches OutputFormat::Shuffle { lines, .. } ==> lines@.len() > 0,
        ensures
            match self {
                OutputFormat::Shuffle { sequence, lines } => exists|i: int|
                    #![auto]
                    0 <= i < lines@.len() && r@ == if *sequence {
                        spec_dec(n as int) + " "@ + lines@[i]@
                    } else {
                        lines@[i]@
                    },
                OutputFormat::ApacheCommon => is_apache_common_line(r@),
                OutputFormat::ApacheError => is_apache_error_line(r@),
                OutputFormat::Syslog => is_syslog_5424_line(r@),
                OutputFormat::BsdSyslog => is_syslog_3164_line(r@),
                OutputFormat::Json => is_json_access_line(r@),
            },
    {
        match self {
            OutputFormat::Shuffle { sequence, lines } => shuffle_line(*sequence, lines, n),
            OutputFormat::ApacheCommon => apache_common_line(),
            OutputFormat::ApacheError => apache_error_line(),
            OutputFormat::Syslog => syslog_5424_line(),
            OutputFormat::BsdSyslog => syslog_3164_line(),
            OutputFormat::Json => json_line(),
        }
    }
}

impl GeneratorConfig {
    /// A shuffle generator that replays the given lines.
    pub fn repeat(lines: Vec<String>, count: usize, interval_millis: u64) -> (r: GeneratorConfig)
        ensures
            r.count == count,
            r.interval_millis == interval_millis,
            r.format matches OutputFormat::Shuffle { sequence, lines: ls } && sequence == false
                && ls == lines,
    {
        GeneratorConfig {
            count,
            interval_millis,
            format: OutputFormat::Shuffle { sequence: false, lines },
        }
    }

    /// The default budget: one line per second, bounded only by the
    /// signed half of the index space.
    pub fn default_config() -> (r: GeneratorConfig)
        ensures
            r.interval_millis == 1000u64,
            r.count == usize::MAX / 2,
            r.format matches OutputFormat::Json,
    {
        GeneratorConfig {
            interval_millis: 1000,
            count: usize::MAX / 2,
            format: OutputFormat::Json,
        }
    }
}

/// A uniformly random line, with the tick number prepended when the
/// shuffle asks for a sequence.
pub fn shuffle_line(sequence: bool, lines: &Vec<String>, n: usize) -> (r: String)
    requires
        lines@.len() > 0,
    ensures
        exists|i: int|
            #![auto]
            0 <= i < lines@.len() && r@ == if sequence {
                spec_dec(n as int) + " "@ + lines@[i]@
            } else {
                lines@[i]@
            },
{
    let i = random_index(lines.len());
    proof {
        reveal_strlit(" ");
    }
    if sequence {
        let mut s = u64_to_dec(n as u64);
        s.append(" ");
        s.append(lines[i].as_str());
        proof {
            assert(0 <= i < lines@.len() && s@ == spec_dec(n as int) + " "@ + lines@[i as int]@);
        }
        s
    } else {
        let s = crate::strutil::clone_string(&lines[i]);
        proof {
            assert(0 <= i < lines@.len() && s@ == lines@[i as int]@);
        }
        s
    }
}

/// The three-letter English month abbreviation of the Apache and BSD
/// syslog clock fields.
pub open spec fn spec_month_abbrev(m: int) -> Seq<char> {
    if m == 1 {
        "Jan"@
    } else if m == 2 {
        "Feb"@
    } else if m == 3 {
        "Mar"@
    } else if m == 4 {
        "Apr"@
    } else if m == 5 {
        "May"@
    } else if m == 6 {
        "Jun"@
    } else if m == 7 {
        "Jul"@
    } else if m == 8 {
        "Aug"@
    } else if m == 9 {
        "Sep"@
    } else if m == 10 {
        "Oct"@
    } else if m == 11 {
        "Nov"@
    } else {
        "Dec"@
    }
}

fn month_abbrev(m: u8) -> (r: &'static str)
    requires
        1 <= m <= 12,
    ensures
        r@ == spec_month_abbrev(m as int),
{
    proof {
        reveal_strlit("Jan");
        reveal_strlit("Feb");
        reveal_strlit("Mar");
        reveal_strlit("Apr");
        reveal_strlit("May");
        reveal_strlit("Jun");
        reveal_strlit("Jul");
        reveal_strlit("Aug");
        reveal_strlit("Sep");
        reveal_strlit("Oct");
        reveal_strlit("Nov");
        reveal_strlit("Dec");
    }
    match m {
        1 => "Jan",
        2 => "Feb",
        3 => "Mar",
        4 => "Apr",
        5 => "May",
        6 => "Jun",
        7 => "Jul",
        8 => "Aug",
        9 => "Sep",
        10 => "Oct",
        11 => "Nov",
        _ => "Dec",
    }
}

/// The client-address pool the synthetic lines draw from.
pub open spec fn spec_ip(i: int) -> Seq<char> {
    if i == 0 {
        "141.114.7.20"@
    } else if i == 1 {
        "54.36.149.86"@
    } else if i == 2 {
        "31.184.238.233"@
    } else {
        "13.66.139.0"@
    }
}

/// The request-method pool the synthetic lines draw from.
pub open spec fn spec_method(i: int) -> Seq<char> {
    if i == 0 {
        "GET"@
    } else if i == 1 {
        "POST"@
    } else if i == 2 {
        "PUT"@
    } else {
        "DELETE"@
    }
}

/// The request-path pool the synthetic lines draw from.
pub open spec fn spec_path(i: int) -> Seq<char> {
    if i == 0 {
        "/index.html"@
    } else if i == 1 {
        "/api/v1/metrics"@
    } else if i == 2 {
        "/wp-admin/index.php"@
    } else {
        "/favicon.ico"@
    }
}

fn pick_ip(i: u64) -> (r: &'static str)
    requires
        i < 4,
    ensures
        r@ == spec_ip(i as int),
{
    match i {
        0 => "141.114.7.20",
        1 => "54.36.149.86",
        2 => "31.184.238.233",
        _ => "13.66.139.0",
    }
}

fn pick_method(i: u64) -> (r: &'static str)
    requires
        i < 4,
    ensures
        r@ == spec_method(i as int),
{
    match i {
        0 => "GET",
        1 => "POST",
        2 => "PUT",
        _ => "DELETE",
    }
}

fn pick_path(i: u64) -> (r: &'static str)
    requires
        i < 4,
    ensures
        r@ == spec_path(i as int),
{
    match i {
        0 => "/index.html",
        1 => "/api/v1/metrics",
        2 => "/wp-admin/index.php",
        _ => "/favicon.ico",
    }
}

/// The `dd/Mon/yyyy:hh:mm:ss +0000` clock field of an Apache line, for
/// the given clock reading.
pub open spec fn spec_apache_clock(ms: int) -> Seq<char> {
    let days = ms / (MILLIS_PER_DAY as int);
    let in_day = ms % (MILLIS_PER_DAY as int);
    let (y, m, d) = spec_civil_from_days(days);
    spec_pad2(d) + "/"@ + spec_month_abbrev(m) + "/"@ + spec_dec(y) + ":"@ + spec_pad2(
        in_day / (MILLIS_PER_HOUR as int),
    ) + ":"@ + spec_pad2(in_day % (MILLIS_PER_HOUR as int) / (MILLIS_PER_MINUTE as int)) + ":"@
        + spec_pad2(in_day % (MILLIS_PER_MINUTE as int) / (MILLIS_PER_SECOND as int)) + " +0000"@
}

/// The `Mon dd hh:mm:ss` clock field of a BSD syslog line, for the given
/// clock reading.
pub open spec fn spec_bsd_clock(ms: int) -> Seq<char> {
    let days = ms / (MILLIS_PER_DAY as int);
    let in_day = ms % (MILLIS_PER_DAY as int);
    let (y, m, d) = spec_civil_from_days(days);
    spec_month_abbrev(m) + " "@ + spec_pad2(d) + " "@ + spec_pad2(
        in_day / (MILLIS_PER_HOUR as int),
    ) + ":"@ + spec_pad2(in_day % (MILLIS_PER_HOUR as int) / (MILLIS_PER_MINUTE as int)) + ":"@
        + spec_pad2(in_day % (MILLIS_PER_MINUTE as int) / (MILLIS_PER_SECOND as int))
}

fn apache_clock_field(ms: u64) -> (r: String)
    ensures
        r@ == spec_apache_clock(ms as int),
{
    let c = civil_from_millis(ms);
    proof {
        reveal_strlit("/");
        reveal_strlit(":");
        reveal_strlit(" +0000");
    }
    let mut s = u64_to_pad2(c.day as u64);
    s.append("/");
    s.append(month_abbrev(c.month));
    s.append("/");
    let y = u64_to_dec(c.year);
    s.append(y.as_str());
    s.append(":");
    let hh = u64_to_pad2(c.hour as u64);
    s.append(hh.as_str());
    s.append(":");
    let mi = u64_to_pad2(c.minute as u64);
    s.append(mi.as_str());
    s.append(":");
    let ss = u64_to_pad2(c.second as u64);
    s.append(ss.as_str());
    s.append(" +0000");
    proof {
        assert(s@ =~= spec_apache_clock(ms as int));
    }
    s
}

fn bsd_clock_field(ms: u64) -> (r: String)
    ensures
        r@ == spec_bsd_clock(ms as int),
{
    let c = civil_from_millis(ms);
    proof {
        reveal_strlit(" ");
        reveal_strlit(":");
    }
    let mut s = String::from_str(month_abbrev(c.month));
    s.append(" ");
    let dd = u64_to_pad2(c.day as u64);
    s.append(dd.as_str());
    s.append(" ");
    let hh = u64_to_pad2(c.hour as u64);
    s.append(hh.as_str());
    s.append(":");
    let mi = u64_to_pad2(c.minute as u64);
    s.append(mi.as_str());
    s.append(":");
    let ss = u64_to_pad2(c.second as u64);
    s.append(ss.as_str());
    proof {
        assert(s@ =~= spec_bsd_clock(ms as int));
    }
    s
}

/// An Apache common-log access line: a drawn client address, `- frank`,
/// the clock field of a clock reading, and a drawn method, path, status
/// in `200..=599` and size in `300..=50000`.
pub open spec fn is_apache_common_line(r: Seq<char>) -> bool {
    exists|ms: u64, ip: int, me: int, pa: int, status: u64, size: u64|
        #![auto]
        {
            &&& 0 <= ip < 4
            &&& 0 <= me < 4
            &&& 0 <= pa < 4
            &&& 200 <= status <= 599
            &&& 300 <= size <= 50_000
            &&& r == spec_ip(ip) + " - frank ["@ + spec_apache_clock(ms as int) + "] \""@
                + spec_method(me) + " "@ + spec_path(pa) + " HTTP/1.1\" "@ + spec_dec(
                status as int,
            ) + " "@ + spec_dec(size as int)
        }
}

/// An Apache common-log access line with random address, method, path,
/// status and size, clocked at the wall clock now.
pub fn apache_common_line() -> (r: String)
    ensures
        is_apache_common_line(r@),
{
    let now = now_unix_millis();
    let ip = random_in_range(0, 3);
    let me = random_in_range(0, 3);
    let pa = random_in_range(0, 3);
    let status = random_in_range(200, 599);
    let size = random_in_range(300, 50_000);
    let mut s = String::from_str(pick_ip(ip));
    s.append(" - frank [");
    let clock = apache_clock_field(now);
    s.append(clock.as_str());
    s.append("] \"");
    s.append(pick_method(me));
    s.append(" ");
    s.append(pick_path(pa));
    s.append(" HTTP/1.1\" ");
    let status_s = u64_to_dec(status);
    s.append(status_s.as_str());
    s.append(" ");
    let size_s = u64_to_dec(size);
    s.append(size_s.as_str());
    proof {
        assert(s@ =~= spec_ip(ip as int) + " - frank ["@ + spec_apache_clock(now as int) + "] \""@
            + spec_method(me as int) + " "@ + spec_path(pa as int) + " HTTP/1.1\" "@ + spec_dec(
            status as int,
        ) + " "@ + spec_dec(size as int));
        assert(is_apache_common_line(s@));
    }
    s
}

/// An Apache error-log line: the bracketed clock field of a clock
/// reading, the fixed error tag, and a drawn client address and missing
/// path.
pub open spec fn is_apache_error_line(r: Seq<char>) -> bool {
    exists|ms: u64, ip: int, pa: int|
        #![auto]
        {
            &&& 0 <= ip < 4
            &&& 0 <= pa < 4
            &&& r == "["@ + spec_apache_clock(ms as int) + "] [error] [client "@ + spec_ip(ip)
                + "] File does not exist: "@ + spec_path(pa)
        }
}

/// An Apache error-log line with random client address and path, clocked
/// at the wall clock now.
pub fn apache_error_line() -> (r: String)
    ensures
        is_apache_error_line(r@),
{
    let now = now_unix_millis();
    let ip = random_in_range(0, 3);
    let pa = random_in_range(0, 3);
    let mut s = String::from_str("[");
    let clock = apache_clock_field(now);
    s.append(clock.as_str());
    s.append("] [error] [client ");
    s.append(pick_ip(ip));
    s.append("] File does not exist: ");
    s.append(pick_path(pa));
    proof {
        assert(s@ =~= "["@ + spec_apache_clock(now as int) + "] [error] [client "@ + spec_ip(
            ip as int,
        ) + "] File does not exist: "@ + spec_path(pa as int));
        assert(is_apache_error_line(s@));
    }
    s
}

/// An RFC 5424 syslog line: a drawn priority in `0..=191`, version 1, the
/// RFC3339 timestamp of a clock reading, the fixed host, and a drawn
/// application number, process id and message identifier around the fixed
/// message.
pub open spec fn is_syslog_5424_line(r: Seq<char>) -> bool {
    exists|ms: u64, prio: u64, app: u64, pid: u64, mid: u64|
        #![auto]
        {
            &&& prio <= 191
            &&& 1 <= app <= 9
            &&& 100 <= pid <= 9999
            &&& 1 <= mid <= 999
            &&& r == "<"@ + spec_dec(prio as int) + ">1 "@ + spec_rfc3339_millis(ms as int)
                + " host1.example.com app"@ + spec_dec(app as int) + " "@ + spec_dec(pid as int)
                + " ID"@ + spec_dec(mid as int) + " - A short message that will do the trick"@
        }
}

/// An RFC 5424 syslog line: priority, version, RFC3339 timestamp, host,
/// application, process, message identifier, and a short message.
pub fn syslog_5424_line() -> (r: String)
    ensures
        is_syslog_5424_line(r@),
{
    let now = now_unix_millis();
    let prio = random_in_range(0, 191);
    let app = random_in_range(1, 9);
    let pid = random_in_range(100, 9999);
    let mid = random_in_range(1, 999);
    let mut s = String::from_str("<");
    let prio_s = u64_to_dec(prio);
    s.append(prio_s.as_str());
    s.append(">1 ");
    let ts = rfc3339_millis(now);
    s.append(ts.as_str());
    s.append(" host1.example.com app");
    let app_s = u64_to_dec(app);
    s.append(app_s.as_str());
    s.append(" ");
    let pid_s = u64_to_dec(pid);
    s.append(pid_s.as_str());
    s.append(" ID");
    let mid_s = u64_to_dec(mid);
    s.append(mid_s.as_str());
    s.append(" - A short message that will do the trick");
    proof {
        assert(s@ =~= "<"@ + spec_dec(prio as int) + ">1 "@ + spec_rfc3339_millis(now as int)
            + " host1.example.com app"@ + spec_dec(app as int) + " "@ + spec_dec(pid as int)
            + " ID"@ + spec_dec(mid as int) + " - A short message that will do the trick"@);
        assert(is_syslog_5424_line(s@));
    }
    s
}

/// An RFC 3164 syslog line: a drawn priority in `0..=191`, the abbreviated
/// clock field of a clock reading, the fixed host, and a drawn process id
/// tagging the fixed message.
pub open spec fn is_syslog_3164_line(r: Seq<char>) -> bool {
    exists|ms: u64, prio: u64, pid: u64|
        #![auto]
        {
            &&& prio <= 191
            &&& 100 <= pid <= 9999
            &&& r == "<"@ + spec_dec(prio as int) + ">"@ + spec_bsd_clock(ms as int)
                + " host1.example.com app["@ + spec_dec(pid as int)
                + "]: A short message that will do the trick"@
        }
}

/// An RFC 3164 syslog line: priority, abbreviated clock, host, tagged
/// process, and a short message.
pub fn syslog_3164_line() -> (r: String)
    ensures
        is_syslog_3164_line(r@),
{
    let now = now_unix_millis();
    let prio = random_in_range(0, 191);
    let pid = random_in_range(100, 9999);
    let mut s = String::from_str("<");
    let prio_s = u64_to_dec(prio);
    s.append(prio_s.as_str());
    s.append(">");
    let clock = bsd_clock_field(now);
    s.append(clock.as_str());
    s.append(" host1.example.com app[");
    let pid_s = u64_to_dec(pid);
    s.append(pid_s.as_str());
    s.append("]: A short message that will do the trick");
    proof {
        assert(s@ =~= "<"@ + spec_dec(prio as int) + ">"@ + spec_bsd_clock(now as int)
            + " host1.example.com app["@ + spec_dec(pid as int)
            + "]: A short message that will do the trick"@);
        assert(is_syslog_3164_line(s@));
    }
    s
}

/// A JSON access record: an object with exactly the keys `host`, `method`,
/// `path`, `status` and `bytes` in that order, the host fixed, the method
/// and path drawn from the pools, the status in `200..=599` and the size
/// in `300..=50000`.
pub open spec fn is_json_access_line(r: Seq<char>) -> bool {
    exists|es: Seq<(String, Value)>, me: int, pa: int|
        #![trigger spec_json_obj(es), spec_method(me), spec_path(pa)]
        {
            &&& es.len() == 5
            &&& es[0].0@ == "host"@
            &&& es[0].1 matches Value::Str(h) && h@ == "host1.example.com"@
            &&& es[1].0@ == "method"@
            &&& 0 <= me < 4
            &&& es[1].1 matches Value::Str(m) && m@ == spec_method(me)
            &&& es[2].0@ == "path"@
            &&& 0 <= pa < 4
            &&& es[2].1 matches Value::Str(p) && p@ == spec_path(pa)
            &&& es[3].0@ == "status"@
            &&& es[3].1 matches Value::Int(st) && 200 <= st <= 599
            &&& es[4].0@ == "bytes"@
            &&& es[4].1 matches Value::Int(b) && 300 <= b <= 50_000
            &&& r == spec_json_obj(es)
        }
}

/// A JSON access record with the five fixed keys and drawn values.
pub fn json_line() -> (r: String)
    ensures
        is_json_access_line(r@),
{
    proof {
        reveal_strlit("host");
        reveal_strlit("method");
        reveal_strlit("path");
        reveal_strlit("status");
        reveal_strlit("bytes");
        assert("host"@.len() == 4 && "method"@.len() == 6 && "path"@.len() == 4 && "status"@.len()
            == 6 && "bytes"@.len() == 5);
        assert("host"@[0] == 'h' && "path"@[0] == 'p' && "method"@[0] == 'm' && "status"@[0]
            == 's');
        assert("host"@ != "method"@ && "host"@ != "path"@ && "host"@ != "status"@ && "host"@
            != "bytes"@);
        assert("method"@ != "path"@ && "method"@ != "status"@ && "method"@ != "bytes"@);
        assert("path"@ != "status"@ && "path"@ != "bytes"@ && "status"@ != "bytes"@);
    }
    let me = random_in_range(0, 3);
    let pa = random_in_range(0, 3);
    let status = random_in_range(200, 599);
    let size = random_in_range(300, 50_000);
    let mut e = LogEvent::new();
    e.insert(String::from_str("host"), Value::Str(String::from_str("host1.example.com")));
    e.insert(String::from_str("method"), Value::Str(String::from_str(pick_method(me))));
    e.insert(String::from_str("path"), Value::Str(String::from_str(pick_path(pa))));
    e.insert(String::from_str("status"), Value::Int(status as i64));
    e.insert(String::from_str("bytes"), Value::Int(size as i64));
    let mut out = String::new();
    emit_obj_body(&mut out, &e.fields);
    proof {
        assert(e.fields@.len() == 5);
        assert(out@ == spec_json_obj(e.fields@));
        assert(is_json_access_line(out@));
    }
    out
}

/// Wraps one generated line as a log event: the message under the
/// schema's message field, then the source type and the clock reading
/// where those fields are still free.
pub open spec fn spec_try_insert(
    m: Map<Seq<char>, Value>,
    k: Seq<char>,
    v: Value,
) -> Map<Seq<char>, Value> {
    if m.contains_key(k) {
        m
    } else {
        m.insert(k, v)
    }
}

pub fn line_to_event(line: String, schema: &LogSchema, now_ms: u64) -> (r: LogEvent)
    ensures
        r.wf(),
        r.finalizers@.len() == 0,
        exists|g: String|
            #![auto]
            g@ == "generator"@ && r.view() == spec_try_insert(
                spec_try_insert(
                    Map::<Seq<char>, Value>::empty().insert(schema.message_key@, Value::Str(line)),
                    schema.source_type_key@,
                    Value::Str(g),
                ),
                schema.timestamp_key@,
                Value::Ts(now_ms),
            ),
{
    let mut e = LogEvent::new();
    e.insert(crate::strutil::clone_string(&schema.message_key), Value::Str(line));
    let g = String::from_str("generator");
    let ghost gg = g;
    e.try_insert(crate::strutil::clone_string(&schema.source_type_key), Value::Str(g));
    e.try_insert(crate::strutil::clone_string(&schema.timestamp_key), Value::Ts(now_ms));
    proof {
        assert(gg@ == "generator"@ && e.view() == spec_try_insert(
            spec_try_insert(
                Map::<Seq<char>, Value>::empty().insert(schema.message_key@, Value::Str(line)),
                schema.source_type_key@,
                Value::Str(gg),
            ),
            schema.timestamp_key@,
            Value::Ts(now_ms),
        ));
    }
    e
}

/// The pause before tick `n`: the first tick fires at once, later ticks
/// wait one interval; a zero interval disables pacing entirely.
pub open spec fn spec_tick_delay(interval_millis: u64, n: int) -> u64 {
    if interval_millis == 0 || n == 0 {
        0u64
    } else {
        interval_millis
    }
}

/// A zero interval never pauses: the loop is bounded only by the count
/// and the shutdown signal.
pub proof fn lemma_zero_interval_disables_pacing(n: int)
    ensures
        spec_tick_delay(0, n) == 0,
{
}

/// The generator's progress: ticks emitted so far out of its budget.
pub struct SourceState {
    pub emitted: usize,
    pub count: usize,
}

/// What the surrounding loop is told to do next.
pub enum SourceAction {
    /// Pause for the given time, then generate and send line `seq_no`.
    Emit { seq_no: usize, delay_millis: u64 },
    /// Stop: budget exhausted or shutdown observed.
    Done,
}

/// One decision: shutdown and count exhaustion both stop the source; any
/// other tick emits and advances.
pub open spec fn spec_source_step(s: SourceState, interval_millis: u64, shutdown: bool) -> (
    SourceState,
    SourceAction,
) {
    if shutdown || s.emitted >= s.count {
        (s, SourceAction::Done)
    } else {
        (
            SourceState { emitted: (s.emitted + 1) as usize, count: s.count },
            SourceAction::Emit {
                seq_no: s.emitted,
                delay_millis: spec_tick_delay(interval_millis, s.emitted as int),
            },
        )
    }
}

impl SourceState {
    pub fn new(count: usize) -> (r: SourceState)
        ensures
            r.emitted == 0,
            r.count == count,
    {
        SourceState { emitted: 0, count }
    }

    /// Takes one decision for the loop around the source.
    pub fn step(&mut self, interval_millis: u64, shutdown: bool) -> (a: SourceAction)
        ensures
            (*final(self), a) == spec_source_step(*old(self), interval_millis, shutdown),
    {
        if shutdown || self.emitted >= self.count {
            SourceAction::Done
        } else {
            let seq_no = self.emitted;
            let delay_millis = if interval_millis == 0 || seq_no == 0 {
                0
            } else {
                interval_millis
            };
            self.emitted = self.emitted + 1;
            SourceAction::Emit { seq_no, delay_millis }
        }
    }
}

/// The state after a whole sequence of decisions, one shutdown reading
/// per tick.
pub open spec fn spec_source_run(s: SourceState, interval_millis: u64, flags: Seq<bool>) -> SourceState
    decreases flags.len(),
{
    if flags.len() == 0 {
        s
    } else {
        spec_source_step(
            spec_source_run(s, interval_millis, flags.drop_last()),
            interval_millis,
            flags.last(),
        ).0
    }
}

/// A zero budget yields zero events: every decision is `Done` and the
/// state never moves.
pub proof fn lemma_zero_count_yields_zero_events(
    s: SourceState,
    interval_millis: u64,
    flags: Seq<bool>,
)
    requires
        s.count == 0,
    ensures
        spec_source_run(s, interval_millis, flags) == s,
        flags.len() > 0 ==> spec_source_step(
            spec_source_run(s, interval_millis, flags.drop_last()),
            interval_millis,
            flags.last(),
        ).1 == SourceAction::Done,
    decreases flags.len(),
{
    if flags.len() > 0 {
        lemma_zero_count_yields_zero_events(s, interval_millis, flags.drop_last());
    }
}

/// The source never emits past its budget.
pub proof fn lemma_source_respects_count(s: SourceState, interval_millis: u64, flags: Seq<bool>)
    requires
        s.emitted <= s.count,
    ensures
        spec_source_run(s, interval_millis, flags).emitted <= s.count,
        spec_source_run(s, interval_millis, flags).count == s.count,
    decreases flags.len(),
{
    if flags.len() > 0 {
        lemma_source_respects_count(s, interval_millis, flags.drop_last());
    }
}

/// The pacing planned for a whole run of `count` ticks.
pub open spec fn spec_total_delay(interval_millis: u64, count: int) -> int
    decreases count,
{
    if count <= 0 {
        0
    } else {
        spec_total_delay(interval_millis, count - 1) + spec_tick_delay(interval_millis, count - 1)
    }
}

/// An uninterrupted run of `count` ticks waits `(count - 1) * interval`
/// in total: the first tick is free, every further tick costs one
/// interval.
pub proof fn lemma_total_delay_formula(interval_millis: u64, count: int)
    ensures
        spec_total_delay(interval_millis, count) == if count <= 1 {
            0
        } else {
            (count - 1) * interval_millis
        },
    decreases count,
{
    if count > 0 {
        lemma_total_delay_formula(interval_millis, count - 1);
        if count > 1 {
            assert((count - 1) * interval_millis == (count - 2) * interval_millis
                + interval_millis) by (nonlinear_arith);
        }
    }
}

/// The total planned pause for a run, or nothing exactly when it does
/// not fit the result type.
pub fn total_pacing_millis(interval_millis: u64, count: u64) -> (r: Option<u64>)
    ensures
        r is Some <==> count <= 1 || (count - 1) * interval_millis <= u64::MAX,
        r matches Some(t) ==> t as int == spec_total_delay(interval_millis, count as int),
        count <= 1 ==> r == Some(0u64),
{
    proof {
        lemma_total_delay_formula(interval_millis, count as int);
    }
    if count <= 1 {
        Some(0)
    } else {
        (count - 1).checked_mul(interval_millis)
    }
}

} // verus!
