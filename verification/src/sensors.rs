//! Parser for the hardware-sensor listing: the probe's text is scanned line
//! by line; a non-indented line without a colon names the current device,
//! a line with a colon yields one reading under that device, and indented,
//! parenthesized or blank lines are annotations to be ignored.
use vstd::prelude::*;
use vstd::string::StringExecFns;

use crate::text::{
    chars_of, chars_to_string, copy_range, eq_ignore_case, find_char, first_token,
    lemma_spec_find, push_decimal, push_str_chars, slice_eq_ignore_case, spec_decimal, spec_find,
    spec_first_token, spec_trim, trim, views_of, spec_lines, split_lines,
};

verus! {

/// One sensor reading: the device header it was seen under, the normalized
/// metric name, and the first whitespace-delimited token of the value side.
pub struct SensorReading {
    pub device: String,
    pub metric_name: String,
    pub value: String,
}

/// The mathematical content of a reading.
pub struct SpecReading {
    pub device: Seq<char>,
    pub metric_name: Seq<char>,
    pub value: Seq<char>,
}

impl View for SensorReading {
    type V = SpecReading;

    open spec fn view(&self) -> SpecReading {
        SpecReading { device: self.device@, metric_name: self.metric_name@, value: self.value@ }
    }
}

/// The views of a sequence of readings.
pub open spec fn readings_view(v: Seq<SensorReading>) -> Seq<SpecReading> {
    v.map_values(|r: SensorReading| r@)
}

/// Metric-name normalization of one character: `/`, space and `.` become
/// `_`; everything else is kept.  (`+` is dropped, handled separately.)
pub open spec fn spec_subst(c: char) -> char {
    if c == '/' || c == ' ' || c == '.' {
        '_'
    } else {
        c
    }
}

/// The normalized metric name: `+` removed; `/`, space and `.` replaced by
/// `_`.  The value side is never normalized, so a reading keeps its sign.
pub open spec fn spec_normalize(s: Seq<char>) -> Seq<char>
    decreases s.len(),
{
    if s.len() == 0 {
        seq![]
    } else {
        let rest = spec_normalize(s.drop_last());
        if s.last() == '+' {
            rest
        } else {
            rest.push(spec_subst(s.last()))
        }
    }
}

fn subst(c: char) -> (r: char)
    ensures
        r == spec_subst(c),
{
    if c == '/' || c == ' ' || c == '.' {
        '_'
    } else {
        c
    }
}

fn normalize(s: &[char]) -> (r: Vec<char>)
    ensures
        r@ == spec_normalize(s@),
{
    let n = s.len();
    let mut r: Vec<char> = Vec::new();
    for i in 0..n
        invariant
            n == s@.len(),
            r@ == spec_normalize(s@.subrange(0, i as int)),
    {
        proof {
            assert(s@.subrange(0, i + 1).drop_last() =~= s@.subrange(0, i as int));
            assert(s@.subrange(0, i + 1).last() == s@[i as int]);
        }
        let c = s[i];
        if c != '+' {
            r.push(subst(c));
        }
    }
    proof {
        assert(s@.subrange(0, n as int) =~= s@);
    }
    r
}

/// A line the scanner ignores: blank, indented, or parenthesized.
pub open spec fn spec_is_skip(l: Seq<char>) -> bool {
    l.len() == 0 || l[0] == ' ' || l[0] == '('
}

/// The normalized name of a metric line whose first colon is at `ci`.
pub open spec fn spec_metric_name(l: Seq<char>, ci: int) -> Seq<char> {
    spec_normalize(l.subrange(0, ci))
}

/// The value of a metric line whose first colon is at `ci`: the first
/// whitespace-delimited token of the trimmed right-hand side.
pub open spec fn spec_metric_value(l: Seq<char>, ci: int) -> Seq<char> {
    spec_first_token(spec_trim(l.subrange(ci + 1, l.len() as int)))
}

/// The readings produced by scanning `lines` with `device` as the current
/// device header.
pub open spec fn spec_parse_rec(lines: Seq<Seq<char>>, device: Seq<char>) -> Seq<SpecReading>
    decreases lines.len(),
{
    if lines.len() == 0 {
        seq![]
    } else {
        let l = lines[0];
        let rest = lines.drop_first();
        if spec_is_skip(l) {
            spec_parse_rec(rest, device)
        } else {
            match spec_find(l, ':') {
                Some(ci) => seq![
                    SpecReading {
                        device: device,
                        metric_name: spec_metric_name(l, ci),
                        value: spec_metric_value(l, ci),
                    },
                ] + spec_parse_rec(rest, device),
                None => spec_parse_rec(rest, l),
            }
        }
    }
}

/// All readings of the probe text `s`, the device starting out empty.
pub open spec fn spec_parse(s: Seq<char>) -> Seq<SpecReading> {
    spec_parse_rec(spec_lines(s), Seq::empty())
}

/// Scans the probe's text and returns every reading with its device.
pub fn parse_sensor_output(raw: &str) -> (r: Vec<SensorReading>)
    ensures
        readings_view(r@) == spec_parse(raw@),
{
    let cs = chars_of(raw);
    let lines = split_lines(cs.as_slice());
    let mut out: Vec<SensorReading> = Vec::new();
    let mut device: Vec<char> = Vec::new();
    let n = lines.len();
    proof {
        assert(views_of(lines@).subrange(0, n as int) =~= views_of(lines@));
        assert(readings_view(out@) =~= Seq::<SpecReading>::empty());
        assert(readings_view(out@) + spec_parse(raw@) =~= spec_parse(raw@));
    }
    for i in 0..n
        invariant
            n == lines@.len(),
            views_of(lines@) == spec_lines(raw@),
            spec_parse(raw@) == readings_view(out@) + spec_parse_rec(
                views_of(lines@).subrange(i as int, n as int),
                device@,
            ),
    {
        let ghost rem = views_of(lines@).subrange(i as int, n as int);
        proof {
            assert(rem[0] == lines@[i as int]@);
            assert(rem.drop_first() =~= views_of(lines@).subrange(i + 1, n as int));
        }
        let line = &lines[i];
        let m = line.len();
        if m == 0 || line.as_slice()[0] == ' ' || line.as_slice()[0] == '(' {
            // annotation or blank line: nothing to record
        } else {
            match find_char(line.as_slice(), ':') {
                Some(ci) => {
                    proof {
                        lemma_spec_find(line@, ':');
                    }
                    let left = copy_range(line.as_slice(), 0, ci);
                    let name = normalize(left.as_slice());
                    let right = copy_range(line.as_slice(), ci + 1, m);
                    let trimmed = trim(right.as_slice());
                    let value = first_token(trimmed.as_slice());
                    let reading = SensorReading {
                        device: chars_to_string(&device),
                        metric_name: chars_to_string(&name),
                        value: chars_to_string(&value),
                    };
                    out.push(reading);
                    proof {
                        assert(readings_view(out@) =~= readings_view(out@.drop_last()) + seq![
                            out@.last()@,
                        ]);
                    }
                },
                None => {
                    device = copy_range(line.as_slice(), 0, m);
                    proof {
                        assert(line@.subrange(0, m as int) =~= line@);
                    }
                },
            }
        }
    }
    proof {
        assert(views_of(lines@).subrange(n as int, n as int) =~= Seq::<Seq<char>>::empty());
    }
    out
}

/// The value of the first reading matching the queried device and metric
/// name, both compared without regard to ASCII case.
pub open spec fn spec_query(rs: Seq<SpecReading>, chip: Seq<char>, param: Seq<char>) -> Option<
    Seq<char>,
>
    decreases rs.len(),
{
    if rs.len() == 0 {
        None
    } else if eq_ignore_case(rs[0].device, chip) && eq_ignore_case(rs[0].metric_name, param) {
        Some(rs[0].value)
    } else {
        spec_query(rs.drop_first(), chip, param)
    }
}

/// Queries that differ only in ASCII case are answered alike.
pub proof fn lemma_query_case_insensitive(
    rs: Seq<SpecReading>,
    chip1: Seq<char>,
    chip2: Seq<char>,
    param1: Seq<char>,
    param2: Seq<char>,
)
    requires
        eq_ignore_case(chip1, chip2),
        eq_ignore_case(param1, param2),
    ensures
        spec_query(rs, chip1, param1) == spec_query(rs, chip2, param2),
    decreases rs.len(),
{
    if rs.len() > 0 {
        lemma_query_case_insensitive(rs.drop_first(), chip1, chip2, param1, param2);
    }
}

/// Answers a single `(device, metric)` lookup over the probe's text;
/// `output` is `None` when the probe binary is absent, which is reported
/// as an explicit not-available string, distinguishable from a query that
/// the probe's output does not answer.
pub fn sensors(chipname: &str, param: &str, output: Option<&str>) -> (r: String)
    ensures
        match output {
            Some(out) => match spec_query(spec_parse(out@), chipname@, param@) {
                Some(v) => r@ == v,
                None => r@ == "404-Feature not found"@,
            },
            None => r@ == "404 - sensors not available"@,
        },
{
    match output {
        None => String::from_str("404 - sensors not available"),
        Some(out) => {
            let readings = parse_sensor_output(out);
            match query_readings(&readings, chipname, param) {
                Some(v) => v,
                None => String::from_str("404-Feature not found"),
            }
        },
    }
}

/// The first reading matching the queried device and metric name, both
/// compared without regard to ASCII case; `None` says the probe ran but
/// holds no such reading, which a caller can tell apart from the probe
/// being absent.
pub fn query_readings(readings: &Vec<SensorReading>, chipname: &str, param: &str) -> (r: Option<
    String,
>)
    ensures
        match spec_query(readings_view(readings@), chipname@, param@) {
            Some(v) => r matches Some(s) && s@ == v,
            None => r is None,
        },
{
    let chip = chars_of(chipname);
    let par = chars_of(param);
    let n = readings.len();
    let ghost rv = readings_view(readings@);
    proof {
        assert(rv.subrange(0, n as int) =~= rv);
    }
    for i in 0..n
        invariant
            n == readings@.len(),
            rv == readings_view(readings@),
            chip@ == chipname@,
            par@ == param@,
            spec_query(rv, chipname@, param@) == spec_query(
                rv.subrange(i as int, n as int),
                chipname@,
                param@,
            ),
    {
        proof {
            assert(rv.subrange(i as int, n as int)[0] == readings@[i as int]@);
            assert(rv.subrange(i as int, n as int).drop_first() =~= rv.subrange(i + 1, n as int));
        }
        let rd = &readings[i];
        let dev = chars_of(rd.device.as_str());
        let name = chars_of(rd.metric_name.as_str());
        if slice_eq_ignore_case(dev.as_slice(), chip.as_slice())
            && slice_eq_ignore_case(name.as_slice(), par.as_slice()) {
            return Some(rd.value.clone());
        }
    }
    None
}

/// The console line advertising one reading's URL and value.
pub open spec fn spec_url_line(host: Seq<char>, port: nat, rd: SpecReading) -> Seq<char> {
    "http://"@ + host + ":"@ + spec_decimal(port) + "/sensors/"@ + rd.device + "/"@
        + rd.metric_name + " = "@ + rd.value
}

/// Lists every discovered reading as a `http://host:port/sensors/...`
/// console line; `output` is `None` when the probe binary is absent, and
/// then nothing is listed.
pub fn show_sensors(hostname: &str, port: u16, output: Option<&str>) -> (r: Vec<String>)
    ensures
        match output {
            Some(out) => {
                let rs = spec_parse(out@);
                r@.len() == rs.len() && (forall|i: int|
                    0 <= i < rs.len() ==> r@[i]@ == spec_url_line(hostname@, port as nat, rs[i]))
            },
            None => r@.len() == 0,
        },
{
    let mut lines: Vec<String> = Vec::new();
    match output {
        None => lines,
        Some(out) => {
            let readings = parse_sensor_output(out);
            let n = readings.len();
            let ghost rv = spec_parse(out@);
            for i in 0..n
                invariant
                    n == readings@.len(),
                    readings_view(readings@) == rv,
                    lines@.len() == i,
                    forall|j: int|
                        0 <= j < i ==> lines@[j]@ == spec_url_line(hostname@, port as nat, rv[j]),
            {
                proof {
                    assert(rv[i as int] == readings@[i as int]@);
                }
                let rd = &readings[i];
                let mut l: Vec<char> = Vec::new();
                push_str_chars(&mut l, "http://");
                push_str_chars(&mut l, hostname);
                push_str_chars(&mut l, ":");
                push_decimal(&mut l, port as u128);
                push_str_chars(&mut l, "/sensors/");
                push_str_chars(&mut l, rd.device.as_str());
                push_str_chars(&mut l, "/");
                push_str_chars(&mut l, rd.metric_name.as_str());
                push_str_chars(&mut l, " = ");
                push_str_chars(&mut l, rd.value.as_str());
                proof {
                    assert(l@ =~= spec_url_line(hostname@, port as nat, rv[i as int]));
                }
                lines.push(chars_to_string(&l));
            }
            lines
        },
    }
}

} // verus!
