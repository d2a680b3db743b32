//! What the host program reads from `GitHub` Actions, and the bounded signal
//! extracted from a failed step's log.
use vstd::prelude::*;

use crate::text::{
    before_first, char_uppercase, contains, ends_with, find_in, from_chars, is_uppercase,
    slice_contains, slice_range, slice_starts_with, split_once, starts_with, str_eq, to_chars,
    trim, trim_chars, trim_start, trim_start_chars, string_views,
};

verus! {

/// Workflow run header.
pub struct RunMetadata {
    pub name: String,
    pub status: String,
    pub conclusion: Option<String>,
    pub html_url: String,
}

/// One workflow job with its steps.
pub struct JobItem {
    pub id: u64,
    pub name: String,
    pub status: String,
    pub conclusion: Option<String>,
    pub html_url: String,
    pub steps: Vec<StepItem>,
}

/// One step of a job.
pub struct StepItem {
    pub name: String,
    pub conclusion: Option<String>,
}

/// One check-run annotation.
pub struct AnnotationItem {
    pub annotation_level: Option<String>,
    pub message: Option<String>,
    pub path: Option<String>,
}

/// Signal extracted from a failing job's failed-step log, bounded in size.
pub struct FailedLogSignals {
    /// Sensors the harness itself reported as failing (`FAIL  <name>`).
    pub failed_sensors: Vec<String>,
    /// Compiler/test error lines, most recent last.
    pub error_lines: Vec<String>,
}

/// Bound on retained error lines per job.
pub const ERROR_LINE_LIMIT: usize = 5;

/// Bound on retained harness `FAIL` markers per job.
pub const FAILED_SENSOR_LIMIT: usize = 5;

/// The characters that end a sensor name after `FAIL`.
pub open spec fn marker_stops() -> Seq<char> {
    seq![' ', '\t', '(', ':']
}

/// The sensor a harness `FAIL  <name>` line names: after leading
/// whitespace, `FAIL`, then whitespace, the text up to the first space, tab,
/// `(` or `:`, when it is non-empty and does not start uppercase.
pub open spec fn sensor_marker(message: Seq<char>) -> Option<Seq<char>> {
    let t = trim_start(message);
    if !starts_with(t, "FAIL"@) {
        None
    } else {
        let name = before_first(trim_start(t.subrange(4, t.len() as int)), marker_stops());
        if name.len() == 0 || char_uppercase(name[0]) {
            None
        } else {
            Some(name)
        }
    }
}

/// Extracts the sensor name from a harness `FAIL  <name>` line.
pub fn failed_sensor_marker(message: &str) -> (r: Option<String>)
    ensures
        match r {
            Some(n) => sensor_marker(message@) == Some(n@),
            None => sensor_marker(message@) is None,
        },
{
    let all = to_chars(message);
    let t = trim_start_chars(&all);
    let fail = to_chars("FAIL");
    if !slice_starts_with(&t, &fail) {
        return None;
    }
    proof {
        reveal_strlit("FAIL");
    }
    let rest0 = slice_range(&t, 4, t.len());
    let rest = trim_start_chars(&rest0);
    let stops = vec![' ', '\t', '(', ':'];
    proof {
        assert(stops@ =~= marker_stops());
    }
    let end = match find_in(&rest, 0, &stops) {
        Some(k) => k,
        None => rest.len(),
    };
    proof {
        crate::text::lemma_first_in(rest@, marker_stops());
        assert(rest@.skip(0) =~= rest@);
    }
    let name = slice_range(&rest, 0, end);
    proof {
        assert(name@ =~= before_first(rest@, marker_stops()));
    }
    if name.len() == 0 || is_uppercase(name[0]) {
        return None;
    }
    Some(from_chars(&name))
}

/// Whether a log line carries a compiler or test failure worth reporting.
pub open spec fn error_line(message: Seq<char>) -> bool {
    let t = trim(message);
    starts_with(t, "error["@) || starts_with(t, "error:"@) || contains(t, "panicked at"@) || contains(
        t,
        "assertion `left"@,
    ) || contains(t, "test failed"@) || starts_with(t, "Error: "@)
}

/// Whether a log line carries a compiler or test failure worth reporting.
pub fn is_error_line(message: &str) -> (b: bool)
    ensures
        b == error_line(message@),
{
    let all = to_chars(message);
    let t = trim_chars(&all);
    slice_starts_with(&t, &to_chars("error[")) || slice_starts_with(&t, &to_chars("error:"))
        || slice_contains(&t, &to_chars("panicked at")) || slice_contains(
        &t,
        &to_chars("assertion `left"),
    ) || slice_contains(&t, &to_chars("test failed")) || slice_starts_with(&t, &to_chars("Error: "))
}

/// The message of a `gh` log line: the `<job>\t<step>\t` prefix removed,
/// then a leading `<timestamp> ` (a token holding `T` and ending in `Z`).
/// A line without both tabs is kept whole.
pub open spec fn log_message_of(line: Seq<char>) -> Seq<char> {
    match split_once(line, '\t') {
        None => line,
        Some(a) => match split_once(a.1, '\t') {
            None => line,
            Some(b) => match split_once(b.1, ' ') {
                Some(c) => if contains(c.0, seq!['T']) && ends_with(c.0, seq!['Z']) {
                    c.1
                } else {
                    b.1
                },
                None => b.1,
            },
        },
    }
}

/// The text after the first `c` in `s`, if `c` occurs.
fn after_first(s: &Vec<char>, c: char) -> (r: Option<(Vec<char>, Vec<char>)>)
    ensures
        match r {
            Some(p) => split_once(s@, c) == Some((p.0@, p.1@)),
            None => split_once(s@, c) is None,
        },
{
    let set = vec![c];
    proof {
        assert(set@ =~= seq![c]);
        crate::text::lemma_first_in(s@, seq![c]);
        assert(s@.skip(0) =~= s@);
    }
    match find_in(s, 0, &set) {
        Some(k) => {
            let head = slice_range(s, 0, k);
            let tail = slice_range(s, k + 1, s.len());
            proof {
                assert(head@ =~= s@.take(k as int));
                assert(tail@ =~= s@.skip(k + 1));
            }
            Some((head, tail))
        },
        None => None,
    }
}

/// Strips the `<job>\t<step>\t<timestamp> ` prefix `gh` adds to log lines.
pub fn log_message(line: &str) -> (m: String)
    ensures
        m@ == log_message_of(line@),
{
    let all = to_chars(line);
    let a = match after_first(&all, '\t') {
        Some(p) => p,
        None => return from_chars(&all),
    };
    let b = match after_first(&a.1, '\t') {
        Some(p) => p,
        None => return from_chars(&all),
    };
    match after_first(&b.1, ' ') {
        Some(c) => {
            let t = vec!['T'];
            let z = vec!['Z'];
            proof {
                assert(t@ =~= seq!['T']);
                assert(z@ =~= seq!['Z']);
            }
            let ends_z = c.0.len() > 0 && c.0[c.0.len() - 1] == 'Z';
            proof {
                if c.0.len() > 0 {
                    assert(ends_with(c.0@, seq!['Z']) == (c.0@[c.0.len() - 1] == 'Z')) by {
                        if c.0@[c.0.len() - 1] == 'Z' {
                            assert(c.0@.subrange(c.0.len() - 1, c.0.len() as int) =~= seq!['Z']);
                        } else {
                            assert(c.0@.subrange(c.0.len() - 1, c.0.len() as int)[0] == c.0@[c.0.len() - 1]);
                        }
                    }
                }
            }
            if slice_contains(&c.0, &t) && ends_z {
                from_chars(&c.1)
            } else {
                from_chars(&b.1)
            }
        },
        None => from_chars(&b.1),
    }
}

/// The signal lists after observing one log message: a new `FAIL` marker is
/// kept (once each, at most five); otherwise an error line is kept trimmed,
/// dropping the oldest once five are held.
pub open spec fn observed(fs: Seq<Seq<char>>, el: Seq<Seq<char>>, m: Seq<char>) -> (Seq<Seq<char>>, Seq<Seq<char>>) {
    match sensor_marker(m) {
        Some(name) => if !fs.contains(name) && fs.len() < 5 {
            (fs.push(name), el)
        } else {
            (fs, el)
        },
        None => if !error_line(m) {
            (fs, el)
        } else {
            let kept = if el.len() == 5 {
                el.drop_first()
            } else {
                el
            };
            (fs, kept.push(trim(m)))
        },
    }
}

impl FailedLogSignals {
    /// No signals.
    pub fn new() -> (s: FailedLogSignals)
        ensures
            s.failed_sensors@.len() == 0,
            s.error_lines@.len() == 0,
    {
        FailedLogSignals { failed_sensors: Vec::new(), error_lines: Vec::new() }
    }

    /// Folds one log message into the signals. Both lists stay bounded by
    /// five entries, and a sensor is never listed twice.
    pub fn observe(&mut self, message: &str)
        ensures
            (string_views(final(self).failed_sensors@), string_views(final(self).error_lines@)) == observed(
                string_views(old(self).failed_sensors@),
                string_views(old(self).error_lines@),
                message@,
            ),
            old(self).failed_sensors@.len() <= 5 && old(self).error_lines@.len() <= 5 && string_views(
                old(self).failed_sensors@,
            ).no_duplicates() ==> final(self).failed_sensors@.len() <= 5 && final(self).error_lines@.len()
                <= 5 && string_views(final(self).failed_sensors@).no_duplicates(),
    {
        proof {
            let fs = string_views(self.failed_sensors@);
            let el = string_views(self.error_lines@);
            if fs.len() <= 5 && el.len() <= 5 && fs.no_duplicates() {
                observe_stays_bounded(fs, el, message@);
            }
        }
        match failed_sensor_marker(message) {
            Some(name) => {
                let seen = crate::text::list_has(self.failed_sensors.as_slice(), name.as_str());
                if !seen && self.failed_sensors.len() < FAILED_SENSOR_LIMIT {
                    let ghost before = self.failed_sensors@;
                    self.failed_sensors.push(name);
                    proof {
                        assert(string_views(self.failed_sensors@) =~= string_views(before).push(name@));
                    }
                }
                return;
            },
            None => {},
        }
        if !is_error_line(message) {
            return;
        }
        let ghost el = string_views(self.error_lines@);
        if self.error_lines.len() == ERROR_LINE_LIMIT {
            let ghost before = self.error_lines@;
            self.error_lines.remove(0);
            proof {
                assert(string_views(self.error_lines@) =~= string_views(before).drop_first());
            }
        }
        let ghost mid = self.error_lines@;
        let t = crate::text::trim_str(message);
        self.error_lines.push(t);
        proof {
            assert(string_views(self.error_lines@) =~= string_views(mid).push(trim(message@)));
        }
    }
}

/// Observing a message keeps both lists within five entries and keeps the
/// failed-sensor list free of repeats.
pub proof fn observe_stays_bounded(fs: Seq<Seq<char>>, el: Seq<Seq<char>>, m: Seq<char>)
    requires
        fs.len() <= 5,
        el.len() <= 5,
        fs.no_duplicates(),
    ensures
        observed(fs, el, m).0.len() <= 5,
        observed(fs, el, m).1.len() <= 5,
        observed(fs, el, m).0.no_duplicates(),
{
    match sensor_marker(m) {
        Some(name) => {
            if !fs.contains(name) && fs.len() < 5 {
                let r = fs.push(name);
                assert forall|i: int, j: int| 0 <= i < r.len() && 0 <= j < r.len() && i != j implies r[i] != r[j] by {
                    if i < fs.len() && j < fs.len() {
                    } else if i == fs.len() {
                        assert(r[j] == fs[j]);
                    } else {
                        assert(r[i] == fs[i]);
                    }
                }
            }
        },
        None => {},
    }
}

} // verus!
