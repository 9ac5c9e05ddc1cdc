//! Log levels and the injected logging capability.
//!
//! The process-wide tracing subscriber is configured by the surrounding
//! runtime; this module holds what is decided here: the level names and
//! their case-insensitive parsing, and a logger handle components can be
//! handed without a process-wide subsystem.

use vstd::prelude::*;

verus! {

/// The logging verbosity levels, from silent to most verbose. `Detail`
/// is `Trace` without the usual suppression of chatty dependencies.
#[derive(Clone, Copy, PartialEq, Eq, Structural, Debug, Default)]
pub enum LogLevel {
    #[default]
    Off,
    Error,
    Warn,
    Info,
    Debug,
    Trace,
    Detail,
}

/// The code of `c` with an ASCII capital folded to its small letter.
pub open spec fn lower_code(c: char) -> u32 {
    if 65 <= c as u32 && c as u32 <= 90 {
        (c as u32 + 32) as u32
    } else {
        c as u32
    }
}

/// The two texts are equal up to ASCII case.
pub open spec fn ci_eq(a: Seq<char>, b: Seq<char>) -> bool {
    a.len() == b.len() && forall|i: int| 0 <= i < a.len() ==> lower_code(a[i]) == lower_code(b[i])
}

/// Whether the two texts are equal up to ASCII case.
fn ci_match(s: &str, pat: &str) -> (r: bool)
    ensures
        r == ci_eq(s@, pat@),
{
    let n = s.unicode_len();
    if n != pat.unicode_len() {
        return false;
    }
    let mut i: usize = 0;
    while i < n
        invariant
            n == s@.len(),
            n == pat@.len(),
            0 <= i <= n,
            forall|j: int| 0 <= j < i ==> lower_code(s@[j]) == lower_code(pat@[j]),
        decreases n - i,
    {
        let a = s.get_char(i) as u32;
        let b = pat.get_char(i) as u32;
        let la = if 65 <= a && a <= 90 {
            a + 32
        } else {
            a
        };
        let lb = if 65 <= b && b <= 90 {
            b + 32
        } else {
            b
        };
        if la != lb {
            return false;
        }
        i = i + 1;
    }
    true
}

impl LogLevel {
    /// Parse a level name, ignoring ASCII case; any other text is
    /// rejected and handed back.
    pub fn from_str(s: &str) -> (r: Result<LogLevel, String>)
        ensures
            (match r {
                Ok(LogLevel::Error) => ci_eq(s@, "error"@),
                Ok(LogLevel::Warn) => ci_eq(s@, "warn"@),
                Ok(LogLevel::Info) => ci_eq(s@, "info"@),
                Ok(LogLevel::Debug) => ci_eq(s@, "debug"@),
                Ok(LogLevel::Trace) => ci_eq(s@, "trace"@),
                Ok(LogLevel::Detail) => ci_eq(s@, "detail"@),
                Ok(LogLevel::Off) => ci_eq(s@, "off"@),
                Err(e) => !ci_eq(s@, "error"@) && !ci_eq(s@, "warn"@) && !ci_eq(s@, "info"@)
                    && !ci_eq(s@, "debug"@) && !ci_eq(s@, "trace"@) && !ci_eq(s@, "detail"@)
                    && !ci_eq(s@, "off"@) && e@ == s@,
            }),
    {
        if ci_match(s, "error") {
            Ok(LogLevel::Error)
        } else if ci_match(s, "warn") {
            Ok(LogLevel::Warn)
        } else if ci_match(s, "info") {
            Ok(LogLevel::Info)
        } else if ci_match(s, "debug") {
            Ok(LogLevel::Debug)
        } else if ci_match(s, "trace") {
            Ok(LogLevel::Trace)
        } else if ci_match(s, "detail") {
            Ok(LogLevel::Detail)
        } else if ci_match(s, "off") {
            Ok(LogLevel::Off)
        } else {
            Err(s.to_owned())
        }
    }
}

/// An injected logging capability: components log through a handle they
/// were handed instead of a process-wide subsystem. This one records the
/// messages it accepts; the surrounding runtime drains them to wherever
/// its sink writes.
pub struct DynLogger {
    pub enabled: bool,
    pub entries: Vec<String>,
}

impl DynLogger {
    /// A logger that keeps every message handed to it.
    pub fn new() -> (r: DynLogger)
        ensures
            r.enabled,
            r.entries@.len() == 0,
    {
        DynLogger { enabled: true, entries: Vec::new() }
    }

    /// A logger that drops everything.
    pub fn empty() -> (r: DynLogger)
        ensures
            !r.enabled,
            r.entries@.len() == 0,
    {
        DynLogger { enabled: false, entries: Vec::new() }
    }

    pub fn log(&mut self, msg: String)
        ensures
            final(self).enabled == old(self).enabled,
            old(self).enabled ==> final(self).entries@ == old(self).entries@.push(msg),
            !old(self).enabled ==> final(self).entries@ == old(self).entries@,
    {
        if self.enabled {
            self.entries.push(msg);
        }
    }
}

} // verus!
