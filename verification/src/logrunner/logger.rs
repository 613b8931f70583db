use vstd::prelude::*;

verus! {

/// The level of a log record, from the most to the least severe.
#[derive(Clone, Copy, PartialEq, Eq, Structural, Debug)]
pub enum LogLevel {
    Error,
    Warn,
    Info,
    Debug,
    Trace,
}

/// How verbose a level is: 1 for errors up to 5 for traces.
pub open spec fn rank(l: LogLevel) -> int {
    match l {
        LogLevel::Error => 1,
        LogLevel::Warn => 2,
        LogLevel::Info => 3,
        LogLevel::Debug => 4,
        LogLevel::Trace => 5,
    }
}

fn rank_of(l: LogLevel) -> (r: u8)
    ensures
        r == rank(l),
{
    match l {
        LogLevel::Error => 1,
        LogLevel::Warn => 2,
        LogLevel::Info => 3,
        LogLevel::Debug => 4,
        LogLevel::Trace => 5,
    }
}

fn same_chars(a: &str, b: &str) -> (r: bool)
    ensures
        r == (a@ == b@),
{
    let n = a.unicode_len();
    if n != b.unicode_len() {
        return false;
    }
    let mut i: usize = 0;
    while i < n
        invariant
            n == a@.len(),
            n == b@.len(),
            i <= n,
            forall|j: int| 0 <= j < i ==> a@[j] == b@[j],
        decreases n - i,
    {
        if a.get_char(i) != b.get_char(i) {
            return false;
        }
        i = i + 1;
    }
    assert(a@ =~= b@);
    true
}

/// The level a `LOG` setting names; a setting that names none gives warnings.
pub open spec fn level_named(name: Seq<char>) -> LogLevel {
    if name == "error"@ {
        LogLevel::Error
    } else if name == "warn"@ {
        LogLevel::Warn
    } else if name == "info"@ {
        LogLevel::Info
    } else if name == "debug"@ {
        LogLevel::Debug
    } else if name == "trace"@ {
        LogLevel::Trace
    } else {
        LogLevel::Warn
    }
}

/// The level the `LOG` setting `setting` asks for, if it is set.
pub fn level_override(setting: Option<&str>) -> (r: Option<LogLevel>)
    ensures
        match setting {
            None => r is None,
            Some(s) => r == Some(level_named(s@)),
        },
{
    match setting {
        None => None,
        Some(s) => Some(
            if same_chars(s, "error") {
                LogLevel::Error
            } else if same_chars(s, "warn") {
                LogLevel::Warn
            } else if same_chars(s, "info") {
                LogLevel::Info
            } else if same_chars(s, "debug") {
                LogLevel::Debug
            } else if same_chars(s, "trace") {
                LogLevel::Trace
            } else {
                LogLevel::Warn
            },
        ),
    }
}

/// How many records the window keeps.
pub const LOG_WINDOW: usize = 200;

/// A log record: its level, the module it comes from and its text.
pub type LogRecord = (LogLevel, Option<String>, String);

/// A logger that, unless a level is set, keeps a window of the last records
/// and shows them when an error comes; warnings and errors show at once.
pub struct LogWindow {
    pub level: Option<LogLevel>,
    pub buffer: Vec<LogRecord>,
}

fn copy_record(r: &LogRecord) -> (c: LogRecord)
    ensures
        c == *r,
{
    let module = match &r.1 {
        Some(m) => Some(m.clone()),
        None => None,
    };
    (r.0, module, r.2.clone())
}

impl LogWindow {
    pub fn new(level: Option<LogLevel>) -> (r: Self)
        ensures
            r.level == level,
            r.buffer@.len() == 0,
    {
        LogWindow { level, buffer: Vec::new() }
    }

    /// Whether records of `level` are wanted: with a level set, those at
    /// most as verbose as it; else all.
    pub fn enabled(&self, level: LogLevel) -> (r: bool)
        ensures
            r == match self.level {
                Some(l) => rank(l) >= rank(level),
                None => true,
            },
    {
        match self.level {
            Some(l) => rank_of(l) >= rank_of(level),
            None => true,
        }
    }

    /// Takes a record; gives the records to show now, in order.
    pub fn log(&mut self, record: LogRecord) -> (shown: Vec<LogRecord>)
        ensures
            old(self).buffer@.len() <= LOG_WINDOW ==> final(self).buffer@.len() <= LOG_WINDOW,
            old(self).level is Some ==> shown@ == seq![record] && *final(self) == *old(self),
            old(self).level is None ==> final(self).level is None && if record.0 == LogLevel::Error {
                shown@ == old(self).buffer@.push(record) && final(self).buffer@.len() == 0
            } else {
                let pushed = old(self).buffer@.push(record);
                &&& final(self).buffer@ == if pushed.len() > LOG_WINDOW {
                    pushed.drop_first()
                } else {
                    pushed
                }
                &&& shown@ == if record.0 == LogLevel::Warn {
                    seq![record]
                } else {
                    Seq::<LogRecord>::empty()
                }
            },
    {
        let mut shown: Vec<LogRecord> = Vec::new();
        if self.level.is_some() {
            shown.push(record);
            return shown;
        }
        let level = record.0;
        if level == LogLevel::Error {
            std::mem::swap(&mut shown, &mut self.buffer);
        } else {
            let copy = copy_record(&record);
            self.buffer.push(copy);
            if self.buffer.len() > LOG_WINDOW {
                self.buffer.remove(0);
            }
        }
        if rank_of(level) <= 2 {
            shown.push(record);
        }
        proof {
            if level != LogLevel::Error {
                let pushed = old(self).buffer@.push(record);
                if pushed.len() > LOG_WINDOW {
                    assert(self.buffer@ =~= pushed.drop_first());
                }
            }
        }
        shown
    }
}

} // verus!
