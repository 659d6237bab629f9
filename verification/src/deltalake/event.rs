//! Events as they arrive at the sink.
use vstd::prelude::*;
use crate::bytes::{lossy_text, to_lossy_text};
use crate::text::same;

verus! {

/// A value of an event.
#[derive(Debug, PartialEq)]
pub enum LogValue {
    /// A text, as bytes
    Bytes(Vec<u8>),
    /// An integer
    Integer(i64),
    /// A double, by its bits
    Float(u64),
    /// A truth value
    Boolean(bool),
    /// Values by name
    Object(Vec<(String, LogValue)>),
    /// A value of any other type
    Other,
    /// The absent value
    Null,
}

/// A value of an event, with the path under which it is found.
#[derive(Debug, PartialEq)]
pub struct LogEntry {
    pub path: String,
    pub value: LogValue,
    /// The value as it is displayed
    pub display: String,
}

/// A log event.
#[derive(Debug, PartialEq)]
pub struct LogEvent {
    /// What is found under each path
    pub entries: Vec<LogEntry>,
    /// The fields that hold no fields themselves, in the order of the event
    pub leaves: Vec<LogEntry>,
}

/// An event.
#[derive(Debug, PartialEq)]
pub enum Event {
    Log(LogEvent),
    /// An event that is no log event
    Other,
}

/// The first of `entries` with the path `path`.
pub open spec fn entry_at(entries: Seq<LogEntry>, path: Seq<char>) -> Option<LogEntry>
    decreases entries.len(),
{
    if entries.len() == 0 {
        None
    } else if entries[0].path@ == path {
        Some(entries[0])
    } else {
        entry_at(entries.skip(1), path)
    }
}

impl LogValue {
    /// The text that the value is.
    pub open spec fn text(self) -> Option<Seq<char>> {
        match self {
            LogValue::Bytes(bytes) => Some(lossy_text(bytes@)),
            _ => None,
        }
    }

    /// The text that the value is.
    pub fn as_str(&self) -> (r: Option<String>)
        ensures
            match r {
                Some(s) => self.text() == Some(s@),
                None => self.text() is None,
            },
    {
        match self {
            LogValue::Bytes(bytes) => Some(to_lossy_text(bytes.as_slice())),
            _ => None,
        }
    }
}

impl LogEvent {
    /// What is found under the path.
    pub open spec fn at(self, path: Seq<char>) -> Option<LogEntry> {
        entry_at(self.entries@, path)
    }

    /// The text that is found under the path.
    pub open spec fn text_at(self, path: Seq<char>) -> Option<Seq<char>> {
        match self.at(path) {
            Some(entry) => entry.value.text(),
            None => None,
        }
    }

    /// What is found under the path.
    pub fn get(&self, path: &str) -> (r: Option<&LogEntry>)
        ensures
            match r {
                Some(entry) => self.at(path@) == Some(*entry),
                None => self.at(path@) is None,
            },
    {
        let ghost all = self.entries@;
        let mut i: usize = 0;
        assert(all.skip(0) =~= all);
        while i < self.entries.len()
            invariant
                all == self.entries@,
                i <= all.len(),
                entry_at(all, path@) == entry_at(all.skip(i as int), path@),
            decreases all.len() - i,
        {
            assert(all.skip(i as int)[0] == all[i as int]);
            assert(all.skip(i as int).skip(1) =~= all.skip(i + 1));
            if same(self.entries[i].path.as_str(), path) {
                return Some(&self.entries[i]);
            }
            i += 1;
        }
        None
    }

    /// The text that is found under the path.
    pub fn get_text(&self, path: &str) -> (r: Option<String>)
        ensures
            match r {
                Some(s) => self.text_at(path@) == Some(s@),
                None => self.text_at(path@) is None,
            },
    {
        match self.get(path) {
            Some(entry) => entry.value.as_str(),
            None => None,
        }
    }
}

} // verus!
