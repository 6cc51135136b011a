//! The in-memory model: a list of monitors, each with an optional latest
//! simulated result.

use vstd::prelude::*;

verus! {

/// The mathematical value of a `MonitorResult`.
pub ghost struct ResultView {
    pub value: int,
    pub processed_at: int,
}

/// The mathematical value of a `Monitor`.
pub ghost struct MonitorView {
    pub monitor_id: Option<int>,
    pub name: Seq<char>,
    pub script: Option<Seq<char>>,
    pub monitor_type: Option<Seq<char>>,
    pub result: Option<ResultView>,
    pub code: Seq<char>,
}

/// The simulated outcome of one update cycle for one monitor: the drawn
/// value and the Unix timestamp at which it was assigned. Both fields are
/// always written together.
#[derive(Debug)]
pub struct MonitorResult {
    pub value: i64,
    pub processed_at: i64,
}

/// One monitor record. `name` and `code` are required; the other
/// descriptive fields are optional. `result` is `None` until the first
/// update cycle completes.
#[derive(Debug)]
pub struct Monitor {
    pub monitor_id: Option<i64>,
    pub name: String,
    pub script: Option<String>,
    pub monitor_type: Option<String>,
    pub result: Option<MonitorResult>,
    pub code: String,
}

/// The whole shared store: an ordered sequence of monitors.
#[derive(Debug)]
pub struct MonitorData {
    pub monitors: Vec<Monitor>,
}

impl View for MonitorResult {
    type V = ResultView;

    open spec fn view(&self) -> ResultView {
        ResultView { value: self.value as int, processed_at: self.processed_at as int }
    }
}

impl View for Monitor {
    type V = MonitorView;

    open spec fn view(&self) -> MonitorView {
        MonitorView {
            monitor_id: match self.monitor_id {
                Some(n) => Some(n as int),
                None => None,
            },
            name: self.name@,
            script: match self.script {
                Some(ref s) => Some(s@),
                None => None,
            },
            monitor_type: match self.monitor_type {
                Some(ref s) => Some(s@),
                None => None,
            },
            result: match self.result {
                Some(ref r) => Some(r@),
                None => None,
            },
            code: self.code@,
        }
    }
}

impl View for MonitorData {
    type V = Seq<MonitorView>;

    open spec fn view(&self) -> Seq<MonitorView> {
        Seq::new(self.monitors@.len(), |i: int| self.monitors@[i]@)
    }
}

} // verus!
