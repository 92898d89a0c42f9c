//! The data the tracer works with, each type with its mathematical view.
use vstd::prelude::*;

verus! {

/// The text of an optional string.
pub open spec fn opt_text(o: Option<String>) -> Option<Seq<char>> {
    match o {
        Some(s) => Some(s@),
        None => None,
    }
}

/// `o`, or `d` where it is `None`.
pub open spec fn text_or(o: Option<Seq<char>>, d: Seq<char>) -> Seq<char> {
    match o {
        Some(s) => s,
        None => d,
    }
}

/// The texts of a sequence of strings.
pub open spec fn texts(v: Seq<String>) -> Seq<Seq<char>> {
    v.map_values(|s: String| s@)
}

/// The texts of an optional list of strings.
pub open spec fn opt_texts(o: Option<Vec<String>>) -> Option<Seq<Seq<char>>> {
    match o {
        Some(v) => Some(texts(v@)),
        None => None,
    }
}

/// A copy of an optional string.
pub fn copy_opt_text(o: &Option<String>) -> (r: Option<String>)
    ensures
        opt_text(r) == opt_text(*o),
{
    match o {
        Some(s) => Some(s.clone()),
        None => None,
    }
}

/// A process running on the device.
#[derive(Debug, Clone, PartialEq, Eq)]
pub struct Process {
    pub pid: u32,
    pub name: String,
    pub package: Option<String>,
}

pub struct ProcessView {
    pub pid: u32,
    pub name: Seq<char>,
    pub package: Option<Seq<char>>,
}

impl View for Process {
    type V = ProcessView;

    open spec fn view(&self) -> ProcessView {
        ProcessView { pid: self.pid, name: self.name@, package: opt_text(self.package) }
    }
}

impl Process {
    /// A copy of this process record.
    pub fn duplicate(&self) -> (r: Process)
        ensures
            r@ == self@,
    {
        Process { pid: self.pid, name: self.name.clone(), package: copy_opt_text(&self.package) }
    }
}

/// The views of a sequence of processes.
pub open spec fn processes_view(v: Seq<Process>) -> Seq<ProcessView> {
    v.map_values(|p: Process| p@)
}

/// One traced event: a log line, a method entry or a method exit.
#[derive(Debug, Clone, PartialEq, Eq)]
pub struct TraceEvent {
    pub id: String,
    pub timestamp: String,
    pub event_type: String,
    pub thread_id: Option<u32>,
    pub thread_name: Option<String>,
    pub class_name: Option<String>,
    pub method_name: Option<String>,
    pub args: Option<Vec<String>>,
    pub return_value: Option<String>,
    pub message: String,
}

pub struct TraceEventView {
    pub id: Seq<char>,
    pub timestamp: Seq<char>,
    pub event_type: Seq<char>,
    pub thread_id: Option<u32>,
    pub thread_name: Option<Seq<char>>,
    pub class_name: Option<Seq<char>>,
    pub method_name: Option<Seq<char>>,
    pub args: Option<Seq<Seq<char>>>,
    pub return_value: Option<Seq<char>>,
    pub message: Seq<char>,
}

impl View for TraceEvent {
    type V = TraceEventView;

    open spec fn view(&self) -> TraceEventView {
        TraceEventView {
            id: self.id@,
            timestamp: self.timestamp@,
            event_type: self.event_type@,
            thread_id: self.thread_id,
            thread_name: opt_text(self.thread_name),
            class_name: opt_text(self.class_name),
            method_name: opt_text(self.method_name),
            args: opt_texts(self.args),
            return_value: opt_text(self.return_value),
            message: self.message@,
        }
    }
}

/// The state of the tracer as the user interface shows it.
#[derive(Debug, Clone, PartialEq, Eq)]
pub struct TracerStatus {
    pub status: String,
    pub target_process: Option<Process>,
    pub events_count: usize,
    pub frida_available: bool,
}

pub struct TracerStatusView {
    pub status: Seq<char>,
    pub target_process: Option<ProcessView>,
    pub events_count: usize,
    pub frida_available: bool,
}

/// The view of an optional process.
pub open spec fn opt_process(o: Option<Process>) -> Option<ProcessView> {
    match o {
        Some(p) => Some(p@),
        None => None,
    }
}

impl View for TracerStatus {
    type V = TracerStatusView;

    open spec fn view(&self) -> TracerStatusView {
        TracerStatusView {
            status: self.status@,
            target_process: opt_process(self.target_process),
            events_count: self.events_count,
            frida_available: self.frida_available,
        }
    }
}

/// The pattern and kind of a match or blacklist rule.
pub struct RuleView {
    pub pattern: Seq<char>,
    pub rule_type: Seq<char>,
}

/// A rule that selects the classes to trace.
#[derive(Debug, Clone, PartialEq, Eq)]
pub struct MatchRule {
    pub pattern: String,
    pub rule_type: String,
}

impl View for MatchRule {
    type V = RuleView;

    open spec fn view(&self) -> RuleView {
        RuleView { pattern: self.pattern@, rule_type: self.rule_type@ }
    }
}

/// A rule that excludes classes from tracing.
#[derive(Debug, Clone, PartialEq, Eq)]
pub struct BlacklistRule {
    pub pattern: String,
    pub rule_type: String,
}

impl View for BlacklistRule {
    type V = RuleView;

    open spec fn view(&self) -> RuleView {
        RuleView { pattern: self.pattern@, rule_type: self.rule_type@ }
    }
}

/// The views of a sequence of match rules.
pub open spec fn match_rules_view(v: Seq<MatchRule>) -> Seq<RuleView> {
    v.map_values(|r: MatchRule| r@)
}

/// The views of a sequence of blacklist rules.
pub open spec fn blacklist_rules_view(v: Seq<BlacklistRule>) -> Seq<RuleView> {
    v.map_values(|r: BlacklistRule| r@)
}

/// A copy of a list of match rules.
pub fn copy_match_rules(v: &Vec<MatchRule>) -> (r: Vec<MatchRule>)
    ensures
        match_rules_view(r@) == match_rules_view(v@),
{
    let mut r: Vec<MatchRule> = Vec::new();
    let n = v.len();
    let mut i: usize = 0;
    while i < n
        invariant
            n == v@.len(),
            i <= n,
            match_rules_view(r@) == match_rules_view(v@.take(i as int)),
        decreases n - i,
    {
        let ghost before = r@;
        let item = MatchRule { pattern: v[i].pattern.clone(), rule_type: v[i].rule_type.clone() };
        assert(item@ == v@[i as int]@);
        r.push(item);
        assert(v@.take(i + 1) =~= v@.take(i as int).push(v@[i as int]));
        assert(match_rules_view(r@) =~= match_rules_view(before).push(item@));
        assert(match_rules_view(v@.take(i + 1)) =~= match_rules_view(v@.take(i as int)).push(v@[i as int]@));
        i = i + 1;
    }
    assert(v@.take(n as int) =~= v@);
    r
}

/// A copy of a list of blacklist rules.
pub fn copy_blacklist_rules(v: &Vec<BlacklistRule>) -> (r: Vec<BlacklistRule>)
    ensures
        blacklist_rules_view(r@) == blacklist_rules_view(v@),
{
    let mut r: Vec<BlacklistRule> = Vec::new();
    let n = v.len();
    let mut i: usize = 0;
    while i < n
        invariant
            n == v@.len(),
            i <= n,
            blacklist_rules_view(r@) == blacklist_rules_view(v@.take(i as int)),
        decreases n - i,
    {
        let ghost before = r@;
        let item = BlacklistRule { pattern: v[i].pattern.clone(), rule_type: v[i].rule_type.clone() };
        assert(item@ == v@[i as int]@);
        r.push(item);
        assert(v@.take(i + 1) =~= v@.take(i as int).push(v@[i as int]));
        assert(blacklist_rules_view(r@) =~= blacklist_rules_view(before).push(item@));
        assert(blacklist_rules_view(v@.take(i + 1)) =~= blacklist_rules_view(v@.take(i as int)).push(v@[i as int]@));
        i = i + 1;
    }
    assert(v@.take(n as int) =~= v@);
    r
}

/// How the tracer reaches Frida: its executable, the device and the mode.
#[derive(Debug, Clone, PartialEq, Eq)]
pub struct FridaConfig {
    pub frida_path: Option<String>,
    pub device_id: Option<String>,
    pub spawn_mode: bool,
}

pub struct FridaConfigView {
    pub frida_path: Option<Seq<char>>,
    pub device_id: Option<Seq<char>>,
    pub spawn_mode: bool,
}

impl View for FridaConfig {
    type V = FridaConfigView;

    open spec fn view(&self) -> FridaConfigView {
        FridaConfigView {
            frida_path: opt_text(self.frida_path),
            device_id: opt_text(self.device_id),
            spawn_mode: self.spawn_mode,
        }
    }
}

impl FridaConfig {
    /// A copy of this configuration.
    pub fn duplicate(&self) -> (r: FridaConfig)
        ensures
            r@ == self@,
    {
        FridaConfig {
            frida_path: copy_opt_text(&self.frida_path),
            device_id: copy_opt_text(&self.device_id),
            spawn_mode: self.spawn_mode,
        }
    }
}

} // verus!
