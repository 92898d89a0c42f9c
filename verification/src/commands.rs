//! What the user interface's commands decide: the tracer's state, the rule
//! lists, the Frida settings and the preparation of an attach.  Locking,
//! saving and running Frida stay with the caller.
use crate::config_storage::{config_of, AppConfig, AppConfigView};
use crate::frida_manager::{path_exists, FridaManager};
use crate::models::{
    blacklist_rules_view, copy_blacklist_rules, copy_match_rules, match_rules_view, opt_text,
    processes_view, BlacklistRule, FridaConfig, FridaConfigView, MatchRule, Process, ProcessView,
    TraceEvent, TracerStatus, TracerStatusView,
};
use crate::script_generator::{
    blacklist_patterns, generate_frida_script, match_patterns, pattern_list_text, script_text,
};
use vstd::prelude::*;

verus! {

/// The state of a tracer that is not attached.
pub open spec fn initial_status(frida_available: bool) -> TracerStatusView {
    TracerStatusView {
        status: "DETACHED"@,
        target_process: None,
        events_count: 0,
        frida_available: frida_available,
    }
}

/// The state while Frida is being attached to `process`.
pub open spec fn connecting_status(s: TracerStatusView, process: ProcessView) -> TracerStatusView {
    TracerStatusView { status: "CONNECTING"@, target_process: Some(process), ..s }
}

/// The state once Frida runs.
pub open spec fn attached_status(s: TracerStatusView) -> TracerStatusView {
    TracerStatusView { status: "ATTACHED"@, ..s }
}

/// The state after detaching: no target and no events counted.
pub open spec fn detached_status(s: TracerStatusView) -> TracerStatusView {
    TracerStatusView { status: "DETACHED"@, target_process: None, events_count: 0, ..s }
}

/// The state after the event log was cleared.
pub open spec fn cleared_status(s: TracerStatusView) -> TracerStatusView {
    TracerStatusView { events_count: 0, ..s }
}

/// The state after Frida's availability was looked up anew and found to be
/// `available`.
pub open spec fn refreshed_status(s: TracerStatusView, available: bool) -> TracerStatusView {
    TracerStatusView { frida_available: available, ..s }
}

/// The state after a run of the steps that leave an attach in place: `None`
/// clears the event log, `Some(b)` records an availability lookup that gave
/// `b`.
pub open spec fn after_steps(s: TracerStatusView, steps: Seq<Option<bool>>) -> TracerStatusView
    decreases steps.len(),
{
    if steps.len() == 0 {
        s
    } else {
        let t = after_steps(s, steps.drop_last());
        match steps.last() {
            None => cleared_status(t),
            Some(b) => refreshed_status(t, b),
        }
    }
}

impl TracerStatus {
    /// The state at start-up.
    pub fn initial(frida_available: bool) -> (r: Self)
        ensures
            r@ == initial_status(frida_available),
    {
        TracerStatus {
            status: String::from_str("DETACHED"),
            target_process: None,
            events_count: 0,
            frida_available,
        }
    }

    /// Frida is being attached to `process`.
    pub fn begin_attach(&mut self, process: Process)
        ensures
            final(self)@ == connecting_status(old(self)@, process@),
    {
        self.status = String::from_str("CONNECTING");
        self.target_process = Some(process);
    }

    /// Frida runs.
    pub fn mark_attached(&mut self)
        ensures
            final(self)@ == attached_status(old(self)@),
    {
        self.status = String::from_str("ATTACHED");
    }

    /// Frida was stopped.
    pub fn detach(&mut self)
        ensures
            final(self)@ == detached_status(old(self)@),
    {
        self.status = String::from_str("DETACHED");
        self.target_process = None;
        self.events_count = 0;
    }

    /// The event log was cleared.
    pub fn clear_events(&mut self)
        ensures
            final(self)@ == cleared_status(old(self)@),
    {
        self.events_count = 0;
    }

    /// A copy of this state.
    pub fn duplicate(&self) -> (r: Self)
        ensures
            r@ == self@,
    {
        TracerStatus {
            status: self.status.clone(),
            target_process: match &self.target_process {
                Some(p) => Some(p.duplicate()),
                None => None,
            },
            events_count: self.events_count,
            frida_available: self.frida_available,
        }
    }
}

/// Detaching ends in the start-up state, whatever the tracer was doing, and
/// detaching again changes nothing; an attach followed by a detach leaves
/// the same state as a detach alone.
pub proof fn law_detach_resets(s: TracerStatusView, p: ProcessView)
    ensures
        detached_status(s) == initial_status(s.frida_available),
        detached_status(detached_status(s)) == detached_status(s),
        detached_status(attached_status(connecting_status(s, p))) == detached_status(s),
{
}

/// Once Frida runs for `p`, the tracer stays attached to `p` through any
/// clearing of the event log and any availability lookup, whatever happens
/// to the Frida process meanwhile: only a detach leaves that state, and it
/// ends in the start-up state.
pub proof fn law_attached_until_detach(s: TracerStatusView, p: ProcessView, steps: Seq<Option<bool>>)
    ensures
        after_steps(attached_status(connecting_status(s, p)), steps).status == "ATTACHED"@,
        after_steps(attached_status(connecting_status(s, p)), steps).target_process == Some(p),
        detached_status(after_steps(attached_status(connecting_status(s, p)), steps))
            == initial_status(after_steps(attached_status(connecting_status(s, p)), steps).frida_available),
    decreases steps.len(),
{
    if steps.len() > 0 {
        law_attached_until_detach(s, p, steps.drop_last());
    }
}

/// Clearing the event log twice is clearing it once, and a cleared log
/// counts no events.
pub proof fn law_clear_idempotent(s: TracerStatusView)
    ensures
        cleared_status(cleared_status(s)) == cleared_status(s),
        cleared_status(s).events_count == 0,
{
}

/// The Frida settings in use (`check_frida_installation`).
pub fn check_frida_installation(manager: &FridaManager) -> (r: FridaConfig)
    ensures
        r@ == manager.config@,
{
    manager.config.duplicate()
}

/// The Frida settings a `set_frida_config` request asks for.
pub open spec fn requested_frida_config(frida_path: Option<Seq<char>>, device_id: Seq<char>) -> FridaConfigView {
    FridaConfigView { frida_path: frida_path, device_id: Some(device_id), spawn_mode: false }
}

/// A `set_frida_config` request is refused: its path is set and not empty,
/// and no file was found there.
pub open spec fn frida_path_refused(frida_path: Option<Seq<char>>, path_found: bool) -> bool {
    frida_path matches Some(p) && p.len() > 0 && !path_found
}

/// A path that the check found is never refused, nor is an unset or empty
/// one; a set, non-empty path that the check did not find always is.
pub proof fn law_found_path_accepted(frida_path: Option<Seq<char>>, path_found: bool)
    ensures
        path_found ==> !frida_path_refused(frida_path, path_found),
        (frida_path is None || frida_path.unwrap().len() == 0) ==> !frida_path_refused(
            frida_path,
            path_found,
        ),
        frida_path is Some && frida_path.unwrap().len() > 0 && !path_found ==> frida_path_refused(
            frida_path,
            path_found,
        ),
{
}

/// Applies new Frida settings, given whether the requested executable was
/// found on disk, and gives back the configuration to save.  A path that is
/// set, not empty and not found is refused with
/// `Frida path does not exist: <path>`, and nothing changes.
pub fn apply_frida_config(
    manager: &mut FridaManager,
    frida_path: Option<String>,
    device_id: String,
    path_found: bool,
    match_rules: &Vec<MatchRule>,
    blacklist_rules: &Vec<BlacklistRule>,
) -> (r: Result<AppConfig, String>)
    ensures
        r is Err <==> frida_path_refused(opt_text(frida_path), path_found),
        r matches Err(m) ==> final(manager).config@ == old(manager).config@ && m@
            == "Frida path does not exist: "@ + frida_path.unwrap()@,
        r matches Ok(c) ==> final(manager).config@ == requested_frida_config(
            opt_text(frida_path),
            device_id@,
        ) && c@ == (AppConfigView {
            frida_config: requested_frida_config(opt_text(frida_path), device_id@),
            match_rules: match_rules_view(match_rules@),
            blacklist_rules: blacklist_rules_view(blacklist_rules@),
        }),
{
    if let Some(path) = &frida_path {
        if !path.as_str().is_empty() && !path_found {
            let mut m = String::from_str("Frida path does not exist: ");
            m.append(path.as_str());
            return Err(m);
        }
    }
    let config = FridaConfig {
        frida_path: crate::models::copy_opt_text(&frida_path),
        device_id: Some(device_id.clone()),
        spawn_mode: false,
    };
    manager.update_config(config);
    let saved = FridaConfig { frida_path, device_id: Some(device_id), spawn_mode: false };
    Ok(config_of(&saved, match_rules, blacklist_rules))
}

/// Applies new Frida settings after checking on disk that a given executable
/// exists (see `apply_frida_config`); an unset or empty path is not checked.
pub fn set_frida_config(
    manager: &mut FridaManager,
    frida_path: Option<String>,
    device_id: String,
    match_rules: &Vec<MatchRule>,
    blacklist_rules: &Vec<BlacklistRule>,
) -> (r: Result<AppConfig, String>)
    ensures
        (frida_path is None || frida_path.unwrap()@.len() == 0) ==> r is Ok,
        r matches Err(m) ==> final(manager).config@ == old(manager).config@ && (frida_path matches Some(
            p,
        ) && p@.len() > 0 && m@ == "Frida path does not exist: "@ + p@),
        r matches Ok(c) ==> final(manager).config@ == requested_frida_config(
            opt_text(frida_path),
            device_id@,
        ) && c@ == (AppConfigView {
            frida_config: requested_frida_config(opt_text(frida_path), device_id@),
            match_rules: match_rules_view(match_rules@),
            blacklist_rules: blacklist_rules_view(blacklist_rules@),
        }),
{
    let path_found = match &frida_path {
        Some(path) => path.as_str().is_empty() || path_exists(path.as_str()),
        None => true,
    };
    apply_frida_config(manager, frida_path, device_id, path_found, match_rules, blacklist_rules)
}

/// The first process of the list with the given pid.
pub open spec fn process_with_pid(ps: Seq<ProcessView>, pid: u32) -> Option<ProcessView>
    decreases ps.len(),
{
    if ps.len() == 0 {
        None
    } else if ps[0].pid == pid {
        Some(ps[0])
    } else {
        process_with_pid(ps.drop_first(), pid)
    }
}

/// The first process of the list with the given pid, if any.
pub fn find_process(processes: &Vec<Process>, pid: u32) -> (r: Option<Process>)
    ensures
        match r {
            Some(p) => process_with_pid(processes_view(processes@), pid) == Some(p@),
            None => process_with_pid(processes_view(processes@), pid) is None,
        },
{
    let n = processes.len();
    let mut i: usize = 0;
    assert(processes_view(processes@).skip(0) =~= processes_view(processes@));
    while i < n
        invariant
            n == processes@.len(),
            i <= n,
            process_with_pid(processes_view(processes@), pid) == process_with_pid(
                processes_view(processes@).skip(i as int),
                pid,
            ),
        decreases n - i,
    {
        assert(processes_view(processes@).skip(i as int).drop_first() =~= processes_view(
            processes@,
        ).skip(i + 1));
        if processes[i].pid == pid {
            return Some(processes[i].duplicate());
        }
        i = i + 1;
    }
    None
}

/// The refusal of an attach without match rules.
pub open spec fn no_match_rules_text() -> Seq<char> {
    "[!] No match rules configured!\n\nPlease add at least one match rule before attaching.\n\nExample:\n  com.zj.wuaipojie2023_1.*"@
}

/// Prepares an attach to process `pid`: the process must be listed
/// (`Process not found`) and at least one match rule configured; then the
/// tracer is connecting to that process and the agent script for the rules
/// is given back.
pub fn attach_to_process(
    processes: &Vec<Process>,
    pid: u32,
    match_rules: &Vec<MatchRule>,
    blacklist_rules: &Vec<BlacklistRule>,
    status: &mut TracerStatus,
) -> (r: Result<String, String>)
    ensures
        process_with_pid(processes_view(processes@), pid) is None ==> (r matches Err(m) && m@
            == "Process not found"@ && final(status)@ == old(status)@),
        process_with_pid(processes_view(processes@), pid) is Some && match_rules@.len() == 0
            ==> (r matches Err(m) && m@ == no_match_rules_text() && final(status)@ == old(status)@),
        process_with_pid(processes_view(processes@), pid) is Some && match_rules@.len() > 0
            ==> (r matches Ok(script) && script@ == script_text(
            pattern_list_text(match_patterns(match_rules@)),
            pattern_list_text(blacklist_patterns(blacklist_rules@)),
        ) && final(status)@ == connecting_status(
            old(status)@,
            process_with_pid(processes_view(processes@), pid).unwrap(),
        )),
{
    let process = match find_process(processes, pid) {
        Some(p) => p,
        None => return Err(String::from_str("Process not found")),
    };
    if match_rules.len() == 0 {
        return Err(
            String::from_str(
                "[!] No match rules configured!\n\nPlease add at least one match rule before attaching.\n\nExample:\n  com.zj.wuaipojie2023_1.*",
            ),
        );
    }
    status.begin_attach(process);
    Ok(generate_frida_script(match_rules.as_slice(), blacklist_rules.as_slice()))
}

/// Stops tracing: the tracer is detached.
pub fn detach_from_process(status: &mut TracerStatus) -> (r: String)
    ensures
        final(status)@ == detached_status(old(status)@),
        r@ == "Detached successfully"@,
{
    status.detach();
    String::from_str("Detached successfully")
}

/// The tracer's state, with Frida's availability looked up anew.
pub fn get_tracer_status(status: &mut TracerStatus, manager: &FridaManager) -> (r: TracerStatus)
    ensures
        final(status)@ == refreshed_status(old(status)@, r.frida_available),
        r@ == final(status)@,
        crate::frida_manager::custom_frida_path(manager.config@) is Some ==> r.frida_available,
{
    status.frida_available = manager.is_available();
    status.duplicate()
}

/// Empties the event log and its count.
pub fn clear_trace_events(events: &mut Vec<TraceEvent>, status: &mut TracerStatus)
    ensures
        final(events)@.len() == 0,
        final(status)@ == cleared_status(old(status)@),
{
    events.clear();
    status.clear_events();
}

/// A copy of the process list.
pub fn get_process_list(processes: &Vec<Process>) -> (r: Vec<Process>)
    ensures
        processes_view(r@) == processes_view(processes@),
{
    let mut r: Vec<Process> = Vec::new();
    let n = processes.len();
    let mut i: usize = 0;
    while i < n
        invariant
            n == processes@.len(),
            i <= n,
            processes_view(r@) == processes_view(processes@.take(i as int)),
        decreases n - i,
    {
        let ghost before = r@;
        let p = processes[i].duplicate();
        r.push(p);
        assert(processes_view(r@) =~= processes_view(before).push(processes@[i as int]@));
        assert(processes_view(processes@.take(i + 1)) =~= processes_view(processes@.take(i as int)).push(
            processes@[i as int]@,
        ));
        i = i + 1;
    }
    assert(processes@.take(n as int) =~= processes@);
    r
}

/// A refresh's outcome, by the views of its processes.
pub open spec fn listing_outcome(r: Result<Vec<Process>, String>) -> Result<Seq<ProcessView>, Seq<char>> {
    match r {
        Ok(v) => Ok(processes_view(v@)),
        Err(m) => Err(m@),
    }
}

/// The stored process list after a refresh that came out as `outcome`: a
/// listing replaces it, a failure leaves it.
pub open spec fn stored_after_refresh(
    stored: Seq<ProcessView>,
    outcome: Result<Seq<ProcessView>, Seq<char>>,
) -> Seq<ProcessView> {
    match outcome {
        Ok(ps) => ps,
        Err(_) => stored,
    }
}

/// The stored process list after a run of refreshes, from the empty list at
/// start-up.
pub open spec fn stored_after_refreshes(outcomes: Seq<Result<Seq<ProcessView>, Seq<char>>>) -> Seq<
    ProcessView,
>
    decreases outcomes.len(),
{
    if outcomes.len() == 0 {
        Seq::empty()
    } else {
        stored_after_refresh(stored_after_refreshes(outcomes.drop_last()), outcomes.last())
    }
}

/// Keeps the listing of a successful refresh as the stored process list and
/// hands the outcome back.
pub fn record_refresh(stored: &mut Vec<Process>, outcome: Result<Vec<Process>, String>) -> (r: Result<
    Vec<Process>,
    String,
>)
    ensures
        r == outcome,
        processes_view(final(stored)@) == stored_after_refresh(
            processes_view(old(stored)@),
            listing_outcome(outcome),
        ),
{
    match &outcome {
        Ok(ps) => {
            *stored = get_process_list(ps);
        },
        Err(_) => {},
    }
    outcome
}

proof fn lemma_last_listing(outcomes: Seq<Result<Seq<ProcessView>, Seq<char>>>, i: int)
    requires
        0 <= i < outcomes.len(),
        outcomes[i] is Ok,
        forall|j: int| i < j < outcomes.len() ==> #[trigger] outcomes[j] is Err,
    ensures
        stored_after_refreshes(outcomes) == outcomes[i]->Ok_0,
    decreases outcomes.len(),
{
    let prefix = outcomes.drop_last();
    if i < outcomes.len() - 1 {
        assert(outcomes[outcomes.len() - 1] is Err);
        assert forall|j: int| i < j < prefix.len() implies #[trigger] prefix[j] is Err by {
            assert(prefix[j] == outcomes[j]);
        }
        lemma_last_listing(prefix, i);
    }
}

proof fn lemma_no_listing(outcomes: Seq<Result<Seq<ProcessView>, Seq<char>>>)
    requires
        forall|i: int| 0 <= i < outcomes.len() ==> #[trigger] outcomes[i] is Err,
    ensures
        stored_after_refreshes(outcomes) == Seq::<ProcessView>::empty(),
    decreases outcomes.len(),
{
    if outcomes.len() > 0 {
        let prefix = outcomes.drop_last();
        assert(outcomes[outcomes.len() - 1] is Err);
        assert forall|i: int| 0 <= i < prefix.len() implies #[trigger] prefix[i] is Err by {
            assert(prefix[i] == outcomes[i]);
        }
        lemma_no_listing(prefix);
    }
}

/// The stored process list is the listing of the last refresh that
/// succeeded, whatever failed after it, and empty while none succeeded.
pub proof fn law_list_is_last_listing(outcomes: Seq<Result<Seq<ProcessView>, Seq<char>>>, i: int)
    ensures
        0 <= i < outcomes.len() && outcomes[i] is Ok && (forall|j: int|
            i < j < outcomes.len() ==> #[trigger] outcomes[j] is Err) ==> stored_after_refreshes(outcomes)
            == outcomes[i]->Ok_0,
        (forall|k: int| 0 <= k < outcomes.len() ==> #[trigger] outcomes[k] is Err)
            ==> stored_after_refreshes(outcomes) == Seq::<ProcessView>::empty(),
{
    if 0 <= i < outcomes.len() && outcomes[i] is Ok && (forall|j: int|
        i < j < outcomes.len() ==> #[trigger] outcomes[j] is Err) {
        lemma_last_listing(outcomes, i);
    }
    if forall|k: int| 0 <= k < outcomes.len() ==> #[trigger] outcomes[k] is Err {
        lemma_no_listing(outcomes);
    }
}

/// A copy of the match rules.
pub fn get_match_rules(rules: &Vec<MatchRule>) -> (r: Vec<MatchRule>)
    ensures
        match_rules_view(r@) == match_rules_view(rules@),
{
    copy_match_rules(rules)
}

/// A copy of the blacklist rules.
pub fn get_blacklist_rules(rules: &Vec<BlacklistRule>) -> (r: Vec<BlacklistRule>)
    ensures
        blacklist_rules_view(r@) == blacklist_rules_view(rules@),
{
    copy_blacklist_rules(rules)
}

/// Adds a match rule at the end of the list and gives back the configuration
/// to save.
pub fn add_match_rule(
    rules: &mut Vec<MatchRule>,
    pattern: String,
    rule_type: String,
    frida_config: &FridaConfig,
    blacklist_rules: &Vec<BlacklistRule>,
) -> (r: AppConfig)
    ensures
        final(rules)@ == old(rules)@.push(MatchRule { pattern: pattern, rule_type: rule_type }),
        r@ == (AppConfigView {
            frida_config: frida_config@,
            match_rules: match_rules_view(final(rules)@),
            blacklist_rules: blacklist_rules_view(blacklist_rules@),
        }),
{
    rules.push(MatchRule { pattern, rule_type });
    config_of(frida_config, rules, blacklist_rules)
}

/// Removes the match rule at `index` and gives back the configuration to
/// save; an index past the end is refused with `Index out of bounds` and
/// the list stays as it is.
pub fn remove_match_rule(
    rules: &mut Vec<MatchRule>,
    index: usize,
    frida_config: &FridaConfig,
    blacklist_rules: &Vec<BlacklistRule>,
) -> (r: Result<AppConfig, String>)
    ensures
        index < old(rules)@.len() ==> final(rules)@ == old(rules)@.remove(index as int) && (r matches Ok(
            c,
        ) && c@ == (AppConfigView {
            frida_config: frida_config@,
            match_rules: match_rules_view(final(rules)@),
            blacklist_rules: blacklist_rules_view(blacklist_rules@),
        })),
        index >= old(rules)@.len() ==> final(rules)@ == old(rules)@ && (r matches Err(m) && m@
            == "Index out of bounds"@),
{
    if index < rules.len() {
        rules.remove(index);
        Ok(config_of(frida_config, rules, blacklist_rules))
    } else {
        Err(String::from_str("Index out of bounds"))
    }
}

/// Adds a blacklist rule at the end of the list and gives back the
/// configuration to save.
pub fn add_blacklist_rule(
    rules: &mut Vec<BlacklistRule>,
    pattern: String,
    rule_type: String,
    frida_config: &FridaConfig,
    match_rules: &Vec<MatchRule>,
) -> (r: AppConfig)
    ensures
        final(rules)@ == old(rules)@.push(BlacklistRule { pattern: pattern, rule_type: rule_type }),
        r@ == (AppConfigView {
            frida_config: frida_config@,
            match_rules: match_rules_view(match_rules@),
            blacklist_rules: blacklist_rules_view(final(rules)@),
        }),
{
    rules.push(BlacklistRule { pattern, rule_type });
    config_of(frida_config, match_rules, rules)
}

/// Removes the blacklist rule at `index` and gives back the configuration to
/// save; an index past the end is refused with `Index out of bounds` and
/// the list stays as it is.
pub fn remove_blacklist_rule(
    rules: &mut Vec<BlacklistRule>,
    index: usize,
    frida_config: &FridaConfig,
    match_rules: &Vec<MatchRule>,
) -> (r: Result<AppConfig, String>)
    ensures
        index < old(rules)@.len() ==> final(rules)@ == old(rules)@.remove(index as int) && (r matches Ok(
            c,
        ) && c@ == (AppConfigView {
            frida_config: frida_config@,
            match_rules: match_rules_view(match_rules@),
            blacklist_rules: blacklist_rules_view(final(rules)@),
        })),
        index >= old(rules)@.len() ==> final(rules)@ == old(rules)@ && (r matches Err(m) && m@
            == "Index out of bounds"@),
{
    if index < rules.len() {
        rules.remove(index);
        Ok(config_of(frida_config, match_rules, rules))
    } else {
        Err(String::from_str("Index out of bounds"))
    }
}

/// Removing the rule that was just added, at the end of the list, gives the
/// list back as it was before the addition.
pub proof fn law_remove_undoes_add<T>(rules: Seq<T>, added: T)
    ensures
        rules.push(added).remove(rules.len() as int) == rules,
{
    assert(rules.push(added).remove(rules.len() as int) =~= rules);
}

} // verus!
