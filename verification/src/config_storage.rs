//! The saved configuration: Frida settings and the two rule lists.
use crate::models::{
    blacklist_rules_view, match_rules_view, BlacklistRule, FridaConfig, FridaConfigView, MatchRule,
    RuleView,
};
use crate::text::{chars_of, starts_with, starts_with_exec, string_of, tail_chars};
use vstd::prelude::*;

verus! {

/// Everything the tracer keeps between runs.
#[derive(Debug, Clone, PartialEq, Eq)]
pub struct AppConfig {
    pub frida_config: FridaConfig,
    pub match_rules: Vec<MatchRule>,
    pub blacklist_rules: Vec<BlacklistRule>,
}

pub struct AppConfigView {
    pub frida_config: FridaConfigView,
    pub match_rules: Seq<RuleView>,
    pub blacklist_rules: Seq<RuleView>,
}

impl View for AppConfig {
    type V = AppConfigView;

    open spec fn view(&self) -> AppConfigView {
        AppConfigView {
            frida_config: self.frida_config@,
            match_rules: match_rules_view(self.match_rules@),
            blacklist_rules: blacklist_rules_view(self.blacklist_rules@),
        }
    }
}

/// A rule with the given pattern and kind.
pub open spec fn rule_view(pattern: Seq<char>, rule_type: Seq<char>) -> RuleView {
    RuleView { pattern: pattern, rule_type: rule_type }
}

/// The configuration of a first run: the USB device, no match rules, and the
/// Android view, widget and graphics packages and `java.lang.String`
/// blacklisted.
pub open spec fn default_config_view() -> AppConfigView {
    AppConfigView {
        frida_config: FridaConfigView {
            frida_path: None,
            device_id: Some("usb"@),
            spawn_mode: false,
        },
        match_rules: Seq::empty(),
        blacklist_rules: seq![
            rule_view("android.view.*"@, "match"@),
            rule_view("android.widget.*"@, "match"@),
            rule_view("android.graphics.*"@, "match"@),
            rule_view("java.lang.String"@, "match"@),
        ],
    }
}

fn blacklist_match_rule(pattern: &str) -> (r: BlacklistRule)
    ensures
        r@ == rule_view(pattern@, "match"@),
{
    BlacklistRule { pattern: String::from_str(pattern), rule_type: String::from_str("match") }
}

impl Default for AppConfig {
    fn default() -> (r: Self)
        ensures
            r@ == default_config_view(),
    {
        let mut blacklist_rules: Vec<BlacklistRule> = Vec::new();
        blacklist_rules.push(blacklist_match_rule("android.view.*"));
        blacklist_rules.push(blacklist_match_rule("android.widget.*"));
        blacklist_rules.push(blacklist_match_rule("android.graphics.*"));
        blacklist_rules.push(blacklist_match_rule("java.lang.String"));
        let r = AppConfig {
            frida_config: FridaConfig {
                frida_path: None,
                device_id: Some(String::from_str("usb")),
                spawn_mode: false,
            },
            match_rules: Vec::new(),
            blacklist_rules,
        };
        assert(r@.match_rules =~= Seq::<RuleView>::empty());
        assert(r@.blacklist_rules =~= default_config_view().blacklist_rules);
        r
    }
}

/// A rule as an older version saved it, with the `E:` prefix that marked the
/// match mode, brought up to date: prefix dropped, kind `match`.  Other
/// rules stay as they are.
pub open spec fn migrated_rule(r: RuleView) -> RuleView {
    if starts_with(r.pattern, "E:"@) {
        RuleView { pattern: r.pattern.skip("E:"@.len() as int), rule_type: "match"@ }
    } else {
        r
    }
}

/// A configuration with every rule brought up to date.
pub open spec fn migrated_config(c: AppConfigView) -> AppConfigView {
    AppConfigView {
        frida_config: c.frida_config,
        match_rules: c.match_rules.map_values(|r: RuleView| migrated_rule(r)),
        blacklist_rules: c.blacklist_rules.map_values(|r: RuleView| migrated_rule(r)),
    }
}

/// The pattern and kind of a rule brought up to date.
fn migrate_fields(pattern: &String, rule_type: &String) -> (r: (String, String))
    ensures
        rule_view(r.0@, r.1@) == migrated_rule(rule_view(pattern@, rule_type@)),
{
    let cs = chars_of(pattern.as_str());
    let marker = chars_of("E:");
    if starts_with_exec(&cs, &marker) {
        let rest = tail_chars(&cs, marker.len());
        (string_of(&rest), String::from_str("match"))
    } else {
        (pattern.clone(), rule_type.clone())
    }
}

fn migrate_match_rules(rules: &Vec<MatchRule>) -> (r: Vec<MatchRule>)
    ensures
        match_rules_view(r@) == match_rules_view(rules@).map_values(|x: RuleView| migrated_rule(x)),
{
    let mut out: Vec<MatchRule> = Vec::new();
    let n = rules.len();
    let mut i: usize = 0;
    while i < n
        invariant
            n == rules@.len(),
            i <= n,
            match_rules_view(out@) == match_rules_view(rules@.take(i as int)).map_values(
                |x: RuleView| migrated_rule(x),
            ),
        decreases n - i,
    {
        let (pattern, rule_type) = migrate_fields(&rules[i].pattern, &rules[i].rule_type);
        let ghost before = out@;
        let item = MatchRule { pattern, rule_type };
        out.push(item);
        assert(match_rules_view(out@) =~= match_rules_view(before).push(item@));
        assert(rules@.take(i + 1) =~= rules@.take(i as int).push(rules@[i as int]));
        assert(match_rules_view(rules@.take(i + 1)).map_values(|x: RuleView| migrated_rule(x))
            =~= match_rules_view(rules@.take(i as int)).map_values(|x: RuleView| migrated_rule(x)).push(
            migrated_rule(rules@[i as int]@),
        ));
        i = i + 1;
    }
    assert(rules@.take(n as int) =~= rules@);
    out
}

fn migrate_blacklist_rules(rules: &Vec<BlacklistRule>) -> (r: Vec<BlacklistRule>)
    ensures
        blacklist_rules_view(r@) == blacklist_rules_view(rules@).map_values(
            |x: RuleView| migrated_rule(x),
        ),
{
    let mut out: Vec<BlacklistRule> = Vec::new();
    let n = rules.len();
    let mut i: usize = 0;
    while i < n
        invariant
            n == rules@.len(),
            i <= n,
            blacklist_rules_view(out@) == blacklist_rules_view(rules@.take(i as int)).map_values(
                |x: RuleView| migrated_rule(x),
            ),
        decreases n - i,
    {
        let (pattern, rule_type) = migrate_fields(&rules[i].pattern, &rules[i].rule_type);
        let ghost before = out@;
        let item = BlacklistRule { pattern, rule_type };
        out.push(item);
        assert(blacklist_rules_view(out@) =~= blacklist_rules_view(before).push(item@));
        assert(rules@.take(i + 1) =~= rules@.take(i as int).push(rules@[i as int]));
        assert(blacklist_rules_view(rules@.take(i + 1)).map_values(|x: RuleView| migrated_rule(x))
            =~= blacklist_rules_view(rules@.take(i as int)).map_values(
            |x: RuleView| migrated_rule(x),
        ).push(migrated_rule(rules@[i as int]@)));
        i = i + 1;
    }
    assert(rules@.take(n as int) =~= rules@);
    out
}

/// Brings the rules of a loaded configuration up to date (the `E:` prefix of
/// older versions becomes a `match` rule without prefix).
pub fn migrate_legacy_rules(config: &mut AppConfig)
    ensures
        final(config)@ == migrated_config(old(config)@),
{
    let m = migrate_match_rules(&config.match_rules);
    let b = migrate_blacklist_rules(&config.blacklist_rules);
    config.match_rules = m;
    config.blacklist_rules = b;
}

/// No rule of the configuration carries the `E:` prefix.
pub open spec fn has_current_rules(c: AppConfigView) -> bool {
    &&& forall|i: int|
        0 <= i < c.match_rules.len() ==> !starts_with(#[trigger] c.match_rules[i].pattern, "E:"@)
    &&& forall|i: int|
        0 <= i < c.blacklist_rules.len() ==> !starts_with(
            #[trigger] c.blacklist_rules[i].pattern,
            "E:"@,
        )
}

/// Bringing rules up to date leaves a configuration whose rules carry no
/// `E:` prefix exactly as it is: what the current version saves, it loads
/// back unchanged.
pub proof fn law_migration_keeps_current_config(c: AppConfigView)
    requires
        has_current_rules(c),
    ensures
        migrated_config(c) == c,
{
    assert(c.match_rules.map_values(|r: RuleView| migrated_rule(r)) =~= c.match_rules);
    assert(c.blacklist_rules.map_values(|r: RuleView| migrated_rule(r)) =~= c.blacklist_rules);
}

/// The first-run configuration carries no `E:` prefix, so loading it back
/// changes nothing.
pub proof fn law_default_config_is_current()
    ensures
        has_current_rules(default_config_view()),
        migrated_config(default_config_view()) == default_config_view(),
{
    reveal_strlit("E:");
    reveal_strlit("android.view.*");
    reveal_strlit("android.widget.*");
    reveal_strlit("android.graphics.*");
    reveal_strlit("java.lang.String");
    let c = default_config_view();
    assert forall|i: int|
        0 <= i < c.blacklist_rules.len() implies !starts_with(
        #[trigger] c.blacklist_rules[i].pattern,
        "E:"@,
    ) by {
        let p = c.blacklist_rules[i].pattern;
        assert(p[0] != 'E');
        assert(p.take(2)[0] != "E:"@[0]);
    }
    law_migration_keeps_current_config(c);
}

/// The configuration to save after a change: the Frida settings and both
/// rule lists as they now stand.
pub fn config_of(frida_config: &FridaConfig, match_rules: &Vec<MatchRule>, blacklist_rules: &Vec<
    BlacklistRule,
>) -> (r: AppConfig)
    ensures
        r@ == (AppConfigView {
            frida_config: frida_config@,
            match_rules: match_rules_view(match_rules@),
            blacklist_rules: blacklist_rules_view(blacklist_rules@),
        }),
{
    AppConfig {
        frida_config: frida_config.duplicate(),
        match_rules: crate::models::copy_match_rules(match_rules),
        blacklist_rules: crate::models::copy_blacklist_rules(blacklist_rules),
    }
}

} // verus!
