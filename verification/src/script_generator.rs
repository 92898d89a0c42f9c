//! Writing the Frida agent script that hooks the classes the rules select.
use crate::json::{json_string_array, strings_to_json};
use crate::models::{texts, BlacklistRule, MatchRule};
use crate::text::{chars_of, starts_with, starts_with_exec};
use vstd::prelude::*;

verus! {

/// The agent script up to the list of match patterns.
pub const SCRIPT_HEAD: &'static str = r#"
function log(text) {
    var packet = {'cmd': 'log','data': text};
    send("tracer::" + JSON.stringify(packet));
}

function enter(tid, tname, cls, method, args) {
    var packet = {'cmd': 'enter','data': [tid, tname, cls, method, args]};
    send("tracer::" + JSON.stringify(packet));
}

function exit(tid, retval) {
    var packet = {'cmd': 'exit','data': [tid, retval]};
    send("tracer::" + JSON.stringify(packet));
}

function getTid() {
    var Thread = Java.use("java.lang.Thread");
    return Thread.currentThread().getId();
}

function getTName() {
    var Thread = Java.use("java.lang.Thread");
    return Thread.currentThread().getName();
}

function traceClass(clsname) {
    try {
        var target = Java.use(clsname);
        var methods = target.class.getDeclaredMethods();
        var hookedCount = 0;
        methods.forEach(function (method) {
            var methodName = method.getName();
            // 跳过一些不需要 hook 的方法
            if (methodName.indexOf('access$') === 0 || methodName === 'toString' || methodName === 'hashCode' || methodName === 'equals') {
                return;
            }
            
            try {
                var overloads = target[methodName].overloads;
                overloads.forEach(function (overload) {
                    try {
                        var proto = "(";
                        overload.argumentTypes.forEach(function (type) {
                            proto += type.className + ", ";
                        });
                        if (proto.length > 1) {
                            proto = proto.substr(0, proto.length - 2);
                        }
                        proto += ")";
                        
                        var fullMethodName = clsname + "." + methodName + proto;
                        log("hooking: " + fullMethodName);
                        
                        // 保存原始实现的引用
                        var originalImpl = overload.implementation;
                        
                        overload.implementation = function () {
                            var args = [];
                            var tid = getTid();
                            var tName = getTName();
                            for (var j = 0; j < arguments.length; j++) {
                                try {
                                    args[j] = arguments[j] + "";
                                } catch (e) {
                                    args[j] = "[Object]";
                                }
                            }
                            enter(tid, tName, clsname, methodName + proto, args);
                            try {
                                var retval = this[methodName].apply(this, arguments);
                                exit(tid, retval !== null && retval !== undefined ? ("" + retval) : "null");
                                return retval;
                            } catch (e) {
                                exit(tid, "[Exception: " + e + "]");
                                throw e;
                            }
                        };
                        
                        hookedCount++;
                    } catch (e) {
                        // 忽略单个重载的错误
                    }
                });
            } catch (e) {
                // 忽略单个方法的错误
            }
        });
        
        if (hookedCount > 0) {
            log("Successfully hooked " + hookedCount + " methods in " + clsname);
        }
    } catch (e) {
        log("'" + clsname + "' hook fail: " + e);
    }
}

function match(ex, text) {
    // 支持 M: 前缀（匹配模式）或直接正则表达式
    if (ex[1] == ':') {
        var mode = ex[0];
        if (mode == 'M') {
            ex = ex.substr(2, ex.length - 2);
        } else {
            log("Unknown match mode: " + mode + ", only M (match) is supported");
            return false;
        }
    }
    
    try {
        // 转义正则表达式中的特殊字符（除了 * 和 .）
        // 将 .* 转换为正则表达式的 .*
        // 将单独的 . 转义为 \.
        var regexPattern = ex
            .replace(/\./g, '\\.')  // 先转义所有点
            .replace(/\\\.\*/g, '.*');  // 然后将 \.\* 还原为 .*
        
        var regex = new RegExp(regexPattern);
        return regex.test(text);
    } catch (e) {
        log("Invalid regex pattern '" + ex + "': " + e);
        return false;
    }
}

if (Java.available) {
    Java.perform(function () {
        log('M-FTracert Start...');
        
        // 禁用 ART 优化，确保 hook 能立即生效
        try {
            Java.deoptimizeEverything();
            log("ART optimization disabled for better hooking");
        } catch (e) {
            log("Failed to disable ART optimization: " + e);
        }
        
        var matchRegEx = "#;

/// The agent script between the match patterns and the blacklist patterns.
pub const SCRIPT_MIDDLE: &'static str = r#";
        var blackRegEx = "#;

/// The agent script after the blacklist patterns.
pub const SCRIPT_TAIL: &'static str = r#";
        var hookedClasses = {};
        
        function tryHookClass(aClass) {
            // 避免重复 hook
            if (hookedClasses[aClass]) {
                return false;
            }
            
            for (var index in matchRegEx) {
                if (match(matchRegEx[index], aClass)) {
                    var is_black = false;
                    for (var i in blackRegEx) {
                        if (match(blackRegEx[i], aClass)) {
                            is_black = true;
                            log(aClass + "' black by '" + blackRegEx[i] + "'");
                            break;
                        }
                    }
                    if (is_black) {
                        break;
                    }
                    log(aClass + "' match by '" + matchRegEx[index] + "'");
                    traceClass(aClass);
                    hookedClasses[aClass] = true;
                    return true;
                }
            }
            return false;
        }
        
        function enumerateAndHook() {
            var count = 0;
            var checked = 0;
            Java.enumerateLoadedClasses({
                onMatch: function (aClass) {
                    checked++;
                    if (tryHookClass(aClass)) {
                        count++;
                    }
                },
                onComplete: function () {
                    log("Checked " + checked + " classes, hooked " + count + " classes in this round");
                }
            });
            return count;
        }
        
        // 第一次枚举
        var initialCount = enumerateAndHook();
        log("Initial enumeration complete. Hooked " + initialCount + " classes.");
        
        // 强制刷新所有已 hook 的类
        try {
            Java.deoptimizeBootImage();
            log("Boot image deoptimized");
        } catch (e) {
            // 忽略错误
        }
        
        // 延迟重新枚举，捕获延迟加载的类
        setTimeout(function() {
            log("Re-enumerating classes after 3 seconds...");
            var newCount = enumerateAndHook();
            if (newCount > 0) {
                log("Found and hooked " + newCount + " new classes");
            }
        }, 3000);
        
        // 再次延迟枚举
        setTimeout(function() {
            log("Re-enumerating classes after 8 seconds...");
            var newCount = enumerateAndHook();
            if (newCount > 0) {
                log("Found and hooked " + newCount + " new classes");
            }
            log("All hooks installed and ready!");
        }, 8000);
        
        // 监听新加载的类（备用方案）
        try {
            var DexClassLoader = Java.use("dalvik.system.BaseDexClassLoader");
            var originalLoadClass = DexClassLoader.loadClass.overload("java.lang.String");
            originalLoadClass.implementation = function(className) {
                var result = originalLoadClass.call(this, className);
                // 异步尝试 hook，避免阻塞类加载
                setTimeout(function() {
                    tryHookClass(className);
                }, 10);
                return result;
            };
            log("ClassLoader monitor installed");
        } catch (e) {
            log("ClassLoader monitor failed: " + e);
        }
        
        log("M-FTracert ready. Monitoring for method calls...");
        log("IMPORTANT: Wait at least 10 seconds before testing to ensure all hooks are active!");
    });
}
"#;

/// A rule pattern as the agent's `match` function reads it: with the `M:`
/// (match mode) prefix, added where the pattern does not already have it.
pub open spec fn with_match_prefix(p: Seq<char>) -> Seq<char> {
    if starts_with(p, "M:"@) {
        p
    } else {
        "M:"@ + p
    }
}

/// The prefixed patterns of the match rules.
pub open spec fn match_patterns(rules: Seq<MatchRule>) -> Seq<Seq<char>> {
    rules.map_values(|r: MatchRule| with_match_prefix(r.pattern@))
}

/// The prefixed patterns of the blacklist rules.
pub open spec fn blacklist_patterns(rules: Seq<BlacklistRule>) -> Seq<Seq<char>> {
    rules.map_values(|r: BlacklistRule| with_match_prefix(r.pattern@))
}

/// The JSON array text of a pattern list.
pub open spec fn pattern_list_text(patterns: Seq<Seq<char>>) -> Seq<char> {
    json_string_array(patterns)
}

/// The agent script for the given pattern lists.
pub open spec fn script_text(match_list: Seq<char>, black_list: Seq<char>) -> Seq<char> {
    SCRIPT_HEAD@ + match_list + SCRIPT_MIDDLE@ + black_list + SCRIPT_TAIL@
}

/// `p` with the `M:` prefix.
pub fn prefixed_pattern(p: &String) -> (r: String)
    ensures
        r@ == with_match_prefix(p@),
{
    let cs = chars_of(p.as_str());
    let marker = chars_of("M:");
    if starts_with_exec(&cs, &marker) {
        p.clone()
    } else {
        let mut r = String::from_str("M:");
        r.append(p.as_str());
        r
    }
}

fn match_pattern_list(rules: &[MatchRule]) -> (r: Vec<String>)
    ensures
        texts(r@) == match_patterns(rules@),
{
    let mut r: Vec<String> = Vec::new();
    let n = rules.len();
    let mut i: usize = 0;
    while i < n
        invariant
            n == rules@.len(),
            i <= n,
            texts(r@) == match_patterns(rules@.take(i as int)),
        decreases n - i,
    {
        let ghost before = r@;
        let p = prefixed_pattern(&rules[i].pattern);
        r.push(p);
        assert(texts(r@) =~= texts(before).push(with_match_prefix(rules@[i as int].pattern@)));
        assert(match_patterns(rules@.take(i + 1)) =~= match_patterns(rules@.take(i as int)).push(
            with_match_prefix(rules@[i as int].pattern@),
        ));
        i = i + 1;
    }
    assert(rules@.take(n as int) =~= rules@);
    r
}

fn blacklist_pattern_list(rules: &[BlacklistRule]) -> (r: Vec<String>)
    ensures
        texts(r@) == blacklist_patterns(rules@),
{
    let mut r: Vec<String> = Vec::new();
    let n = rules.len();
    let mut i: usize = 0;
    while i < n
        invariant
            n == rules@.len(),
            i <= n,
            texts(r@) == blacklist_patterns(rules@.take(i as int)),
        decreases n - i,
    {
        let ghost before = r@;
        let p = prefixed_pattern(&rules[i].pattern);
        r.push(p);
        assert(texts(r@) =~= texts(before).push(with_match_prefix(rules@[i as int].pattern@)));
        assert(blacklist_patterns(rules@.take(i + 1)) =~= blacklist_patterns(rules@.take(i as int)).push(
            with_match_prefix(rules@[i as int].pattern@),
        ));
        i = i + 1;
    }
    assert(rules@.take(n as int) =~= rules@);
    r
}

/// The JSON text of a pattern list; `[]` stands in should the writer fail.
fn pattern_list_json(patterns: &Vec<String>) -> (r: String)
    ensures
        r@ == pattern_list_text(texts(patterns@)),
{
    match strings_to_json(patterns) {
        Some(t) => t,
        None => String::from_str("[]"),
    }
}

/// The Frida agent script that traces the classes the match rules select and
/// the blacklist rules do not exclude.  Every pattern goes into the script
/// with the `M:` prefix, each list as a JSON array.
pub fn generate_frida_script(match_rules: &[MatchRule], blacklist_rules: &[BlacklistRule]) -> (r: String)
    ensures
        r@ == script_text(
            pattern_list_text(match_patterns(match_rules@)),
            pattern_list_text(blacklist_patterns(blacklist_rules@)),
        ),
{
    let match_list = pattern_list_json(&match_pattern_list(match_rules));
    let black_list = pattern_list_json(&blacklist_pattern_list(blacklist_rules));
    let mut script = String::from_str(SCRIPT_HEAD);
    script.append(match_list.as_str());
    script.append(SCRIPT_MIDDLE);
    script.append(black_list.as_str());
    script.append(SCRIPT_TAIL);
    script
}

/// Every pattern reaches the agent with the `M:` prefix, and a pattern that
/// has it is left as it is: prefixing twice is prefixing once.  The pattern
/// itself is kept whole behind the prefix.
pub proof fn law_match_prefix(p: Seq<char>)
    ensures
        starts_with(with_match_prefix(p), "M:"@),
        with_match_prefix(with_match_prefix(p)) == with_match_prefix(p),
        starts_with(p, "M:"@) ==> with_match_prefix(p) == p,
        !starts_with(p, "M:"@) ==> with_match_prefix(p) == "M:"@ + p,
{
    let m = "M:"@;
    if !starts_with(p, m) {
        assert(("M:"@ + p).take(m.len() as int) =~= m);
    }
}

/// Each rule reaches the script in its own place: the pattern lists have one
/// entry per rule, in the order of the rules, and entry `i` is the prefixed
/// pattern of rule `i`.
pub proof fn law_patterns_follow_rules(match_rules: Seq<MatchRule>, blacklist_rules: Seq<BlacklistRule>)
    ensures
        match_patterns(match_rules).len() == match_rules.len(),
        blacklist_patterns(blacklist_rules).len() == blacklist_rules.len(),
        forall|i: int|
            0 <= i < match_rules.len() ==> #[trigger] match_patterns(match_rules)[i] == with_match_prefix(
                match_rules[i].pattern@,
            ),
        forall|i: int|
            0 <= i < blacklist_rules.len() ==> #[trigger] blacklist_patterns(blacklist_rules)[i]
                == with_match_prefix(blacklist_rules[i].pattern@),
{
}

} // verus!
