//! The configuration document: allow and deny rules, scan timing, kill policy, logging.

use vstd::prelude::*;
use vstd::string::*;

use crate::text::same_text;

verus! {

/// What a rule looks at, with the value it is matched against.
#[derive(Debug, PartialEq, Eq)]
pub enum RuleType {
    /// The process name, compared without regard to ASCII case; `*` is a wildcard.
    Name { value: String },
    /// The absolute path of the executable, compared as a name is.
    Path { value: String },
    /// The SHA-256 digest of the executable, as hexadecimal text.
    Hash { sha256: String },
    /// A regular expression searched for in the command line.
    Command { pattern: String },
}

impl Clone for RuleType {
    fn clone(&self) -> (r: Self)
        ensures
            r == *self,
    {
        match self {
            RuleType::Name { value } => RuleType::Name { value: value.clone() },
            RuleType::Path { value } => RuleType::Path { value: value.clone() },
            RuleType::Hash { sha256 } => RuleType::Hash { sha256: sha256.clone() },
            RuleType::Command { pattern } => RuleType::Command { pattern: pattern.clone() },
        }
    }
}

impl RuleType {
    /// The rule type that a kind name and a value make: `name`, `path`, `hash` or
    /// `command`, or nothing for another name.
    pub open spec fn named(kind: Seq<char>, value: String) -> Option<RuleType> {
        if kind == "name"@ {
            Some(RuleType::Name { value })
        } else if kind == "path"@ {
            Some(RuleType::Path { value })
        } else if kind == "hash"@ {
            Some(RuleType::Hash { sha256: value })
        } else if kind == "command"@ {
            Some(RuleType::Command { pattern: value })
        } else {
            None
        }
    }

    /// The rule type that a kind name and a value make.
    pub fn parse(kind: &str, value: String) -> (r: Option<RuleType>)
        ensures
            r == Self::named(kind@, value),
    {
        if same_text(kind, "name") {
            Some(RuleType::Name { value })
        } else if same_text(kind, "path") {
            Some(RuleType::Path { value })
        } else if same_text(kind, "hash") {
            Some(RuleType::Hash { sha256: value })
        } else if same_text(kind, "command") {
            Some(RuleType::Command { pattern: value })
        } else {
            None
        }
    }

    /// The name of the kind of the rule type.
    pub fn kind_name(&self) -> (name: &'static str)
        ensures
            name@ == match *self {
                RuleType::Name { .. } => "name"@,
                RuleType::Path { .. } => "path"@,
                RuleType::Hash { .. } => "hash"@,
                RuleType::Command { .. } => "command"@,
            },
    {
        match self {
            RuleType::Name { .. } => "name",
            RuleType::Path { .. } => "path",
            RuleType::Hash { .. } => "hash",
            RuleType::Command { .. } => "command",
        }
    }

    /// The value that the rule type is matched against.
    pub fn value(&self) -> (v: &String)
        ensures
            *v == match *self {
                RuleType::Name { value } => value,
                RuleType::Path { value } => value,
                RuleType::Hash { sha256 } => sha256,
                RuleType::Command { pattern } => pattern,
            },
    {
        match self {
            RuleType::Name { value } => value,
            RuleType::Path { value } => value,
            RuleType::Hash { sha256 } => sha256,
            RuleType::Command { pattern } => pattern,
        }
    }
}

/// A copy of an optional string.
pub fn clone_opt(s: &Option<String>) -> (r: Option<String>)
    ensures
        r == *s,
{
    match s {
        Some(text) => Some(text.clone()),
        None => None,
    }
}

/// One allow or deny rule. A disabled rule is kept in the document and never matches.
#[derive(Debug, PartialEq, Eq)]
pub struct Rule {
    pub id: String,
    pub rule_type: RuleType,
    pub description: Option<String>,
    pub enabled: bool,
    pub severity: Option<String>,
}

impl Clone for Rule {
    fn clone(&self) -> (r: Self)
        ensures
            r == *self,
    {
        Rule {
            id: self.id.clone(),
            rule_type: self.rule_type.clone(),
            description: clone_opt(&self.description),
            enabled: self.enabled,
            severity: clone_opt(&self.severity),
        }
    }
}

impl Rule {
    /// An enabled rule without description or severity.
    pub fn new(id: &str, rule_type: RuleType) -> (r: Rule)
        ensures
            r.id@ == id@,
            r.rule_type == rule_type,
            r.description is None,
            r.enabled,
            r.severity is None,
    {
        Rule {
            id: String::from_str(id),
            rule_type,
            description: None,
            enabled: true,
            severity: None,
        }
    }
}

/// A copy of a list of rules.
pub fn clone_rules(rules: &Vec<Rule>) -> (out: Vec<Rule>)
    ensures
        out@ == rules@,
{
    let mut out: Vec<Rule> = Vec::new();
    let mut i: usize = 0;
    while i < rules.len()
        invariant
            i <= rules.len(),
            out@ == rules@.take(i as int),
        decreases rules.len() - i,
    {
        out.push(rules[i].clone());
        assert(rules@.take(i + 1) == rules@.take(i as int).push(rules@[i as int]));
        i += 1;
    }
    assert(rules@.take(rules.len() as int) == rules@);
    out
}

/// How often the processes are scanned, and what a snapshot gathers of each.
#[derive(Debug, Clone, Copy, PartialEq, Eq, Structural)]
pub struct ScanningConfig {
    pub scan_interval_ms: u64,
    pub enable_hash_check: bool,
    pub enable_command_check: bool,
}

/// How processes are killed: whether they are asked to close first and for how long
/// their exit is awaited, how long one process is left alone after an attempt, and how
/// many failed attempts it gets.
#[derive(Debug, Clone, Copy, PartialEq, Eq, Structural)]
pub struct KillPolicy {
    pub graceful_kill: bool,
    pub force_kill_timeout_ms: u64,
    pub cooldown_ms: u64,
    pub max_retry_attempts: u32,
}

/// The form of one line of the log file.
#[derive(Debug, Clone, Copy, PartialEq, Eq, Structural)]
pub enum LogFormat {
    Json,
    Text,
    Compact,
}

impl LogFormat {
    /// The format that a configuration names: `json`, `text` or `compact`.
    pub fn parse(name: &str) -> (r: Option<LogFormat>)
        ensures
            r == Self::named(name@),
    {
        if same_text(name, "json") {
            Some(LogFormat::Json)
        } else if same_text(name, "text") {
            Some(LogFormat::Text)
        } else if same_text(name, "compact") {
            Some(LogFormat::Compact)
        } else {
            None
        }
    }

    /// The format that a name stands for.
    pub open spec fn named(name: Seq<char>) -> Option<LogFormat> {
        if name == "json"@ {
            Some(LogFormat::Json)
        } else if name == "text"@ {
            Some(LogFormat::Text)
        } else if name == "compact"@ {
            Some(LogFormat::Compact)
        } else {
            None
        }
    }
}

/// Where the log file is, the form of its lines, and when it is rotated.
#[derive(Debug, PartialEq, Eq)]
pub struct LoggingConfig {
    pub file_path: String,
    pub format: LogFormat,
    pub rotation_size_mb: u64,
    pub max_files: u32,
}

impl Clone for LoggingConfig {
    fn clone(&self) -> (r: Self)
        ensures
            r == *self,
    {
        LoggingConfig {
            file_path: self.file_path.clone(),
            format: self.format,
            rotation_size_mb: self.rotation_size_mb,
            max_files: self.max_files,
        }
    }
}

/// The whole configuration. `whitelist` holds the allow rules, `blacklist` the deny
/// rules, each in declaration order.
#[derive(Debug, PartialEq, Eq)]
pub struct Config {
    pub blacklist: Vec<Rule>,
    pub whitelist: Vec<Rule>,
    pub scanning: ScanningConfig,
    pub kill_policy: KillPolicy,
    pub logging: LoggingConfig,
}

/// Whether some rule of the list is enabled.
pub open spec fn has_enabled(rules: Seq<Rule>) -> bool {
    exists|i: int| 0 <= i < rules.len() && (#[trigger] rules[i]).enabled
}

/// Whether no two rules of the list share an identifier.
pub open spec fn ids_unique(rules: Seq<Rule>) -> bool {
    forall|i: int, j: int|
        0 <= i < j < rules.len() ==> (#[trigger] rules[i]).id@ != (#[trigger] rules[j]).id@
}

/// The complaint about a document without an enabled rule.
pub open spec fn msg_no_rule() -> Seq<char> {
    "Configuration must contain at least one enabled rule"@
}

/// The complaint about a scan interval under 100 ms.
pub open spec fn msg_interval() -> Seq<char> {
    "Scan interval must be at least 100ms"@
}

/// The complaint about a force-kill timeout under 100 ms.
pub open spec fn msg_timeout() -> Seq<char> {
    "Force kill timeout must be at least 100ms"@
}

/// The complaint about two rules with one identifier.
pub open spec fn msg_duplicate_id() -> Seq<char> {
    "Rule identifiers must be unique"@
}

fn any_enabled(rules: &Vec<Rule>) -> (r: bool)
    ensures
        r == has_enabled(rules@),
{
    let mut i: usize = 0;
    while i < rules.len()
        invariant
            i <= rules.len(),
            forall|k: int| 0 <= k < i ==> !(#[trigger] rules@[k]).enabled,
        decreases rules.len() - i,
    {
        if rules[i].enabled {
            return true;
        }
        i += 1;
    }
    false
}

/// Whether `id` is the identifier of one of the first `upto` rules.
fn id_among(rules: &Vec<Rule>, upto: usize, id: &String) -> (r: bool)
    requires
        upto <= rules.len(),
    ensures
        r == exists|k: int| 0 <= k < upto && (#[trigger] rules@[k]).id@ == id@,
{
    let mut k: usize = 0;
    while k < upto
        invariant
            k <= upto <= rules.len(),
            forall|n: int| 0 <= n < k ==> (#[trigger] rules@[n]).id@ != id@,
        decreases upto - k,
    {
        if rules[k].id == *id {
            return true;
        }
        k += 1;
    }
    false
}

impl Config {
    /// All rules of the document: the allow rules, then the deny rules.
    pub open spec fn all_rules(self) -> Seq<Rule> {
        self.whitelist@ + self.blacklist@
    }

    /// The first complaint about the document, or `None` where it is valid: it needs an
    /// enabled rule, a scan interval and a force-kill timeout of at least 100 ms each,
    /// and identifiers that differ from one another.
    pub open spec fn complaint(self) -> Option<Seq<char>> {
        if !has_enabled(self.blacklist@) && !has_enabled(self.whitelist@) {
            Some(msg_no_rule())
        } else if self.scanning.scan_interval_ms < 100 {
            Some(msg_interval())
        } else if self.kill_policy.force_kill_timeout_ms < 100 {
            Some(msg_timeout())
        } else if !ids_unique(self.all_rules()) {
            Some(msg_duplicate_id())
        } else {
            None
        }
    }

    /// Whether there is nothing to complain of.
    pub open spec fn is_valid(self) -> bool {
        self.complaint() is None
    }

    fn unique_ids(&self) -> (r: bool)
        ensures
            r == ids_unique(self.all_rules()),
    {
        let ghost all = self.all_rules();
        let mut j: usize = 0;
        while j < self.whitelist.len()
            invariant
                j <= self.whitelist.len(),
                all == self.whitelist@ + self.blacklist@,
                forall|a: int, b: int|
                    0 <= a < b < j ==> (#[trigger] all[a]).id@ != (#[trigger] all[b]).id@,
            decreases self.whitelist.len() - j,
        {
            if id_among(&self.whitelist, j, &self.whitelist[j].id) {
                proof {
                    let k = choose|k: int|
                        0 <= k < j && (#[trigger] self.whitelist@[k]).id@ == self.whitelist@[j as int].id@;
                    assert(all[k].id@ == all[j as int].id@);
                }
                return false;
            }
            assert forall|a: int, b: int| 0 <= a < b < j + 1 implies (#[trigger] all[a]).id@ != (
            #[trigger] all[b]).id@ by {
                if b == j {
                    assert(self.whitelist@[a].id@ != self.whitelist@[j as int].id@);
                }
            }
            j += 1;
        }
        let w: usize = self.whitelist.len();
        let mut j: usize = 0;
        while j < self.blacklist.len()
            invariant
                j <= self.blacklist.len(),
                w == self.whitelist.len(),
                all == self.whitelist@ + self.blacklist@,
                forall|a: int, b: int|
                    0 <= a < b < w + j ==> (#[trigger] all[a]).id@ != (#[trigger] all[b]).id@,
            decreases self.blacklist.len() - j,
        {
            let id = &self.blacklist[j].id;
            assert(all[w + j] == self.blacklist@[j as int]);
            if id_among(&self.whitelist, w, id) {
                proof {
                    let k = choose|k: int| 0 <= k < w && (#[trigger] self.whitelist@[k]).id@ == id@;
                    assert(all[k].id@ == all[w + j].id@);
                }
                return false;
            }
            if id_among(&self.blacklist, j, id) {
                proof {
                    let k = choose|k: int| 0 <= k < j && (#[trigger] self.blacklist@[k]).id@ == id@;
                    assert(all[w + k] == self.blacklist@[k]);
                    assert(all[w + k].id@ == all[w + j].id@);
                }
                return false;
            }
            assert forall|a: int, b: int| 0 <= a < b < w + j + 1 implies (#[trigger] all[a]).id@ != (
            #[trigger] all[b]).id@ by {
                if b == w + j {
                    if a < w {
                        assert(self.whitelist@[a].id@ != id@);
                    } else {
                        assert(all[a] == self.blacklist@[a - w]);
                        assert(self.blacklist@[a - w].id@ != id@);
                    }
                }
            }
            j += 1;
        }
        true
    }

    /// Checks the document and says what is wrong with it first.
    pub fn validate(&self) -> (res: Result<(), String>)
        ensures
            res is Ok <==> self.is_valid(),
            res matches Err(msg) ==> Some(msg@) == self.complaint(),
    {
        if !any_enabled(&self.blacklist) && !any_enabled(&self.whitelist) {
            return Err(String::from_str("Configuration must contain at least one enabled rule"));
        }
        if self.scanning.scan_interval_ms < 100 {
            return Err(String::from_str("Scan interval must be at least 100ms"));
        }
        if self.kill_policy.force_kill_timeout_ms < 100 {
            return Err(String::from_str("Force kill timeout must be at least 100ms"));
        }
        if !self.unique_ids() {
            return Err(String::from_str("Rule identifiers must be unique"));
        }
        Ok(())
    }
}

impl Default for Config {
    /// No rules, a scan every two seconds, graceful kills with a five-second timeout, a
    /// one-second cooldown and three retries, and a JSON log of five files of 10 MB.
    fn default() -> (c: Config)
        ensures
            c.blacklist@.len() == 0,
            c.whitelist@.len() == 0,
            c.scanning == (ScanningConfig {
                scan_interval_ms: 2000,
                enable_hash_check: false,
                enable_command_check: true,
            }),
            c.kill_policy == (KillPolicy {
                graceful_kill: true,
                force_kill_timeout_ms: 5000,
                cooldown_ms: 1000,
                max_retry_attempts: 3,
            }),
            c.logging.file_path@ == "edr_kill_switch.log"@,
            c.logging.format == LogFormat::Json,
            c.logging.rotation_size_mb == 10,
            c.logging.max_files == 5,
    {
        Config {
            blacklist: Vec::new(),
            whitelist: Vec::new(),
            scanning: ScanningConfig {
                scan_interval_ms: 2000,
                enable_hash_check: false,
                enable_command_check: true,
            },
            kill_policy: KillPolicy {
                graceful_kill: true,
                force_kill_timeout_ms: 5000,
                cooldown_ms: 1000,
                max_retry_attempts: 3,
            },
            logging: LoggingConfig {
                file_path: String::from_str("edr_kill_switch.log"),
                format: LogFormat::Json,
                rotation_size_mb: 10,
                max_files: 5,
            },
        }
    }
}

/// The platforms that the agent tells apart.
#[derive(Debug, Clone, Copy, PartialEq, Eq, Structural)]
pub enum Platform {
    Windows,
    Other,
}

/// The names of the processes that an operating system cannot do without.
pub open spec fn critical_names(platform: Platform) -> Seq<Seq<char>> {
    match platform {
        Platform::Windows => seq![
            "System"@,
            "smss.exe"@,
            "csrss.exe"@,
            "wininit.exe"@,
            "services.exe"@,
            "lsass.exe"@,
            "winlogon.exe"@,
            "dwm.exe"@,
        ],
        Platform::Other => Seq::empty(),
    }
}

/// Whether a rule is the enabled name rule with the identifier, the value and the
/// description given, and without a severity.
pub open spec fn is_name_rule(
    rule: Rule,
    id: Seq<char>,
    value: Seq<char>,
    description: Seq<char>,
) -> bool {
    &&& rule.enabled
    &&& rule.id@ == id
    &&& rule.rule_type matches RuleType::Name { value: v } && v@ == value
    &&& rule.description matches Some(d) && d@ == description
    &&& rule.severity is None
}

/// The names of the processes that an operating system cannot do without.
pub fn critical_process_names(platform: Platform) -> (names: Vec<String>)
    ensures
        names@.len() == critical_names(platform).len(),
        forall|i: int| 0 <= i < names@.len() ==> (#[trigger] names@[i])@ == critical_names(platform)[i],
{
    let mut names: Vec<String> = Vec::new();
    match platform {
        Platform::Windows => {
            names.push(String::from_str("System"));
            names.push(String::from_str("smss.exe"));
            names.push(String::from_str("csrss.exe"));
            names.push(String::from_str("wininit.exe"));
            names.push(String::from_str("services.exe"));
            names.push(String::from_str("lsass.exe"));
            names.push(String::from_str("winlogon.exe"));
            names.push(String::from_str("dwm.exe"));
        },
        Platform::Other => {},
    }
    names
}

/// The built-in allow rules: the agent's own executable under the identifier
/// `self_protection`, then each critical process of the platform under `system_` and its
/// name. They are computed for each run and never written to the document.
pub fn builtin_allow_rules(exe_name: &str, platform: Platform) -> (rules: Vec<Rule>)
    ensures
        rules@.len() == 1 + critical_names(platform).len(),
        is_name_rule(rules@[0], "self_protection"@, exe_name@, "Self protection rule"@),
        forall|i: int|
            0 <= i < critical_names(platform).len() ==> is_name_rule(
                #[trigger] rules@[i + 1],
                "system_"@ + critical_names(platform)[i],
                critical_names(platform)[i],
                "Critical system process: "@ + critical_names(platform)[i],
            ),
{
    let mut rules: Vec<Rule> = Vec::new();
    let mut own = Rule::new("self_protection", RuleType::Name { value: String::from_str(exe_name) });
    own.description = Some(String::from_str("Self protection rule"));
    rules.push(own);
    let names = critical_process_names(platform);
    let mut i: usize = 0;
    while i < names.len()
        invariant
            i <= names.len(),
            names@.len() == critical_names(platform).len(),
            forall|k: int|
                0 <= k < names@.len() ==> (#[trigger] names@[k])@ == critical_names(platform)[k],
            rules@.len() == 1 + i,
            is_name_rule(rules@[0], "self_protection"@, exe_name@, "Self protection rule"@),
            forall|k: int|
                0 <= k < i ==> is_name_rule(
                #[trigger] rules@[k + 1],
                "system_"@ + critical_names(platform)[k],
                critical_names(platform)[k],
                "Critical system process: "@ + critical_names(platform)[k],
            ),
        decreases names.len() - i,
    {
        let mut id = String::from_str("system_");
        id.append(names[i].as_str());
        let mut description = String::from_str("Critical system process: ");
        description.append(names[i].as_str());
        let rule = Rule {
            id,
            rule_type: RuleType::Name { value: names[i].clone() },
            description: Some(description),
            enabled: true,
            severity: None,
        };
        rules.push(rule);
        i += 1;
    }
    rules
}

} // verus!
