//! The configuration of the operations, and whether it can be used.
use vstd::prelude::*;
use vstd::string::*;

use crate::knowledge::terms;
use crate::ops::rules;
use crate::ops::rules::{OpsArgRule, OpsArgRules};
use crate::outside;
use crate::text;

verus! {

pub const OPS_CONFIG_FILE_ENV: &'static str = "OPS_CONFIG_FILE";

pub const DEFAULT_OPS_CONFIG_PATH: &'static str = "config/ops.toml";

pub const MAX_COMMANDS: usize = 64;

pub const MAX_ARGS: usize = 16;

pub const MAX_TIMEOUT_SECONDS: u64 = 3600;

pub const MAX_CAPTURE_BYTES: usize = 65536;

pub const MAX_CODEX_PROMPT_BYTES: usize = 65536;

pub const MAX_CODEX_CONCURRENT_TASKS: usize = 8;

#[derive(Debug)]
pub struct OpsPrivateConfig {
    pub enabled: bool,
    pub allowed_user_ids: Vec<String>,
}

#[derive(Debug)]
pub struct OpsGroupConfig {
    pub enabled: bool,
    pub allowed_group_ids: Vec<String>,
}

#[derive(Debug)]
pub struct OpsCodexConfig {
    pub enabled: bool,
    pub program: String,
    pub working_directory: String,
    pub timeout_seconds: u64,
    pub max_prompt_bytes: usize,
    pub max_stdout_bytes: usize,
    pub max_stderr_bytes: usize,
    pub profile: String,
    pub sandbox: String,
    pub cancellable: bool,
    pub max_concurrent_tasks: usize,
}

#[derive(Debug)]
pub struct OpsCommandConfig {
    pub program: String,
    pub timeout_seconds: u64,
    pub max_stdout_bytes: usize,
    pub max_stderr_bytes: usize,
    pub min_args: usize,
    pub max_args: usize,
    pub args: OpsArgRules,
}

/// What is used where a command does not say otherwise.
pub const DEFAULT_TIMEOUT_SECONDS: u64 = 30;

pub const DEFAULT_STDOUT_BYTES: usize = 4096;

pub const DEFAULT_STDERR_BYTES: usize = 4096;

#[derive(Debug)]
pub struct OpsConfig {
    pub enabled: bool,
    pub private: OpsPrivateConfig,
    pub group: OpsGroupConfig,
    pub codex: OpsCodexConfig,
    /// Commands by their names.
    pub commands: OpsCommands,
}

impl Default for OpsPrivateConfig {
    fn default() -> (r: Self)
        ensures
            !r.enabled,
            r.allowed_user_ids@.len() == 0,
    {
        OpsPrivateConfig { enabled: false, allowed_user_ids: Vec::new() }
    }
}

impl Default for OpsGroupConfig {
    fn default() -> (r: Self)
        ensures
            !r.enabled,
            r.allowed_group_ids@.len() == 0,
    {
        OpsGroupConfig { enabled: false, allowed_group_ids: Vec::new() }
    }
}

/// Whether the section is the one that is used where none is given.
pub open spec fn is_default_codex(c: OpsCodexConfig) -> bool {
    &&& !c.enabled
    &&& c.program@ == ""@
    &&& c.working_directory@ == ""@
    &&& c.timeout_seconds == 1800
    &&& c.max_prompt_bytes == 8000
    &&& c.max_stdout_bytes == 32768
    &&& c.max_stderr_bytes == 16384
    &&& c.profile@ == "qq-maid-ops"@
    &&& c.sandbox@ == "workspace-write"@
    &&& c.cancellable
    &&& c.max_concurrent_tasks == 1
}

/// Whether the configuration is the one that is used where none is given: everything is
/// switched off.
pub open spec fn is_default_config(c: OpsConfig) -> bool {
    &&& !c.enabled
    &&& !c.private.enabled
    &&& c.private.allowed_user_ids@.len() == 0
    &&& !c.group.enabled
    &&& c.group.allowed_group_ids@.len() == 0
    &&& is_default_codex(c.codex)
    &&& c.commands.entries().len() == 0
}

impl Default for OpsCodexConfig {
    fn default() -> (r: Self)
        ensures
            is_default_codex(r),
    {
        OpsCodexConfig {
            enabled: false,
            program: "".to_owned(),
            working_directory: "".to_owned(),
            timeout_seconds: 1800,
            max_prompt_bytes: 8000,
            max_stdout_bytes: 32768,
            max_stderr_bytes: 16384,
            profile: "qq-maid-ops".to_owned(),
            sandbox: "workspace-write".to_owned(),
            cancellable: true,
            max_concurrent_tasks: 1,
        }
    }
}

impl Default for OpsConfig {
    /// Everything is switched off.
    fn default() -> (r: Self)
        ensures
            is_default_config(r),
    {
        OpsConfig {
            enabled: false,
            private: OpsPrivateConfig::default(),
            group: OpsGroupConfig::default(),
            codex: OpsCodexConfig::default(),
            commands: OpsCommands::new(),
        }
    }
}

// Commands by their names.

/// Commands in the order of their names, each name once.
#[derive(Debug)]
pub struct OpsCommands {
    entries: Vec<(String, OpsCommandConfig)>,
}

pub open spec fn are_ordered(entries: Seq<(String, OpsCommandConfig)>) -> bool {
    forall|i: int, k: int|
        0 <= i < k < entries.len() ==> terms::precedes(
            (#[trigger] entries[i]).0@,
            (#[trigger] entries[k]).0@,
        )
}

impl OpsCommands {
    pub closed spec fn entries(self) -> Seq<(String, OpsCommandConfig)> {
        self.entries@
    }

    #[verifier::type_invariant]
    spec fn well_formed(self) -> bool {
        are_ordered(self.entries@)
    }

    pub fn new() -> (r: Self)
        ensures
            r.entries() == Seq::<(String, OpsCommandConfig)>::empty(),
    {
        OpsCommands { entries: Vec::new() }
    }

    pub fn len(&self) -> (r: usize)
        ensures
            r == self.entries().len(),
    {
        self.entries.len()
    }

    /// Adds a command whose name comes behind all others; returns whether it did.
    pub fn push(self, name: String, command: OpsCommandConfig) -> (r: (Self, bool))
        ensures
            r.1 == (self.entries().len() == 0 || terms::precedes(
                self.entries()[self.entries().len() - 1].0@,
                name@,
            )),
            r.0.entries() == (if r.1 {
                self.entries().push((name, command))
            } else {
                self.entries()
            }),
            are_ordered(r.0.entries()),
    {
        proof {
            use_type_invariant(&self);
        }
        let mut entries = self.entries;
        let n: usize = entries.len();
        if n > 0 && !terms::is_smaller(entries[n - 1].0.as_str(), name.as_str()) {
            return (OpsCommands { entries }, false);
        }
        let ghost before = entries@;
        let ghost last = name@;
        entries.push((name, command));
        proof {
            assert forall|i: int, k: int| 0 <= i < k < entries@.len() implies terms::precedes(
                (#[trigger] entries@[i]).0@,
                (#[trigger] entries@[k]).0@,
            ) by {
                if k == n && i < n - 1 {
                    assert(terms::precedes(before[i].0@, before[n - 1].0@));
                    terms::lemma_precedes_transitive(before[i].0@, before[n - 1].0@, last);
                }
            }
        }
        (OpsCommands { entries }, true)
    }

    pub fn get<'a>(&'a self, name: &str) -> (r: Option<&'a OpsCommandConfig>)
        ensures
            match r {
                Some(c) => exists|i: int|
                    0 <= i < self.entries().len() && (#[trigger] self.entries()[i]).0@ == name@
                        && self.entries()[i].1 == *c,
                None => forall|i: int|
                    0 <= i < self.entries().len() ==> (#[trigger] self.entries()[i]).0@ != name@,
            },
    {
        let mut i: usize = 0;
        while i < self.entries.len()
            invariant
                0 <= i <= self.entries@.len(),
                forall|k: int| 0 <= k < i ==> (#[trigger] self.entries@[k]).0@ != name@,
            decreases self.entries@.len() - i,
        {
            if text::same(self.entries[i].0.as_str(), name) {
                assert(self.entries()[i as int].0@ == name@);
                return Some(&self.entries[i].1);
            }
            i += 1;
        }
        None
    }
}

/// A name names at most one command.
pub proof fn names_are_unique(commands: Seq<(String, OpsCommandConfig)>, i: int, k: int)
    requires
        are_ordered(commands),
        0 <= i < commands.len(),
        0 <= k < commands.len(),
        commands[i].0@ == commands[k].0@,
    ensures
        i == k,
{
    terms::lemma_precedes_total(commands[i].0@, commands[k].0@);
    if i < k {
        assert(terms::precedes(commands[i].0@, commands[k].0@));
    } else if k < i {
        assert(terms::precedes(commands[k].0@, commands[i].0@));
    }
}

// What the machine says of paths.

/// The paths of a configuration that are absolute, those that are files, and those that are
/// directories.
#[derive(Debug)]
pub struct PathFacts {
    pub absolute: Vec<String>,
    pub files: Vec<String>,
    pub directories: Vec<String>,
    /// The directory of the codex program, part by part: nothing where the program has none,
    /// and nothing within where it cannot be resolved.
    pub program_directory: Option<Option<Vec<String>>>,
    /// The working directory of codex, part by part, if it can be resolved.
    pub working_directory: Option<Vec<String>>,
}

pub open spec fn lists(paths: Vec<String>, path: Seq<char>) -> bool {
    text::views(paths@).contains(path)
}

fn is_listed(paths: &Vec<String>, path: &str) -> (r: bool)
    ensures
        r == lists(*paths, path@),
{
    let ghost all = text::views(paths@);
    let mut i: usize = 0;
    while i < paths.len()
        invariant
            0 <= i <= paths@.len(),
            all == text::views(paths@),
            forall|k: int| 0 <= k < i ==> #[trigger] all[k] != path@,
        decreases paths@.len() - i,
    {
        assert(all[i as int] == paths@[i as int]@);
        if text::same(paths[i].as_str(), path) {
            return true;
        }
        i += 1;
    }
    false
}

/// Whether one directory is the other or lies in it.
pub open spec fn is_within(path: Seq<Seq<char>>, directory: Seq<Seq<char>>) -> bool {
    directory.len() <= path.len() && path.take(directory.len() as int) == directory
}

fn lies_within(path: &Vec<String>, directory: &Vec<String>) -> (r: bool)
    ensures
        r == is_within(text::views(path@), text::views(directory@)),
{
    let ghost p = text::views(path@);
    let ghost d = text::views(directory@);
    if directory.len() > path.len() {
        return false;
    }
    let mut i: usize = 0;
    while i < directory.len()
        invariant
            0 <= i <= directory@.len() <= path@.len(),
            p == text::views(path@),
            d == text::views(directory@),
            forall|k: int| 0 <= k < i ==> p[k] == d[k],
        decreases directory@.len() - i,
    {
        if !text::same(path[i].as_str(), directory[i].as_str()) {
            proof {
                assert(p[i as int] != d[i as int]);
                assert(p.take(d.len() as int)[i as int] == p[i as int]);
            }
            return false;
        }
        i += 1;
    }
    assert(p.take(d.len() as int) =~= d);
    true
}

// Checks.

/// Whether a text can be the id of a user or a group.
pub open spec fn is_stable_id(s: Seq<char>) -> bool {
    s.len() > 0 && text::trimmed(s) == s && !rules::is_long(s, 256) && !text::has_control(s)
}

pub open spec fn ids_fault(name: Seq<char>, ids: Seq<String>) -> Option<Seq<char>> {
    if exists|i: int| 0 <= i < ids.len() && !is_stable_id((#[trigger] ids[i])@) {
        Some(name + " contains an invalid stable ID"@)
    } else {
        None
    }
}

pub open spec fn is_verdict(r: Result<(), String>, fault: Option<Seq<char>>) -> bool {
    match fault {
        Some(f) => r matches Err(e) && e@ == f,
        None => r is Ok,
    }
}

pub fn validate_id_list(name: &str, values: &Vec<String>) -> (r: Result<(), String>)
    ensures
        is_verdict(r, ids_fault(name@, values@)),
{
    let mut i: usize = 0;
    while i < values.len()
        invariant
            0 <= i <= values@.len(),
            forall|k: int| 0 <= k < i ==> is_stable_id((#[trigger] values@[k])@),
        decreases values@.len() - i,
    {
        let s = values[i].as_str();
        let len: usize = s.unicode_len();
        if len == 0 || !text::same(text::trim(s), s) || rules::takes_more(s, 256) || text::contains_control(s) {
            assert(!is_stable_id(values@[i as int]@));
            let mut message = name.to_owned();
            message.append(" contains an invalid stable ID");
            return Err(message);
        }
        i += 1;
    }
    Ok(())
}

pub open spec fn capture_fault(name: Seq<char>, value: usize) -> Option<Seq<char>> {
    if value > MAX_CAPTURE_BYTES {
        Some(name + " must not exceed 65536"@)
    } else {
        None
    }
}

pub fn validate_capture_limit(name: &str, value: usize) -> (r: Result<(), String>)
    ensures
        is_verdict(r, capture_fault(name@, value)),
{
    if value > MAX_CAPTURE_BYTES {
        let mut message = name.to_owned();
        message.append(" must not exceed 65536");
        return Err(message);
    }
    Ok(())
}

pub open spec fn is_clean_absolute(path: Seq<char>, facts: PathFacts) -> bool {
    text::trimmed(path) == path && lists(facts.absolute, path)
}

pub open spec fn file_fault(name: Seq<char>, path: Seq<char>, facts: PathFacts) -> Option<Seq<char>> {
    if !is_clean_absolute(path, facts) {
        Some(name + " must be an absolute path"@)
    } else if !lists(facts.files, path) {
        Some(name + " must point to an existing file"@)
    } else {
        None
    }
}

pub fn validate_absolute_file(name: &str, value: &str, facts: &PathFacts) -> (r: Result<(), String>)
    ensures
        is_verdict(r, file_fault(name@, value@, *facts)),
{
    if !text::same(text::trim(value), value) || !is_listed(&facts.absolute, value) {
        let mut message = name.to_owned();
        message.append(" must be an absolute path");
        return Err(message);
    }
    if !is_listed(&facts.files, value) {
        let mut message = name.to_owned();
        message.append(" must point to an existing file");
        return Err(message);
    }
    Ok(())
}

pub open spec fn directory_fault(name: Seq<char>, path: Seq<char>, facts: PathFacts) -> Option<Seq<char>> {
    if !is_clean_absolute(path, facts) {
        Some(name + " must be an absolute path"@)
    } else if !lists(facts.directories, path) {
        Some(name + " must point to an existing directory"@)
    } else {
        None
    }
}

pub fn validate_absolute_directory(name: &str, value: &str, facts: &PathFacts) -> (r: Result<(), String>)
    ensures
        is_verdict(r, directory_fault(name@, value@, *facts)),
{
    if !text::same(text::trim(value), value) || !is_listed(&facts.absolute, value) {
        let mut message = name.to_owned();
        message.append(" must be an absolute path");
        return Err(message);
    }
    if !is_listed(&facts.directories, value) {
        let mut message = name.to_owned();
        message.append(" must point to an existing directory");
        return Err(message);
    }
    Ok(())
}

/// Whether every character is an ASCII letter or digit or one of the others, and there are
/// some but not too many.
pub open spec fn is_name(s: Seq<char>, max: int, others: Seq<char>) -> bool {
    1 <= s.len() <= max && forall|i: int|
        0 <= i < s.len() ==> (text::is_ascii_letter(#[trigger] s[i]) || text::is_digit(s[i])
            || others.contains(s[i]))
}

fn can_be_name(s: &str, max: usize, others: &str) -> (r: bool)
    ensures
        r == is_name(s@, max as int, others@),
{
    let len: usize = s.unicode_len();
    if len == 0 || len > max {
        return false;
    }
    let v = text::chars_of(s);
    let mut i: usize = 0;
    while i < v.len()
        invariant
            0 <= i <= v@.len(),
            v@ == s@,
            1 <= s@.len() <= max,
            forall|k: int|
                0 <= k < i ==> (text::is_ascii_letter(#[trigger] s@[k]) || text::is_digit(s@[k])
                    || others@.contains(s@[k])),
        decreases v@.len() - i,
    {
        let c = v[i];
        if !(text::is_ascii_alphabetic(c) || text::is_ascii_digit(c) || text::has_char(others, c)) {
            assert(s@[i as int] == c);
            return false;
        }
        i += 1;
    }
    true
}

pub fn valid_command_name(name: &str) -> (r: bool)
    ensures
        r == is_name(name@, 64, "_-"@),
{
    can_be_name(name, 64, "_-")
}

/// Whether the name is that of a command that is built in.
pub open spec fn is_reserved(name: Seq<char>) -> bool {
    name == "codex"@ || name == "list"@ || name == "cancel"@ || name == "stop"@ || name == "kill"@ || name
        == "close"@
}

pub fn is_reserved_name(name: &str) -> (r: bool)
    ensures
        r == is_reserved(name@),
{
    text::same(name, "codex") || text::same(name, "list") || text::same(name, "cancel") || text::same(
        name,
        "stop",
    ) || text::same(name, "kill") || text::same(name, "close")
}

// Codex.

/// Where the program stands, or why that cannot be said. One that may write to its working
/// directory must not stand in it.
pub open spec fn program_place(codex: OpsCodexConfig, facts: PathFacts) -> Result<Seq<Seq<char>>, Seq<char>> {
    match facts.program_directory {
        None => Err("codex.program has no parent directory"@),
        Some(None) => Err("codex.program parent directory could not be safely canonicalized"@),
        Some(Some(directory)) => if codex.sandbox@ == "workspace-write"@ {
            match facts.working_directory {
                None => Err("codex.working_directory could not be safely canonicalized"@),
                Some(working) => if is_within(text::views(directory@), text::views(working@)) {
                    Err(
                        "codex.program parent directory must be outside codex.working_directory when sandbox is `workspace-write`"@,
                    )
                } else {
                    Ok(text::views(directory@))
                },
            }
        } else {
            Ok(text::views(directory@))
        },
    }
}

pub open spec fn codex_fault(codex: OpsCodexConfig, facts: PathFacts) -> Option<Seq<char>> {
    if !codex.enabled {
        None
    } else if let Some(f) = file_fault("codex.program"@, codex.program@, facts) {
        Some(f)
    } else if let Some(f) = directory_fault("codex.working_directory"@, codex.working_directory@, facts) {
        Some(f)
    } else if codex.timeout_seconds == 0 || codex.timeout_seconds > MAX_TIMEOUT_SECONDS {
        Some("codex.timeout_seconds must be between 1 and 3600"@)
    } else if codex.max_prompt_bytes == 0 || codex.max_prompt_bytes > MAX_CODEX_PROMPT_BYTES {
        Some("codex.max_prompt_bytes must be between 1 and 65536"@)
    } else if let Some(f) = capture_fault("codex.max_stdout_bytes"@, codex.max_stdout_bytes) {
        Some(f)
    } else if let Some(f) = capture_fault("codex.max_stderr_bytes"@, codex.max_stderr_bytes) {
        Some(f)
    } else if !is_name(codex.profile@, 128, "_-."@) {
        Some("codex.profile contains unsupported characters"@)
    } else if !(codex.sandbox@ == "read-only"@ || codex.sandbox@ == "workspace-write"@) {
        Some(
            "codex.sandbox must be `read-only` or `workspace-write`; dangerous mode is forbidden"@,
        )
    } else if let Err(f) = program_place(codex, facts) {
        Some(f)
    } else if codex.max_concurrent_tasks == 0 || codex.max_concurrent_tasks > MAX_CODEX_CONCURRENT_TASKS {
        Some("codex.max_concurrent_tasks must be between 1 and 8"@)
    } else {
        None
    }
}

fn copy_texts(v: &Vec<String>) -> (r: Vec<String>)
    ensures
        text::views(r@) == text::views(v@),
{
    let mut out: Vec<String> = Vec::new();
    let mut i: usize = 0;
    while i < v.len()
        invariant
            0 <= i <= v@.len(),
            out@.len() == i,
            forall|k: int| 0 <= k < i ==> (#[trigger] out@[k])@ == v@[k]@,
        decreases v@.len() - i,
    {
        out.push(v[i].clone());
        i += 1;
    }
    assert(text::views(out@) =~= text::views(v@));
    out
}

impl OpsCodexConfig {
    pub fn canonical_program_directory(&self, facts: &PathFacts) -> (r: Result<Vec<String>, String>)
        ensures
            match program_place(*self, *facts) {
                Ok(d) => r matches Ok(v) && text::views(v@) == d,
                Err(f) => r matches Err(e) && e@ == f,
            },
    {
        let directory = match &facts.program_directory {
            None => {
                return Err("codex.program has no parent directory".to_owned());
            },
            Some(None) => {
                return Err(
                    "codex.program parent directory could not be safely canonicalized".to_owned(),
                );
            },
            Some(Some(d)) => d,
        };
        if text::same(self.sandbox.as_str(), "workspace-write") {
            match &facts.working_directory {
                None => {
                    return Err("codex.working_directory could not be safely canonicalized".to_owned());
                },
                Some(working) => {
                    if lies_within(directory, working) {
                        return Err(
                            "codex.program parent directory must be outside codex.working_directory when sandbox is `workspace-write`".to_owned(),
                        );
                    }
                },
            }
        }
        Ok(copy_texts(directory))
    }

    pub fn validate(&self, facts: &PathFacts) -> (r: Result<(), String>)
        ensures
            is_verdict(r, codex_fault(*self, *facts)),
    {
        if !self.enabled {
            return Ok(());
        }
        match validate_absolute_file("codex.program", self.program.as_str(), facts) {
            Ok(_) => {},
            Err(e) => {
                return Err(e);
            },
        }
        match validate_absolute_directory(
            "codex.working_directory",
            self.working_directory.as_str(),
            facts,
        ) {
            Ok(_) => {},
            Err(e) => {
                return Err(e);
            },
        }
        if self.timeout_seconds == 0 || self.timeout_seconds > MAX_TIMEOUT_SECONDS {
            return Err("codex.timeout_seconds must be between 1 and 3600".to_owned());
        }
        if self.max_prompt_bytes == 0 || self.max_prompt_bytes > MAX_CODEX_PROMPT_BYTES {
            return Err("codex.max_prompt_bytes must be between 1 and 65536".to_owned());
        }
        match validate_capture_limit("codex.max_stdout_bytes", self.max_stdout_bytes) {
            Ok(_) => {},
            Err(e) => {
                return Err(e);
            },
        }
        match validate_capture_limit("codex.max_stderr_bytes", self.max_stderr_bytes) {
            Ok(_) => {},
            Err(e) => {
                return Err(e);
            },
        }
        if !can_be_name(self.profile.as_str(), 128, "_-.") {
            return Err("codex.profile contains unsupported characters".to_owned());
        }
        if !(text::same(self.sandbox.as_str(), "read-only") || text::same(
            self.sandbox.as_str(),
            "workspace-write",
        )) {
            return Err(
                "codex.sandbox must be `read-only` or `workspace-write`; dangerous mode is forbidden".to_owned(),
            );
        }
        match self.canonical_program_directory(facts) {
            Ok(_) => {},
            Err(e) => {
                return Err(e);
            },
        }
        if self.max_concurrent_tasks == 0 || self.max_concurrent_tasks > MAX_CODEX_CONCURRENT_TASKS {
            return Err("codex.max_concurrent_tasks must be between 1 and 8".to_owned());
        }
        Ok(())
    }
}

/// A program that passes the check with the right to write never stands where it may write.
pub proof fn codex_cannot_replace_itself(codex: OpsCodexConfig, facts: PathFacts)
    requires
        codex.enabled,
        codex.sandbox@ == "workspace-write"@,
        codex_fault(codex, facts) is None,
    ensures
        facts.program_directory matches Some(Some(directory)) && facts.working_directory matches Some(
            working,
        ) && !is_within(text::views(directory@), text::views(working@)),
{
}

// Commands.

/// `commands.{name}` and what follows it.
pub open spec fn about(name: Seq<char>, rest: Seq<char>) -> Seq<char> {
    "commands."@ + name + rest
}

fn write_about(name: &str, rest: &str) -> (r: String)
    ensures
        r@ == about(name@, rest@),
{
    let mut s = "commands.".to_owned();
    s.append(name);
    s.append(rest);
    s
}

/// What is wrong with the first rule that is wrong.
pub open spec fn rules_fault(
    entries: Seq<(usize, OpsArgRule)>,
    name: Seq<char>,
    max_args: usize,
) -> Option<Seq<char>>
    decreases entries.len(),
{
    if entries.len() == 0 {
        None
    } else {
        match rules_fault(entries.drop_last(), name, max_args) {
            Some(f) => Some(f),
            None => {
                let (index, rule) = entries.last();
                if index >= max_args {
                    Some(
                        rules::rule_name(name, index as int) + " is outside max_args "@ + text::decimal(
                            max_args as nat,
                        ),
                    )
                } else {
                    rule.fault(name, index as int)
                }
            },
        }
    }
}

proof fn lemma_rules_fault_stays(entries: Seq<(usize, OpsArgRule)>, name: Seq<char>, max_args: usize, n: int)
    requires
        0 <= n <= entries.len(),
        rules_fault(entries.take(n), name, max_args) is Some,
    ensures
        rules_fault(entries, name, max_args) == rules_fault(entries.take(n), name, max_args),
    decreases entries.len() - n,
{
    if n == entries.len() {
        assert(entries.take(n) =~= entries);
    } else {
        assert(entries.take(n + 1).drop_last() =~= entries.take(n));
        lemma_rules_fault_stays(entries, name, max_args, n + 1);
    }
}

pub open spec fn command_fault(command: OpsCommandConfig, name: Seq<char>, facts: PathFacts) -> Option<Seq<char>> {
    let program = text::trimmed(command.program@);
    if program.len() == 0 || program.contains('\0') {
        Some(about(name, ".program is invalid"@))
    } else if !lists(facts.absolute, program) {
        Some(about(name, ".program must be an absolute path"@))
    } else if command.timeout_seconds == 0 || command.timeout_seconds > MAX_TIMEOUT_SECONDS {
        Some(about(name, ".timeout_seconds must be between 1 and 3600"@))
    } else if let Some(f) = capture_fault(about(name, ".max_stdout_bytes"@), command.max_stdout_bytes) {
        Some(f)
    } else if let Some(f) = capture_fault(about(name, ".max_stderr_bytes"@), command.max_stderr_bytes) {
        Some(f)
    } else if command.min_args > command.max_args || command.max_args > MAX_ARGS {
        Some(about(name, " requires 0 <= min_args <= max_args <= 16"@))
    } else {
        rules_fault(command.args.entries(), name, command.max_args)
    }
}

// Arguments of a call.

/// The n-th argument, and what is wrong with it.
pub open spec fn nth(index: int, rest: Seq<char>) -> Seq<char> {
    "第 "@ + text::decimal((index + 1) as nat) + rest
}

fn write_nth(index: usize, rest: &str) -> (r: String)
    requires
        index < usize::MAX,
    ensures
        r@ == nth(index as int, rest@),
{
    let mut s = "第 ".to_owned();
    s.append(text::decimal_string((index + 1) as u64).as_str());
    s.append(rest);
    s
}

/// What is wrong with one argument, given whether it fits its rule's pattern.
pub open spec fn argument_fault_given(
    rule: Option<OpsArgRule>,
    value: Seq<char>,
    index: int,
    fits: bool,
) -> Option<Seq<char>> {
    if !rules::is_argument(value) {
        Some(nth(index, " 个参数包含不允许的内容"@))
    } else {
        match rule {
            None => None,
            Some(r) => if !r.allows(value) {
                Some(nth(index, " 个参数不在允许值中"@))
            } else if r.pattern is Some && !fits {
                Some(nth(index, " 个参数格式不正确"@))
            } else {
                None
            },
        }
    }
}

pub open spec fn fits_rule(rule: Option<OpsArgRule>, value: Seq<char>) -> bool {
    match rule {
        Some(r) => r.fits(value),
        None => true,
    }
}

/// Checks one argument, given whether it fits its rule's pattern.
pub fn check_argument(rule: Option<&OpsArgRule>, value: &str, index: usize, fits: bool) -> (r: Result<(), String>)
    requires
        index < usize::MAX,
    ensures
        is_verdict(
            r,
            argument_fault_given(
                match rule {
                    Some(x) => Some(*x),
                    None => None,
                },
                value@,
                index as int,
                fits,
            ),
        ),
{
    if !rules::can_be_argument(value) {
        return Err(write_nth(index, " 个参数包含不允许的内容"));
    }
    match rule {
        None => Ok(()),
        Some(rule) => {
            if !rule.is_allowed(value) {
                return Err(write_nth(index, " 个参数不在允许值中"));
            }
            if rule.pattern.is_some() && !fits {
                return Err(write_nth(index, " 个参数格式不正确"));
            }
            Ok(())
        },
    }
}

/// What is wrong with the first argument that is wrong.
pub open spec fn arguments_fault(command: OpsCommandConfig, args: Seq<Seq<char>>) -> Option<Seq<char>>
    decreases args.len(),
{
    if args.len() == 0 {
        None
    } else {
        match arguments_fault(command, args.drop_last()) {
            Some(f) => Some(f),
            None => {
                let i = args.len() - 1;
                let rule = command.args.rule(i);
                argument_fault_given(rule, args.last(), i, fits_rule(rule, args.last()))
            },
        }
    }
}

proof fn lemma_arguments_fault_stays(command: OpsCommandConfig, args: Seq<Seq<char>>, n: int)
    requires
        0 <= n <= args.len(),
        arguments_fault(command, args.take(n)) is Some,
    ensures
        arguments_fault(command, args) == arguments_fault(command, args.take(n)),
    decreases args.len() - n,
{
    if n == args.len() {
        assert(args.take(n) =~= args);
    } else {
        assert(args.take(n + 1).drop_last() =~= args.take(n));
        lemma_arguments_fault_stays(command, args, n + 1);
    }
}

/// What is wrong with the arguments of a call, if anything is.
pub open spec fn call_fault(command: OpsCommandConfig, args: Seq<Seq<char>>) -> Option<Seq<char>> {
    if args.len() < command.min_args {
        Some("至少需要 "@ + text::decimal(command.min_args as nat) + " 个参数"@)
    } else if args.len() > command.max_args {
        Some("最多允许 "@ + text::decimal(command.max_args as nat) + " 个参数"@)
    } else {
        arguments_fault(command, args)
    }
}

impl OpsCommandConfig {
    pub fn validate(&self, name: &str, facts: &PathFacts) -> (r: Result<(), String>)
        ensures
            is_verdict(r, command_fault(*self, name@, *facts)),
    {
        let program = text::trim(self.program.as_str());
        let len: usize = program.unicode_len();
        if len == 0 || text::has_char(program, '\0') {
            return Err(write_about(name, ".program is invalid"));
        }
        if !is_listed(&facts.absolute, program) {
            return Err(write_about(name, ".program must be an absolute path"));
        }
        if self.timeout_seconds == 0 || self.timeout_seconds > MAX_TIMEOUT_SECONDS {
            return Err(write_about(name, ".timeout_seconds must be between 1 and 3600"));
        }
        match validate_capture_limit(
            write_about(name, ".max_stdout_bytes").as_str(),
            self.max_stdout_bytes,
        ) {
            Ok(_) => {},
            Err(e) => {
                return Err(e);
            },
        }
        match validate_capture_limit(
            write_about(name, ".max_stderr_bytes").as_str(),
            self.max_stderr_bytes,
        ) {
            Ok(_) => {},
            Err(e) => {
                return Err(e);
            },
        }
        if self.min_args > self.max_args || self.max_args > MAX_ARGS {
            return Err(write_about(name, " requires 0 <= min_args <= max_args <= 16"));
        }
        self.validate_rules(name)
    }

    fn validate_rules(&self, name: &str) -> (r: Result<(), String>)
        ensures
            is_verdict(r, rules_fault(self.args.entries(), name@, self.max_args)),
    {
        let ghost all = self.args.entries();
        let mut i: usize = 0;
        assert(all.take(0) =~= Seq::empty());
        while i < self.args.len()
            invariant
                0 <= i <= all.len(),
                all == self.args.entries(),
                rules_fault(all.take(i as int), name@, self.max_args) is None,
            decreases all.len() - i,
        {
            let (index, rule) = self.args.entry(i);
            proof {
                assert(all.take(i + 1).drop_last() =~= all.take(i as int));
                assert(all.take(i + 1).last() == (index, *rule));
            }
            if index >= self.max_args {
                proof {
                    lemma_rules_fault_stays(all, name@, self.max_args, i + 1);
                }
                let mut message = "commands.".to_owned();
                message.append(name);
                message.append(".args.");
                message.append(text::decimal_string(index as u64).as_str());
                message.append(" is outside max_args ");
                message.append(text::decimal_string(self.max_args as u64).as_str());
                return Err(message);
            }
            match rule.validate(name, index) {
                Ok(_) => {},
                Err(e) => {
                    proof {
                        lemma_rules_fault_stays(all, name@, self.max_args, i + 1);
                    }
                    return Err(e);
                },
            }
            i += 1;
        }
        assert(all.take(i as int) =~= all);
        Ok(())
    }

    /// Whether the patterns of all rules are regular expressions, as they are in a
    /// configuration that passed its check.
    pub open spec fn patterns_compile(self) -> bool {
        forall|i: int|
            0 <= i < self.args.entries().len() ==> (#[trigger] self.args.entries()[i]).1.pattern_error() is None
    }

    pub fn validate_args(&self, args: &Vec<String>) -> (r: Result<(), String>)
        requires
            self.patterns_compile(),
        ensures
            is_verdict(r, call_fault(*self, text::views(args@))),
    {
        let ghost all = text::views(args@);
        let n: usize = args.len();
        if n < self.min_args {
            let mut s = "至少需要 ".to_owned();
            s.append(text::decimal_string(self.min_args as u64).as_str());
            s.append(" 个参数");
            return Err(s);
        }
        if n > self.max_args {
            let mut s = "最多允许 ".to_owned();
            s.append(text::decimal_string(self.max_args as u64).as_str());
            s.append(" 个参数");
            return Err(s);
        }
        let mut i: usize = 0;
        assert(all.take(0) =~= Seq::empty());
        while i < n
            invariant
                0 <= i <= n,
                n == args@.len(),
                all == text::views(args@),
                self.min_args <= n <= self.max_args,
                self.patterns_compile(),
                arguments_fault(*self, all.take(i as int)) is None,
            decreases n - i,
        {
            let value = args[i].as_str();
            proof {
                assert(all.take(i + 1).drop_last() =~= all.take(i as int));
                assert(all.take(i + 1).last() == value@);
            }
            let rule = self.args.get(i);
            let fits = match rule {
                Some(r) => {
                    proof {
                        lemma_pattern_compiles(self.args.entries(), i as int);
                    }
                    match &r.pattern {
                        Some(p) => outside::regex_is_match(
                            rules::full_match_pattern(p.as_str()).as_str(),
                            value,
                        ),
                        None => true,
                    }
                },
                None => true,
            };
            match check_argument(rule, value, i, fits) {
                Ok(_) => {},
                Err(e) => {
                    proof {
                        lemma_arguments_fault_stays(*self, all, i + 1);
                    }
                    return Err(e);
                },
            }
            i += 1;
        }
        assert(all.take(i as int) =~= all);
        Ok(())
    }

    /// Checks the arguments of a call of a command that was not checked itself; nothing where
    /// one of its patterns is no regular expression.
    pub fn check_args(&self, args: &Vec<String>) -> (r: Option<Result<(), String>>)
        ensures
            self.patterns_compile() ==> (r matches Some(v) && is_verdict(
                v,
                call_fault(*self, text::views(args@)),
            )),
            !self.patterns_compile() ==> r is None,
    {
        let ghost all = self.args.entries();
        let mut i: usize = 0;
        while i < self.args.len()
            invariant
                0 <= i <= all.len(),
                all == self.args.entries(),
                forall|k: int| 0 <= k < i ==> (#[trigger] all[k]).1.pattern_error() is None,
            decreases all.len() - i,
        {
            let (index, rule) = self.args.entry(i);
            assert(all[i as int] == (index, *rule));
            match &rule.pattern {
                Some(p) => {
                    if outside::check_regex(rules::full_match_pattern(p.as_str()).as_str()).is_some() {
                        assert(all[i as int].1.pattern_error() is Some);
                        return None;
                    }
                },
                None => {},
            }
            i += 1;
        }
        Some(self.validate_args(args))
    }
}

proof fn lemma_pattern_compiles(entries: Seq<(usize, OpsArgRule)>, index: int)
    requires
        forall|i: int| 0 <= i < entries.len() ==> (#[trigger] entries[i]).1.pattern_error() is None,
    ensures
        rules::rule_in(entries, index) matches Some(rule) ==> rule.pattern_error() is None,
    decreases entries.len(),
{
    if entries.len() > 0 {
        assert(entries[0].1.pattern_error() is None);
        let rest = entries.skip(1);
        assert forall|i: int| 0 <= i < rest.len() implies (#[trigger] rest[i]).1.pattern_error() is None by {
            assert(rest[i] == entries[i + 1]);
        }
        lemma_pattern_compiles(rest, index);
    }
}

// The configuration.

/// What is wrong with the first command that is wrong.
pub open spec fn commands_fault(commands: Seq<(String, OpsCommandConfig)>, facts: PathFacts) -> Option<Seq<char>>
    decreases commands.len(),
{
    if commands.len() == 0 {
        None
    } else {
        match commands_fault(commands.drop_last(), facts) {
            Some(f) => Some(f),
            None => {
                let name = commands.last().0@;
                if !is_name(name, 64, "_-"@) {
                    Some("invalid ops command name `"@ + name + "`"@)
                } else if is_reserved(name) {
                    Some(about(name, " uses a reserved built-in ops command name"@))
                } else {
                    command_fault(commands.last().1, name, facts)
                }
            },
        }
    }
}

proof fn lemma_commands_fault_stays(commands: Seq<(String, OpsCommandConfig)>, facts: PathFacts, n: int)
    requires
        0 <= n <= commands.len(),
        commands_fault(commands.take(n), facts) is Some,
    ensures
        commands_fault(commands, facts) == commands_fault(commands.take(n), facts),
    decreases commands.len() - n,
{
    if n == commands.len() {
        assert(commands.take(n) =~= commands);
    } else {
        assert(commands.take(n + 1).drop_last() =~= commands.take(n));
        lemma_commands_fault_stays(commands, facts, n + 1);
    }
}

pub open spec fn config_fault(config: OpsConfig, facts: PathFacts) -> Option<Seq<char>> {
    if let Some(f) = ids_fault("private.allowed_user_ids"@, config.private.allowed_user_ids@) {
        Some(f)
    } else if let Some(f) = ids_fault("group.allowed_group_ids"@, config.group.allowed_group_ids@) {
        Some(f)
    } else if config.commands.entries().len() > MAX_COMMANDS {
        Some("commands must contain at most 64 entries"@)
    } else if let Some(f) = codex_fault(config.codex, facts) {
        Some(f)
    } else {
        commands_fault(config.commands.entries(), facts)
    }
}

impl OpsCommands {
    fn validate(&self, facts: &PathFacts) -> (r: Result<(), String>)
        ensures
            is_verdict(r, commands_fault(self.entries(), *facts)),
    {
        let ghost all = self.entries@;
        let mut i: usize = 0;
        assert(all.take(0) =~= Seq::empty());
        while i < self.entries.len()
            invariant
                0 <= i <= all.len(),
                all == self.entries@,
                commands_fault(all.take(i as int), *facts) is None,
            decreases all.len() - i,
        {
            let name = self.entries[i].0.as_str();
            proof {
                assert(all.take(i + 1).drop_last() =~= all.take(i as int));
                assert(all.take(i + 1).last() == all[i as int]);
            }
            if !valid_command_name(name) {
                proof {
                    lemma_commands_fault_stays(all, *facts, i + 1);
                }
                let mut message = "invalid ops command name `".to_owned();
                message.append(name);
                message.append("`");
                return Err(message);
            }
            if is_reserved_name(name) {
                proof {
                    lemma_commands_fault_stays(all, *facts, i + 1);
                }
                return Err(write_about(name, " uses a reserved built-in ops command name"));
            }
            match self.entries[i].1.validate(name, facts) {
                Ok(_) => {},
                Err(e) => {
                    proof {
                        lemma_commands_fault_stays(all, *facts, i + 1);
                    }
                    return Err(e);
                },
            }
            i += 1;
        }
        assert(all.take(i as int) =~= all);
        Ok(())
    }
}

impl OpsConfig {
    pub fn validate(&self, facts: &PathFacts) -> (r: Result<(), String>)
        ensures
            is_verdict(r, config_fault(*self, *facts)),
    {
        match validate_id_list("private.allowed_user_ids", &self.private.allowed_user_ids) {
            Ok(_) => {},
            Err(e) => {
                return Err(e);
            },
        }
        match validate_id_list("group.allowed_group_ids", &self.group.allowed_group_ids) {
            Ok(_) => {},
            Err(e) => {
                return Err(e);
            },
        }
        if self.commands.len() > MAX_COMMANDS {
            return Err("commands must contain at most 64 entries".to_owned());
        }
        match self.codex.validate(facts) {
            Ok(_) => {},
            Err(e) => {
                return Err(e);
            },
        }
        self.commands.validate(facts)
    }
}

/// In a configuration that passed its check, the patterns of every command are regular
/// expressions, so that the arguments of its calls can be checked.
pub proof fn checked_commands_can_be_called(config: OpsConfig, facts: PathFacts, i: int)
    requires
        config_fault(config, facts) is None,
        0 <= i < config.commands.entries().len(),
    ensures
        config.commands.entries()[i].1.patterns_compile(),
{
    let commands = config.commands.entries();
    lemma_command_is_sound(commands, facts, i);
    let command = commands[i].1;
    assert forall|k: int| 0 <= k < command.args.entries().len() implies (#[trigger] command.args.entries()[k]).1.pattern_error() is None by {
        lemma_rule_is_sound(command.args.entries(), commands[i].0@, command.max_args, k);
    }
}

proof fn lemma_command_is_sound(commands: Seq<(String, OpsCommandConfig)>, facts: PathFacts, i: int)
    requires
        commands_fault(commands, facts) is None,
        0 <= i < commands.len(),
    ensures
        command_fault(commands[i].1, commands[i].0@, facts) is None,
    decreases commands.len(),
{
    if i < commands.len() - 1 {
        assert(commands.drop_last()[i] == commands[i]);
        lemma_command_is_sound(commands.drop_last(), facts, i);
    }
}

proof fn lemma_rule_is_sound(entries: Seq<(usize, OpsArgRule)>, name: Seq<char>, max_args: usize, k: int)
    requires
        rules_fault(entries, name, max_args) is None,
        0 <= k < entries.len(),
    ensures
        entries[k].1.pattern_error() is None,
    decreases entries.len(),
{
    if k < entries.len() - 1 {
        assert(entries.drop_last()[k] == entries[k]);
        lemma_rule_is_sound(entries.drop_last(), name, max_args, k);
    }
}

// Where the configuration is read from.

#[derive(Debug)]
pub struct ConfigPath {
    pub path: String,
    /// Whether the environment names it.
    pub is_override: bool,
}

/// The path in the environment, unless it is blank, or else the usual one.
pub fn config_path(named: &Option<String>) -> (r: ConfigPath)
    ensures
        match text::cleaned_opt(text::opt_view(*named)) {
            Some(p) => r.path@ == p && r.is_override,
            None => r.path@ == DEFAULT_OPS_CONFIG_PATH@ && !r.is_override,
        },
{
    match text::clean_option(named) {
        Some(path) => ConfigPath { path, is_override: true },
        None => ConfigPath { path: DEFAULT_OPS_CONFIG_PATH.to_owned(), is_override: false },
    }
}

/// What is used where there is no file: the default, or an error where the environment named
/// the file.
pub fn without_file(path: &ConfigPath) -> (r: Result<OpsConfig, String>)
    ensures
        match r {
            Ok(c) => !path.is_override && is_default_config(c),
            Err(e) => path.is_override && e@ == "OPS_CONFIG_FILE points to missing file `"@ + path.path@
                + "`"@,
        },
{
    if path.is_override {
        let mut message = "OPS_CONFIG_FILE points to missing file `".to_owned();
        message.append(path.path.as_str());
        message.append("`");
        Err(message)
    } else {
        Ok(OpsConfig::default())
    }
}

/// What is said where the file cannot be read.
pub fn read_error(path: &ConfigPath, error: &str) -> (r: String)
    ensures
        r@ == "failed to read OPS_CONFIG_FILE `"@ + path.path@ + "`: "@ + error@,
{
    let mut s = "failed to read OPS_CONFIG_FILE `".to_owned();
    s.append(path.path.as_str());
    s.append("`: ");
    s.append(error);
    s
}

/// What is said where the file is no configuration.
pub fn config_error(path: &ConfigPath, error: &str) -> (r: String)
    ensures
        r@ == "invalid OPS_CONFIG_FILE `"@ + path.path@ + "`: "@ + error@,
{
    let mut s = "invalid OPS_CONFIG_FILE `".to_owned();
    s.append(path.path.as_str());
    s.append("`: ");
    s.append(error);
    s
}

} // verus!
