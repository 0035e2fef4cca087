//! What a configuration that passed its check holds, which ones pass, and which calls of a
//! command are allowed.
use vstd::prelude::*;
use vstd::string::*;

use crate::knowledge::splitting;
use crate::ops::config;
use crate::ops::config::{
    OpsCodexConfig, OpsCommandConfig, OpsConfig, PathFacts,
};
use crate::ops::rules;
use crate::ops::rules::OpsArgRule;
use crate::text;

verus! {

// Calls.

/// What an argument has to be: not empty, not longer than a kilobyte, and without control
/// characters.
pub open spec fn is_plain_argument(s: Seq<char>) -> bool {
    &&& s.len() > 0
    &&& splitting::byte_len(s) <= 1024
    &&& forall|i: int| 0 <= i < s.len() ==> !text::is_control(#[trigger] s[i])
}

/// Whether the value is one that the rule lists, and fits its pattern as a whole.
pub open spec fn passes(rule: Option<OpsArgRule>, value: Seq<char>) -> bool {
    rule matches Some(r) ==> {
        &&& r.allowed_values@.len() > 0 ==> exists|i: int|
            0 <= i < r.allowed_values@.len() && (#[trigger] r.allowed_values@[i])@ == value
        &&& r.pattern is Some ==> r.fits(value)
    }
}

/// A call is allowed exactly if it has as many arguments as the command takes, and each is
/// plain and passes the rule for its place.
pub proof fn only_fitting_calls_are_allowed(command: OpsCommandConfig, args: Seq<Seq<char>>)
    ensures
        config::call_fault(command, args) is None <==> command.min_args <= args.len() <= command.max_args && (
        forall|i: int|
            0 <= i < args.len() ==> is_plain_argument(#[trigger] args[i]) && passes(
                command.args.rule(i),
                args[i],
            )),
{
    lemma_arguments(command, args);
}

proof fn lemma_arguments(command: OpsCommandConfig, args: Seq<Seq<char>>)
    ensures
        config::arguments_fault(command, args) is None <==> forall|i: int|
            0 <= i < args.len() ==> is_plain_argument(#[trigger] args[i]) && passes(
                command.args.rule(i),
                args[i],
            ),
    decreases args.len(),
{
    if args.len() > 0 {
        let front = args.drop_last();
        lemma_arguments(command, front);
        let n = args.len() - 1;
        assert(args.last() == args[n]);
        lemma_argument(command.args.rule(n), args[n], n);
        assert forall|i: int| 0 <= i < front.len() implies #[trigger] front[i] == args[i] by {}
        if config::arguments_fault(command, args) is None {
            assert forall|i: int| 0 <= i < args.len() implies is_plain_argument(#[trigger] args[i]) && passes(
                command.args.rule(i),
                args[i],
            ) by {
                if i < n {
                    assert(front[i] == args[i]);
                }
            }
        } else if config::arguments_fault(command, front) is Some {
            let i = choose|i: int|
                0 <= i < front.len() && !(is_plain_argument(#[trigger] front[i]) && passes(
                    command.args.rule(i),
                    front[i],
                ));
            assert(args[i] == front[i]);
        }
    }
}

proof fn lemma_argument(rule: Option<OpsArgRule>, value: Seq<char>, index: int)
    ensures
        config::argument_fault_given(rule, value, index, config::fits_rule(rule, value)) is None
            <==> is_plain_argument(value) && passes(rule, value),
{
    assert(rules::is_argument(value) == is_plain_argument(value)) by {
        if text::has_control(value) {
            let i = choose|i: int| 0 <= i < value.len() && text::is_control(#[trigger] value[i]);
            assert(text::is_control(value[i]));
        }
    }
    if rule is Some {
        let allowed = rule->0.allowed_values@;
        assert(text::views(allowed).len() == allowed.len());
        if text::views(allowed).contains(value) {
            let i = choose|i: int| 0 <= i < text::views(allowed).len() && text::views(allowed)[i] == value;
            assert(allowed[i]@ == value);
        }
        if exists|i: int| 0 <= i < allowed.len() && (#[trigger] allowed[i])@ == value {
            let i = choose|i: int| 0 <= i < allowed.len() && (#[trigger] allowed[i])@ == value;
            assert(text::views(allowed)[i] == value);
        }
    }
}

// Checks.

/// The name of a command is short, of letters, digits and two other characters, and none that
/// is built in.
pub open spec fn is_free_name(name: Seq<char>) -> bool {
    &&& 1 <= name.len() <= 64
    &&& forall|i: int|
        0 <= i < name.len() ==> ('a' <= (#[trigger] name[i]) <= 'z' || 'A' <= name[i] <= 'Z' || '0' <= name[i] <= '9'
            || name[i] == '_' || name[i] == '-')
    &&& name != "codex"@ && name != "list"@ && name != "cancel"@ && name != "stop"@ && name != "kill"@
        && name != "close"@
}

/// What a command has to be, but for the rules of its arguments.
pub open spec fn is_sound_command(command: OpsCommandConfig, facts: PathFacts) -> bool {
    let program = text::trimmed(command.program@);
    &&& program.len() > 0
    &&& !program.contains('\0')
    &&& text::views(facts.absolute@).contains(program)
    &&& 1 <= command.timeout_seconds <= 3600
    &&& command.max_stdout_bytes <= 65536
    &&& command.max_stderr_bytes <= 65536
    &&& command.min_args <= command.max_args <= 16
}

proof fn lemma_letter(c: char)
    ensures
        (text::is_ascii_letter(c) || text::is_digit(c)) == ('a' <= c <= 'z' || 'A' <= c <= 'Z' || '0' <= c
            <= '9'),
{
}

proof fn lemma_name(name: Seq<char>)
    ensures
        config::is_name(name, 64, "_-"@) && !config::is_reserved(name) <==> is_free_name(name),
{
    reveal_strlit("_-");
    let others = "_-"@;
    assert(others[0] == '_' && others[1] == '-' && others.len() == 2);
    assert forall|i: int| 0 <= i < name.len() implies ((text::is_ascii_letter(#[trigger] name[i])
        || text::is_digit(name[i]) || others.contains(name[i])) == ('a' <= name[i] <= 'z' || 'A' <= name[i] <= 'Z'
        || '0' <= name[i] <= '9' || name[i] == '_' || name[i] == '-')) by {
        lemma_letter(name[i]);
        if name[i] == '_' {
            assert(others[0] == name[i]);
        }
        if name[i] == '-' {
            assert(others[1] == name[i]);
        }
    }
}

/// A configuration passes its check exactly if it has no more than sixty-four commands, each
/// with a free name and sound in itself and in its rules, every id is stable, and codex is
/// switched off or sound.
pub proof fn sound_configurations_pass(c: OpsConfig, facts: PathFacts)
    ensures
        config::config_fault(c, facts) is None <==> {
            &&& c.commands.entries().len() <= 64
            &&& forall|i: int|
                0 <= i < c.private.allowed_user_ids@.len() ==> is_plain_id(
                    (#[trigger] c.private.allowed_user_ids@[i])@,
                )
            &&& forall|i: int|
                0 <= i < c.group.allowed_group_ids@.len() ==> is_plain_id(
                    (#[trigger] c.group.allowed_group_ids@[i])@,
                )
            &&& c.codex.enabled ==> is_sound_codex(c.codex, facts)
            &&& forall|i: int|
                0 <= i < c.commands.entries().len() ==> is_free_name((#[trigger] c.commands.entries()[i]).0@)
                    && is_sound_command(c.commands.entries()[i].1, facts) && has_sound_rules(
                    c.commands.entries()[i].1,
                    c.commands.entries()[i].0@,
                )
        },
{
    lemma_commands(c.commands.entries(), facts);
    lemma_codex(c.codex, facts);
    lemma_ids("private.allowed_user_ids"@, c.private.allowed_user_ids@);
    lemma_ids("group.allowed_group_ids"@, c.group.allowed_group_ids@);
}

/// An id that can be relied on: it has no blanks around it, is short and shows as it is.
pub open spec fn is_plain_id(s: Seq<char>) -> bool {
    &&& s.len() > 0
    &&& text::trimmed(s) == s
    &&& splitting::byte_len(s) <= 256
    &&& forall|i: int| 0 <= i < s.len() ==> !text::is_control(#[trigger] s[i])
}

proof fn lemma_ids(name: Seq<char>, ids: Seq<String>)
    ensures
        config::ids_fault(name, ids) is None <==> forall|i: int|
            0 <= i < ids.len() ==> is_plain_id((#[trigger] ids[i])@),
{
    assert forall|i: int| 0 <= i < ids.len() implies config::is_stable_id((#[trigger] ids[i])@) == is_plain_id(
        ids[i]@,
    ) by {
        let s = ids[i]@;
        if text::has_control(s) {
            let k = choose|k: int| 0 <= k < s.len() && text::is_control(#[trigger] s[k]);
            assert(text::is_control(s[k]));
        }
    }
}

/// Every rule is for an argument that the command takes, and is itself without fault.
pub open spec fn has_sound_rules(command: OpsCommandConfig, name: Seq<char>) -> bool {
    forall|k: int|
        0 <= k < command.args.entries().len() ==> (#[trigger] command.args.entries()[k]).0 < command.max_args
            && command.args.entries()[k].1.fault(name, command.args.entries()[k].0 as int) is None
}

proof fn lemma_rules(entries: Seq<(usize, OpsArgRule)>, name: Seq<char>, max_args: usize)
    ensures
        config::rules_fault(entries, name, max_args) is None <==> forall|k: int|
            0 <= k < entries.len() ==> (#[trigger] entries[k]).0 < max_args && entries[k].1.fault(
                name,
                entries[k].0 as int,
            ) is None,
    decreases entries.len(),
{
    if entries.len() > 0 {
        let front = entries.drop_last();
        lemma_rules(front, name, max_args);
        let n = entries.len() - 1;
        assert(entries.last() == entries[n]);
        if config::rules_fault(entries, name, max_args) is None {
            assert forall|k: int| 0 <= k < entries.len() implies (#[trigger] entries[k]).0 < max_args
                && entries[k].1.fault(name, entries[k].0 as int) is None by {
                if k < n {
                    assert(front[k] == entries[k]);
                }
            }
        } else if config::rules_fault(front, name, max_args) is Some {
            let k = choose|k: int|
                0 <= k < front.len() && !((#[trigger] front[k]).0 < max_args && front[k].1.fault(
                    name,
                    front[k].0 as int,
                ) is None);
            assert(entries[k] == front[k]);
        }
    }
}

proof fn lemma_command(command: OpsCommandConfig, name: Seq<char>, facts: PathFacts)
    ensures
        config::command_fault(command, name, facts) is None <==> is_sound_command(command, facts)
            && has_sound_rules(command, name),
{
    lemma_rules(command.args.entries(), name, command.max_args);
}

proof fn lemma_commands(
    commands: Seq<(String, OpsCommandConfig)>,
    facts: PathFacts,
)
    ensures
        config::commands_fault(commands, facts) is None <==> forall|i: int|
            0 <= i < commands.len() ==> is_free_name((#[trigger] commands[i]).0@) && is_sound_command(
                commands[i].1,
                facts,
            ) && has_sound_rules(commands[i].1, commands[i].0@),
    decreases commands.len(),
{
    if commands.len() > 0 {
        let front = commands.drop_last();
        lemma_commands(front, facts);
        let n = commands.len() - 1;
        assert(commands.last() == commands[n]);
        lemma_name(commands[n].0@);
        lemma_command(commands[n].1, commands[n].0@, facts);
        if config::commands_fault(commands, facts) is None {
            assert forall|i: int| 0 <= i < commands.len() implies is_free_name((#[trigger] commands[i]).0@)
                && is_sound_command(commands[i].1, facts) && has_sound_rules(
                commands[i].1,
                commands[i].0@,
            ) by {
                if i < n {
                    assert(front[i] == commands[i]);
                }
            }
        } else if config::commands_fault(front, facts) is Some {
            let i = choose|i: int|
                0 <= i < front.len() && !(is_free_name((#[trigger] front[i]).0@) && is_sound_command(
                    front[i].1,
                    facts,
                ) && has_sound_rules(front[i].1, front[i].0@));
            assert(commands[i] == front[i]);
        }
    }
}

/// What codex has to be where it is switched on: an existing program and directory, within its
/// limits, in one of the two safe modes, and never in reach of its own writing.
pub open spec fn is_sound_codex(codex: OpsCodexConfig, facts: PathFacts) -> bool {
    &&& text::trimmed(codex.program@) == codex.program@
    &&& text::views(facts.absolute@).contains(codex.program@)
    &&& text::views(facts.files@).contains(codex.program@)
    &&& text::trimmed(codex.working_directory@) == codex.working_directory@
    &&& text::views(facts.absolute@).contains(codex.working_directory@)
    &&& text::views(facts.directories@).contains(codex.working_directory@)
    &&& 1 <= codex.timeout_seconds <= 3600
    &&& 1 <= codex.max_prompt_bytes <= 65536
    &&& codex.max_stdout_bytes <= 65536
    &&& codex.max_stderr_bytes <= 65536
    &&& 1 <= codex.max_concurrent_tasks <= 8
    &&& config::is_name(codex.profile@, 128, "_-."@)
    &&& codex.sandbox@ == "read-only"@ || codex.sandbox@ == "workspace-write"@
    &&& facts.program_directory matches Some(Some(directory)) && (codex.sandbox@ == "workspace-write"@ ==> (
    facts.working_directory matches Some(working) && !lies_in(directory@, working@)))
}

/// Whether the first parts of the path are those of the directory.
pub open spec fn lies_in(path: Seq<String>, directory: Seq<String>) -> bool {
    directory.len() <= path.len() && forall|i: int|
        0 <= i < directory.len() ==> (#[trigger] path[i])@ == directory[i]@
}

proof fn lemma_lies_in(path: Seq<String>, directory: Seq<String>)
    ensures
        config::is_within(text::views(path), text::views(directory)) == lies_in(path, directory),
{
    let p = text::views(path);
    let d = text::views(directory);
    if config::is_within(p, d) {
        assert forall|i: int| 0 <= i < directory.len() implies (#[trigger] path[i])@ == directory[i]@ by {
            assert(p.take(d.len() as int)[i] == d[i]);
        }
    }
    if lies_in(path, directory) {
        assert forall|i: int| 0 <= i < d.len() implies #[trigger] p.take(d.len() as int)[i] == d[i] by {
            assert(path[i]@ == directory[i]@);
        }
        assert(p.take(d.len() as int) =~= d);
    }
}

proof fn lemma_codex(codex: OpsCodexConfig, facts: PathFacts)
    ensures
        config::codex_fault(codex, facts) is None <==> (codex.enabled ==> is_sound_codex(codex, facts)),
{
    if facts.program_directory is Some && facts.program_directory->0 is Some
        && facts.working_directory is Some {
        lemma_lies_in(facts.program_directory->0->0@, facts.working_directory->0@);
    }
}

/// A rule is without fault exactly if it allows something, lists only plain arguments, and its
/// pattern is short and an expression.
pub proof fn sound_rules_pass(rule: OpsArgRule, name: Seq<char>, index: int)
    ensures
        rule.fault(name, index) is None <==> {
            &&& rule.allowed_values@.len() > 0 || rule.pattern is Some
            &&& forall|i: int|
                0 <= i < rule.allowed_values@.len() ==> is_plain_argument((#[trigger] rule.allowed_values@[i])@)
            &&& rule.pattern matches Some(p) ==> splitting::byte_len(p@) <= 512
            &&& rule.pattern is Some ==> rule.pattern_error() is None
        },
{
    let allowed = rule.allowed_values@;
    assert forall|i: int| 0 <= i < allowed.len() implies rules::is_argument((#[trigger] allowed[i])@)
        == is_plain_argument(allowed[i]@) by {
        let s = allowed[i]@;
        if text::has_control(s) {
            let k = choose|k: int| 0 <= k < s.len() && text::is_control(#[trigger] s[k]);
            assert(text::is_control(s[k]));
        }
    }
}

/// Where nothing is configured nothing can be done: all is switched off, and nobody may ask.
pub proof fn nothing_is_on_by_default(c: OpsConfig)
    requires
        config::is_default_config(c),
    ensures
        !c.enabled,
        !c.private.enabled,
        !c.group.enabled,
        !c.codex.enabled,
        c.private.allowed_user_ids@.len() == 0,
        c.group.allowed_group_ids@.len() == 0,
        c.commands.entries().len() == 0,
{
}

} // verus!
