//! The dispatcher: resolves a raw input string to a URL by exact alias
//! lookup, first-match rule search, and template expansion, falling back to
//! the default command on the whole input when strict resolution yields
//! nothing.

use vstd::prelude::*;

use crate::config::{
    templates_ok, CommandModel, CommandNode, Config, ConfigModel, PatternModel, RuleModel,
    RulePattern,
};
use crate::regexes;
use crate::templates;
use crate::text::{decimal, first_word, rest_text, spec_decimal, split_input, str_eq};

verus! {

// ---------------------------------------------------------------------------
// The registry
// ---------------------------------------------------------------------------

/// The alias map a command list builds: commands are walked in order and
/// every alias of a command is bound to it, a later command silently
/// overwriting an earlier one that shares an alias.
pub open spec fn registry_map(commands: Seq<CommandModel>) -> Map<Seq<char>, CommandModel>
    decreases commands.len(),
{
    if commands.len() == 0 {
        Map::empty()
    } else {
        insert_names(registry_map(commands.drop_last()), commands.last().names, commands.last())
    }
}

/// Binds a command under every one of the given alias names.
pub open spec fn insert_names(
    m: Map<Seq<char>, CommandModel>,
    names: Seq<Seq<char>>,
    c: CommandModel,
) -> Map<Seq<char>, CommandModel>
    decreases names.len(),
{
    if names.len() == 0 {
        m
    } else {
        insert_names(m, names.drop_last(), c).insert(names.last(), c)
    }
}

/// The designated default command: the last one marked default, which under
/// a well-formed configuration is the only one.
pub open spec fn spec_default(commands: Seq<CommandModel>) -> Option<CommandModel>
    decreases commands.len(),
{
    if commands.len() == 0 {
        None
    } else if commands.last().is_default {
        Some(commands.last())
    } else {
        spec_default(commands.drop_last())
    }
}

/// The model of a built command handler: the alias map and the optional
/// default command.
pub struct HandlerModel {
    pub map: Map<Seq<char>, CommandModel>,
    pub default: Option<CommandModel>,
}

/// The handler a configuration builds.
pub open spec fn spec_handler(c: ConfigModel) -> HandlerModel {
    HandlerModel { map: registry_map(c.commands), default: spec_default(c.commands) }
}

/// The dispatcher: an immutable view of the configured commands, built once
/// and then only read.
pub struct CommandHandler<'a> {
    config: &'a Config,
    default_index: Option<usize>,
}

impl<'a> View for CommandHandler<'a> {
    type V = HandlerModel;

    closed spec fn view(&self) -> HandlerModel {
        HandlerModel {
            map: registry_map(self.config@.commands),
            default: match self.default_index {
                Some(i) => if i < self.config@.commands.len() {
                    Some(self.config@.commands[i as int])
                } else {
                    None
                },
                None => None,
            },
        }
    }
}

impl<'a> CommandHandler<'a> {
    /// A handler is well formed when its configuration is and its stored
    /// default is the configuration's designated default.
    pub closed spec fn wf(&self) -> bool {
        &&& self.config@.wf()
        &&& match self.default_index {
            Some(i) => i < self.config@.commands.len() && self.config@.commands[i as int] == spec_default(
                self.config@.commands,
            ).unwrap(),
            None => spec_default(self.config@.commands) is None,
        }
    }

    /// Builds the registry over a validated configuration: every alias of
    /// every command bound to its command, plus the designated default.
    pub fn new(config: &'a Config) -> (handler: CommandHandler<'a>)
        requires
            config@.wf(),
        ensures
            handler.wf(),
            handler@ == spec_handler(config@),
    {
        let ghost commands = config@.commands;
        let mut default_index: Option<usize> = None;
        let n = config.commands.len();
        let mut i: usize = 0;
        while i < n
            invariant
                n == config.commands.len(),
                commands == config@.commands,
                0 <= i <= n,
                match default_index {
                    Some(d) => d < i && commands[d as int] == spec_default(
                        commands.take(i as int),
                    ).unwrap() && spec_default(commands.take(i as int)) is Some,
                    None => spec_default(commands.take(i as int)) is None,
                },
            decreases n - i,
        {
            proof {
                assert(commands.take(i + 1).drop_last() =~= commands.take(i as int));
                assert(commands.take(i + 1).last() == commands[i as int]);
            }
            if config.commands[i].is_default {
                default_index = Some(i);
            }
            i += 1;
        }
        proof {
            assert(commands.take(n as int) =~= commands);
        }
        let handler = CommandHandler { config, default_index };
        proof {
            assert(handler@.map =~~= spec_handler(config@).map);
            assert(handler@ =~~= spec_handler(config@));
        }
        handler
    }

    /// Finds the command a name is bound to: the last command, in
    /// configuration order, that lists the name among its aliases. Lookup is
    /// exact and case-sensitive.
    fn lookup(&self, name: &str) -> (r: Option<usize>)
        ensures
            match r {
                Some(i) => i < self.config@.commands.len() && spec_lookup(
                    self.config@.commands,
                    name@,
                ) == Some(self.config@.commands[i as int]),
                None => spec_lookup(self.config@.commands, name@) is None,
            },
    {
        let ghost commands = self.config@.commands;
        let n = self.config.commands.len();
        proof {
            assert(commands.take(n as int) =~= commands);
        }
        let mut i: usize = n;
        while i > 0
            invariant
                n == self.config.commands.len(),
                commands == self.config@.commands,
                0 <= i <= n,
                spec_lookup(commands, name@) == spec_lookup(commands.take(i as int), name@),
            decreases i,
        {
            i -= 1;
            proof {
                assert(commands.take(i + 1).drop_last() =~= commands.take(i as int));
                assert(commands.take(i + 1).last() == commands[i as int]);
                assert(commands[i as int] == self.config.commands@[i as int]@);
            }
            if names_contain(&self.config.commands[i].names, name) {
                return Some(i);
            }
        }
        proof {
            assert(commands.take(0) =~= Seq::<CommandModel>::empty());
        }
        None
    }

    /// Strict resolution: look the typed name up, and search that command's
    /// rules against the argument text.
    fn handle_strict(&self, input: &str) -> (r: Option<String>)
        requires
            self.wf(),
        ensures
            r.deep_view() == spec_strict(self@, input@),
    {
        let (name, arg) = split_input(input);
        proof {
            lemma_lookup_is_registry(self.config@.commands, name@);
        }
        match self.lookup(name) {
            Some(i) => {
                proof {
                    assert(self.config@.commands[i as int] == self.config.commands@[i as int]@);
                    assert(templates_ok(self.config@.commands[i as int].rules));
                }
                handle_command(&self.config.commands[i], arg)
            },
            None => None,
        }
    }

    /// Resolves a raw input string to a URL: strict resolution first, then,
    /// when that yields nothing and a default command exists, its rules are
    /// searched against the entire original input. `None` is the normal
    /// no-match outcome, not an error. The result is a function of the built
    /// registry and the input alone, so repeated calls agree.
    pub fn handle(&self, input: &str) -> (r: Option<String>)
        requires
            self.wf(),
        ensures
            r.deep_view() == spec_handle(self@, input@),
    {
        let ret = self.handle_strict(input);
        match ret {
            Some(url) => Some(url),
            None => match self.default_index {
                Some(d) => {
                    proof {
                        let ghost dd = d as int;
                        assert(self.config@.commands[dd] == self.config.commands@[dd]@);
                        assert(templates_ok(self.config@.commands[dd].rules));
                    }
                    handle_command(&self.config.commands[d], input)
                },
                None => None,
            },
        }
    }
}

/// Whether one of the alias names is exactly the given name.
fn names_contain(names: &Vec<String>, name: &str) -> (r: bool)
    ensures
        r == names.deep_view().contains(name@),
{
    let n = names.len();
    let mut k: usize = 0;
    while k < n
        invariant
            n == names@.len(),
            0 <= k <= n,
            forall|j: int| 0 <= j < k ==> names@[j]@ != name@,
        decreases n - k,
    {
        if str_eq(names[k].as_str(), name) {
            assert(names.deep_view()[k as int] == name@);
            return true;
        }
        k += 1;
    }
    assert(forall|j: int| 0 <= j < names.deep_view().len() ==> names.deep_view()[j] != name@);
    false
}

// ---------------------------------------------------------------------------
// Rule matching and template expansion
// ---------------------------------------------------------------------------

/// What matching argument text against a pattern yields: `None` when the
/// pattern does not apply, otherwise the placeholder bindings, in group
/// order. A named group binds under its name, an unnamed group under its
/// decimal index; a group that did not participate binds nothing. The empty
/// and freeform patterns bind the whole argument as the implicit group 0.
pub open spec fn spec_rule_bindings(p: PatternModel, arg: Seq<char>) -> Option<
    Seq<(Seq<char>, Seq<char>)>,
> {
    match p {
        PatternModel::NoArgs => if arg.len() == 0 {
            Some(seq![(spec_decimal(0), arg)])
        } else {
            None
        },
        PatternModel::Freeform => Some(seq![(spec_decimal(0), arg)]),
        PatternModel::Regex(pat) => match regexes::re_caps(pat, arg) {
            Some(groups) => Some(spec_bindings_from(regexes::re_names(pat), groups, 0)),
            None => None,
        },
    }
}

/// The bindings that the capture groups from index `i` on contribute.
pub open spec fn spec_bindings_from(
    names: Seq<Option<Seq<char>>>,
    groups: Seq<Option<Seq<char>>>,
    i: int,
) -> Seq<(Seq<char>, Seq<char>)>
    decreases names.len() - i,
{
    if i < 0 || i >= names.len() || i >= groups.len() {
        Seq::empty()
    } else {
        let rest = spec_bindings_from(names, groups, i + 1);
        match groups[i] {
            Some(v) => {
                let key = match names[i] {
                    Some(n) => n,
                    None => spec_decimal(i as nat),
                };
                seq![(key, v)] + rest
            },
            None => rest,
        }
    }
}

/// The variable map a binding list fills: bindings applied in order, a later
/// binding of the same placeholder replacing an earlier one.
pub open spec fn bindings_map(bs: Seq<(Seq<char>, Seq<char>)>) -> Map<Seq<char>, Seq<char>>
    decreases bs.len(),
{
    if bs.len() == 0 {
        Map::empty()
    } else {
        bindings_map(bs.drop_last()).insert(bs.last().0, bs.last().1)
    }
}

/// The result of searching rules in declared order: the expansion of the
/// first rule whose pattern matches the argument text, and nothing when no
/// rule matches.
pub open spec fn spec_rules_result(rules: Seq<RuleModel>, arg: Seq<char>) -> Option<Seq<char>>
    decreases rules.len(),
{
    if rules.len() == 0 {
        None
    } else {
        match spec_rule_bindings(rules[0].pattern, arg) {
            Some(bs) => Some(
                templates::uri_expansion(rules[0].template, bindings_map(bs)),
            ),
            None => spec_rules_result(rules.drop_first(), arg),
        }
    }
}

/// What one command yields for given argument text.
pub open spec fn spec_handle_command(c: CommandModel, arg: Seq<char>) -> Option<Seq<char>> {
    spec_rules_result(c.rules, arg)
}

/// Strict resolution: the typed name looked up exactly, and the found
/// command's rules searched against the argument text.
pub open spec fn spec_strict(h: HandlerModel, input: Seq<char>) -> Option<Seq<char>> {
    let name = first_word(input);
    if h.map.contains_key(name) {
        spec_handle_command(h.map[name], rest_text(input))
    } else {
        None
    }
}

/// Full resolution: strict resolution, and when it yields nothing, the
/// default command searched against the entire original input.
pub open spec fn spec_handle(h: HandlerModel, input: Seq<char>) -> Option<Seq<char>> {
    match spec_strict(h, input) {
        Some(url) => Some(url),
        None => match h.default {
            Some(c) => spec_handle_command(c, input),
            None => None,
        },
    }
}

/// The last command whose aliases contain the name, walking backwards, as
/// the alias map has it.
pub open spec fn spec_lookup(commands: Seq<CommandModel>, name: Seq<char>) -> Option<CommandModel>
    decreases commands.len(),
{
    if commands.len() == 0 {
        None
    } else if commands.last().names.contains(name) {
        Some(commands.last())
    } else {
        spec_lookup(commands.drop_last(), name)
    }
}

proof fn lemma_insert_names_key(
    m: Map<Seq<char>, CommandModel>,
    names: Seq<Seq<char>>,
    c: CommandModel,
    name: Seq<char>,
)
    ensures
        insert_names(m, names, c).contains_key(name) <==> (m.contains_key(name) || names.contains(
            name,
        )),
        insert_names(m, names, c).contains_key(name) ==> insert_names(m, names, c)[name] == (
        if names.contains(name) {
            c
        } else {
            m[name]
        }),
    decreases names.len(),
{
    if names.len() == 0 {
        assert(!names.contains(name));
    } else {
        lemma_insert_names_key(m, names.drop_last(), c, name);
        assert(names.contains(name) <==> (names.last() == name || names.drop_last().contains(
            name,
        ))) by {
            if names.contains(name) {
                let k = choose|k: int| 0 <= k < names.len() && names[k] == name;
                if k < names.len() - 1 {
                    assert(names.drop_last()[k] == name);
                }
            }
            if names.drop_last().contains(name) {
                let k = choose|k: int|
                    0 <= k < names.drop_last().len() && names.drop_last()[k] == name;
                assert(names[k] == name);
            }
        }
    }
}

/// The backwards alias scan agrees with the alias map: looking a name up
/// finds exactly the registered command.
pub proof fn lemma_lookup_is_registry(commands: Seq<CommandModel>, name: Seq<char>)
    ensures
        spec_lookup(commands, name) == (if registry_map(commands).contains_key(name) {
            Some(registry_map(commands)[name])
        } else {
            None::<CommandModel>
        }),
    decreases commands.len(),
{
    if commands.len() == 0 {
        assert(!registry_map(commands).contains_key(name));
    } else {
        lemma_lookup_is_registry(commands.drop_last(), name);
        lemma_insert_names_key(
            registry_map(commands.drop_last()),
            commands.last().names,
            commands.last(),
            name,
        );
    }
}

/// Searches a command's rules in declared order against the argument text
/// and expands the first matching rule's template.
#[verifier::loop_isolation(false)]
fn handle_command(command: &CommandNode, arg: &str) -> (r: Option<String>)
    requires
        templates_ok(command@.rules),
    ensures
        r.deep_view() == spec_handle_command(command@, arg@),
{
    let ghost rules = command@.rules;
    let n = command.rules.len();
    proof {
        assert(rules.skip(0) =~= rules);
    }
    let mut i: usize = 0;
    while i < n
        invariant
            n == command.rules@.len(),
            rules == command@.rules,
            0 <= i <= n,
            spec_rules_result(rules, arg@) == spec_rules_result(rules.skip(i as int), arg@),
        decreases n - i,
    {
        let rule = &command.rules[i];
        proof {
            assert(rules.skip(i as int).drop_first() =~= rules.skip(i + 1));
            assert(rules.skip(i as int)[0] == rules[i as int]);
            assert(rules[i as int] == rule@);
        }
        match rule_bindings(&rule.pattern, arg) {
            Some(bindings) => {
                proof {
                    assert(templates::spec_template_ok(rules[i as int].template));
                }
                let url = expand(rule.template.as_str(), &bindings);
                return Some(url);
            },
            None => {},
        }
        i += 1;
    }
    proof {
        assert(rules.skip(n as int) =~= Seq::<RuleModel>::empty());
    }
    None
}

/// Matches argument text against one pattern and collects the placeholder
/// bindings of the winning match.
fn rule_bindings(pattern: &RulePattern, arg: &str) -> (r: Option<Vec<(String, String)>>)
    ensures
        r.deep_view() == spec_rule_bindings(pattern@, arg@),
{
    match pattern {
        RulePattern::NoArgs => {
            if arg.unicode_len() == 0 {
                let mut v: Vec<(String, String)> = Vec::new();
                v.push((decimal(0), String::new()));
                proof {
                    assert(arg@ =~= Seq::<char>::empty());
                    assert(v.deep_view() =~~= seq![(spec_decimal(0), arg@)]);
                }
                Some(v)
            } else {
                None
            }
        },
        RulePattern::Freeform => {
            let mut v: Vec<(String, String)> = Vec::new();
            v.push((decimal(0), String::from_str(arg)));
            proof {
                assert(v.deep_view() =~~= seq![(spec_decimal(0), arg@)]);
            }
            Some(v)
        },
        RulePattern::Regex(re) => {
            let ghost pat = regexes::re_pattern(*re);
            let names = regexes::regex_group_names(re);
            match regexes::regex_captures(re, arg) {
                Some(groups) => {
                    let ghost names_model = regexes::re_names(pat);
                    let ghost groups_model = regexes::re_caps(pat, arg@).unwrap();
                    let n = names.len();
                    proof {
                        assert(groups.deep_view().len() == groups@.len());
                        assert(names.deep_view().len() == names@.len());
                    }
                    let mut v: Vec<(String, String)> = Vec::new();
                    let mut i: usize = 0;
                    while i < n
                        invariant
                            n == names@.len(),
                            groups@.len() == n,
                            names.deep_view() == names_model,
                            groups.deep_view() == groups_model,
                            0 <= i <= n,
                            spec_bindings_from(names_model, groups_model, 0) =~~= v.deep_view()
                                + spec_bindings_from(names_model, groups_model, i as int),
                        decreases n - i,
                    {
                        proof {
                            assert(groups_model[i as int] == groups.deep_view()[i as int]);
                            assert(names_model[i as int] == names.deep_view()[i as int]);
                        }
                        match &groups[i] {
                            Some(val) => {
                                let key: String = match &names[i] {
                                    Some(nm) => nm.clone(),
                                    None => decimal(i),
                                };
                                v.push((key, val.clone()));
                                proof {
                                    assert(v.deep_view().last() =~~= (
                                        match names_model[i as int] {
                                            Some(nm) => nm,
                                            None => spec_decimal(i as nat),
                                        },
                                        groups_model[i as int].unwrap(),
                                    ));
                                    assert(v.deep_view() =~~= v.deep_view().drop_last().push(
                                        v.deep_view().last(),
                                    ));
                                }
                            },
                            None => {},
                        }
                        i += 1;
                    }
                    proof {
                        assert(spec_bindings_from(names_model, groups_model, n as int)
                            =~= Seq::<(Seq<char>, Seq<char>)>::empty());
                        assert(v.deep_view() =~~= spec_bindings_from(names_model, groups_model, 0));
                    }
                    Some(v)
                },
                None => None,
            }
        },
    }
}

// ---------------------------------------------------------------------------
// Laws of resolution
// ---------------------------------------------------------------------------

/// First-match wins: when the rule at position `i` matches the argument
/// text and every rule before it does not, the command yields that rule's
/// expansion, whatever any later rule would have yielded.
pub proof fn lemma_first_match_wins(c: CommandModel, arg: Seq<char>, i: int)
    requires
        0 <= i < c.rules.len(),
        spec_rule_bindings(c.rules[i].pattern, arg) is Some,
        forall|j: int| 0 <= j < i ==> spec_rule_bindings(c.rules[j].pattern, arg) is None,
    ensures
        spec_handle_command(c, arg) == Some(
            templates::uri_expansion(
                c.rules[i].template,
                bindings_map(spec_rule_bindings(c.rules[i].pattern, arg).unwrap()),
            ),
        ),
    decreases i,
{
    if i == 0 {
    } else {
        let tail = CommandModel { rules: c.rules.drop_first(), ..c };
        assert(spec_rule_bindings(c.rules[0].pattern, arg) is None);
        assert(tail.rules[i - 1] == c.rules[i]);
        assert forall|j: int| 0 <= j < i - 1 implies spec_rule_bindings(
            tail.rules[j].pattern,
            arg,
        ) is None by {
            assert(tail.rules[j] == c.rules[j + 1]);
        }
        lemma_first_match_wins(tail, arg, i - 1);
    }
}

/// Exact alias matching: a typed name that no command lists among its
/// aliases never resolves strictly, so with no default command the whole
/// resolution is absent.
pub proof fn lemma_unknown_alias_absent(h: HandlerModel, input: Seq<char>)
    requires
        !h.map.contains_key(first_word(input)),
        h.default is None,
    ensures
        spec_handle(h, input) is None,
{
}

/// Default fallback uses the full input: when the typed name is not a
/// registered alias and a default command exists, resolution is that
/// command's match against the entire original input, not the argument text.
pub proof fn lemma_default_uses_full_input(h: HandlerModel, input: Seq<char>)
    requires
        !h.map.contains_key(first_word(input)),
        h.default is Some,
    ensures
        spec_handle(h, input) == spec_handle_command(h.default.unwrap(), input),
{
}

/// Default fallback with a freeform rule: when the typed name is not a
/// registered alias and the default command's first matching rule is
/// freeform, the entire original input is what that rule's template is
/// expanded with, bound as the implicit group 0.
pub proof fn lemma_default_freeform_full_input(h: HandlerModel, input: Seq<char>, i: int)
    requires
        !h.map.contains_key(first_word(input)),
        h.default is Some,
        0 <= i < h.default.unwrap().rules.len(),
        h.default.unwrap().rules[i].pattern is Freeform,
        forall|j: int| 0 <= j < i ==> spec_rule_bindings(
            h.default.unwrap().rules[j].pattern,
            input,
        ) is None,
    ensures
        spec_handle(h, input) == Some(
            templates::uri_expansion(
                h.default.unwrap().rules[i].template,
                bindings_map(seq![(spec_decimal(0), input)]),
            ),
        ),
{
    lemma_default_uses_full_input(h, input);
    let d = h.default.unwrap();
    assert(spec_rule_bindings(d.rules[i].pattern, input) == Some(
        seq![(spec_decimal(0), input)],
    ));
    lemma_first_match_wins(d, input, i);
}

proof fn lemma_noargs_rules_none(rules: Seq<RuleModel>, arg: Seq<char>)
    requires
        arg.len() > 0,
        forall|i: int| 0 <= i < rules.len() ==> rules[i].pattern is NoArgs,
    ensures
        spec_rules_result(rules, arg) is None,
    decreases rules.len(),
{
    if rules.len() > 0 {
        assert(rules[0].pattern is NoArgs);
        assert forall|i: int|
            0 <= i < rules.drop_first().len() implies rules.drop_first()[i].pattern is NoArgs by {
            assert(rules.drop_first()[i] == rules[i + 1]);
        }
        lemma_noargs_rules_none(rules.drop_first(), arg);
    }
}

/// No match is absent, not an error: when the typed name reaches a command
/// whose rules all take no argument, non-empty argument text matches none of
/// them, and with no default command the whole resolution is absent.
pub proof fn lemma_noargs_absent(h: HandlerModel, input: Seq<char>)
    requires
        h.default is None,
        rest_text(input).len() > 0,
        h.map.contains_key(first_word(input)) ==> forall|i: int|
            0 <= i < h.map[first_word(input)].rules.len() ==> h.map[first_word(
                input,
            )].rules[i].pattern is NoArgs,
    ensures
        spec_handle(h, input) is None,
{
    if h.map.contains_key(first_word(input)) {
        lemma_noargs_rules_none(h.map[first_word(input)].rules, rest_text(input));
    }
}

/// Expands a URL template: every binding set on the template, in order, then
/// the template built.
fn expand(template: &str, bindings: &Vec<(String, String)>) -> (r: String)
    requires
        templates::spec_template_ok(template@),
    ensures
        r@ == templates::uri_expansion(template@, bindings_map(bindings.deep_view())),
{
    let mut t = templates::template_new(template);
    let n = bindings.len();
    let mut i: usize = 0;
    while i < n
        invariant
            n == bindings@.len(),
            0 <= i <= n,
            templates::ut_template(t) == template@,
            templates::ut_vars(t) == bindings_map(bindings.deep_view().take(i as int)),
        decreases n - i,
    {
        let pair = &bindings[i];
        templates::template_set(&mut t, pair.0.as_str(), pair.1.as_str());
        proof {
            assert(bindings.deep_view().take(i + 1).drop_last() =~~= bindings.deep_view().take(
                i as int,
            ));
            assert(bindings.deep_view().take(i + 1).last() =~~= (pair.0@, pair.1@));
        }
        i += 1;
    }
    proof {
        assert(bindings.deep_view().take(n as int) =~~= bindings.deep_view());
    }
    templates::template_build(&t)
}

} // verus!
