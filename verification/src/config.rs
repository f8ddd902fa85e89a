//! The configuration consumed by the dispatch engine: command definitions
//! built from a tree of plain configuration nodes (name, values, properties,
//! children), as the external configuration loader hands them over.

use vstd::prelude::*;

use crate::regexes;
use crate::templates;
use crate::text::str_eq;

verus! {

// ---------------------------------------------------------------------------
// Input: plain configuration nodes
// ---------------------------------------------------------------------------

/// One value attached to a configuration node. Values that the engine never
/// reads (numbers, nulls) are collapsed into `Other`.
#[derive(Debug)]
pub enum NodeValue {
    Str(String),
    Bool(bool),
    Other,
}

/// Mathematical model of a `NodeValue`.
pub enum ValueModel {
    Str(Seq<char>),
    Bool(bool),
    Other,
}

impl View for NodeValue {
    type V = ValueModel;

    open spec fn view(&self) -> ValueModel {
        match self {
            NodeValue::Str(s) => ValueModel::Str(s@),
            NodeValue::Bool(b) => ValueModel::Bool(*b),
            NodeValue::Other => ValueModel::Other,
        }
    }
}


/// The models of a list of node values.
pub open spec fn value_views(s: Seq<NodeValue>) -> Seq<ValueModel> {
    s.map_values(|v: NodeValue| v@)
}

/// A leaf configuration node: a single rule (`noargs`, `freeform`, `regex`)
/// or a single conformance sample (`accept`).
#[derive(Debug)]
pub struct ItemNode {
    pub name: String,
    pub values: Vec<NodeValue>,
}

/// Mathematical model of an `ItemNode`.
pub struct ItemModel {
    pub name: Seq<char>,
    pub values: Seq<ValueModel>,
}

impl View for ItemNode {
    type V = ItemModel;

    open spec fn view(&self) -> ItemModel {
        ItemModel { name: self.name@, values: value_views(self.values@) }
    }
}

/// The models of a list of leaf nodes.
pub open spec fn item_views(s: Seq<ItemNode>) -> Seq<ItemModel> {
    s.map_values(|i: ItemNode| i@)
}

/// A grouping configuration node (`rules` or `tests`) holding leaf nodes.
#[derive(Debug)]
pub struct SectionNode {
    pub name: String,
    pub items: Vec<ItemNode>,
}

/// Mathematical model of a `SectionNode`.
pub struct SectionModel {
    pub name: Seq<char>,
    pub items: Seq<ItemModel>,
}

impl View for SectionNode {
    type V = SectionModel;

    open spec fn view(&self) -> SectionModel {
        SectionModel { name: self.name@, items: item_views(self.items@) }
    }
}

/// The models of a list of grouping nodes.
pub open spec fn section_views(s: Seq<SectionNode>) -> Seq<SectionModel> {
    s.map_values(|n: SectionNode| n@)
}

/// The models of a list of node properties.
pub open spec fn prop_views(s: Seq<(String, NodeValue)>) -> Seq<(Seq<char>, ValueModel)> {
    s.map_values(|p: (String, NodeValue)| (p.0@, p.1@))
}

/// A top-level configuration node describing one command: its values are the
/// alias names, its properties may mark it as the default, and its children
/// group the rules and the conformance samples.
#[derive(Debug)]
pub struct CommandSource {
    pub name: String,
    pub values: Vec<NodeValue>,
    pub properties: Vec<(String, NodeValue)>,
    pub sections: Vec<SectionNode>,
}

/// Mathematical model of a `CommandSource`.
pub struct CommandSourceModel {
    pub name: Seq<char>,
    pub values: Seq<ValueModel>,
    pub properties: Seq<(Seq<char>, ValueModel)>,
    pub sections: Seq<SectionModel>,
}

impl View for CommandSource {
    type V = CommandSourceModel;

    open spec fn view(&self) -> CommandSourceModel {
        CommandSourceModel {
            name: self.name@,
            values: value_views(self.values@),
            properties: prop_views(self.properties@),
            sections: section_views(self.sections@),
        }
    }
}

// ---------------------------------------------------------------------------
// Output: the validated command definitions
// ---------------------------------------------------------------------------

/// The matching strategy of one rule: only the empty argument, any argument,
/// or the strings accepted by a compiled regular expression.
#[derive(Debug)]
pub enum RulePattern {
    NoArgs,
    Freeform,
    Regex(regex::Regex),
}

/// Mathematical model of a `RulePattern`; a compiled regular expression is
/// represented by its pattern text.
pub enum PatternModel {
    NoArgs,
    Freeform,
    Regex(Seq<char>),
}

impl View for RulePattern {
    type V = PatternModel;

    open spec fn view(&self) -> PatternModel {
        match self {
            RulePattern::NoArgs => PatternModel::NoArgs,
            RulePattern::Freeform => PatternModel::Freeform,
            RulePattern::Regex(re) => PatternModel::Regex(regexes::re_pattern(*re)),
        }
    }
}

/// One rule: a pattern deciding whether the rule applies to given argument
/// text, and the URL template expanded when it does.
#[derive(Debug)]
pub struct RuleNode {
    pub pattern: RulePattern,
    pub template: String,
}

/// Mathematical model of a `RuleNode`.
pub struct RuleModel {
    pub pattern: PatternModel,
    pub template: Seq<char>,
}

impl View for RuleNode {
    type V = RuleModel;

    open spec fn view(&self) -> RuleModel {
        RuleModel { pattern: self.pattern@, template: self.template@ }
    }
}

/// The models of a list of rules.
pub open spec fn rule_views(s: Seq<RuleNode>) -> Seq<RuleModel> {
    s.map_values(|r: RuleNode| r@)
}

/// The ordered rules of one command.
#[derive(Debug)]
pub struct RulesNode(pub Vec<RuleNode>);

impl View for RulesNode {
    type V = Seq<RuleModel>;

    open spec fn view(&self) -> Seq<RuleModel> {
        rule_views(self.0@)
    }
}

/// One conformance sample: an input and the URL it must resolve to.
#[derive(Debug)]
pub struct TestNode {
    pub input: String,
    pub expected_url: String,
}

/// Mathematical model of a `TestNode`.
pub struct TestModel {
    pub input: Seq<char>,
    pub expected_url: Seq<char>,
}

impl View for TestNode {
    type V = TestModel;

    open spec fn view(&self) -> TestModel {
        TestModel { input: self.input@, expected_url: self.expected_url@ }
    }
}

/// The models of a list of conformance samples.
pub open spec fn test_views(s: Seq<TestNode>) -> Seq<TestModel> {
    s.map_values(|t: TestNode| t@)
}

/// The conformance samples of one command.
#[derive(Debug)]
pub struct TestsNode(pub Vec<TestNode>);

impl View for TestsNode {
    type V = Seq<TestModel>;

    open spec fn view(&self) -> Seq<TestModel> {
        test_views(self.0@)
    }
}

/// One command definition: its alias names, its ordered rules, its
/// conformance samples, and whether it is the fallback default.
#[derive(Debug)]
pub struct CommandNode {
    pub names: Vec<String>,
    pub rules: Vec<RuleNode>,
    pub tests: Vec<TestNode>,
    pub is_default: bool,
}

/// Mathematical model of a `CommandNode`.
pub struct CommandModel {
    pub names: Seq<Seq<char>>,
    pub rules: Seq<RuleModel>,
    pub tests: Seq<TestModel>,
    pub is_default: bool,
}

impl View for CommandNode {
    type V = CommandModel;

    open spec fn view(&self) -> CommandModel {
        CommandModel {
            names: self.names.deep_view(),
            rules: rule_views(self.rules@),
            tests: test_views(self.tests@),
            is_default: self.is_default,
        }
    }
}

/// The models of a list of command definitions.
pub open spec fn command_views(s: Seq<CommandNode>) -> Seq<CommandModel> {
    s.map_values(|c: CommandNode| c@)
}

/// The whole validated configuration: the list of command definitions.
#[derive(Debug)]
pub struct Config {
    pub commands: Vec<CommandNode>,
}

/// Mathematical model of a `Config`.
pub struct ConfigModel {
    pub commands: Seq<CommandModel>,
}

impl View for Config {
    type V = ConfigModel;

    open spec fn view(&self) -> ConfigModel {
        ConfigModel { commands: command_views(self.commands@) }
    }
}

/// How many commands of the list are marked as the default.
pub open spec fn count_defaults(commands: Seq<CommandModel>) -> int
    decreases commands.len(),
{
    if commands.len() == 0 {
        0
    } else {
        count_defaults(commands.drop_last()) + if commands.last().is_default {
            1int
        } else {
            0int
        }
    }
}

/// Whether every rule's URL template can be expanded without fault.
pub open spec fn templates_ok(rules: Seq<RuleModel>) -> bool {
    forall|j: int| 0 <= j < rules.len() ==> templates::spec_template_ok(rules[j].template)
}

impl ConfigModel {
    /// A configuration is well formed when every command declares at least
    /// one alias, at most one command is marked as the default, and every
    /// rule's template can be expanded without fault.
    pub open spec fn wf(&self) -> bool {
        &&& forall|i: int| 0 <= i < self.commands.len() ==> self.commands[i].names.len() > 0
        &&& count_defaults(self.commands) <= 1
        &&& forall|i: int| 0 <= i < self.commands.len() ==> templates_ok(self.commands[i].rules)
    }
}

// ---------------------------------------------------------------------------
// Errors
// ---------------------------------------------------------------------------

/// Everything that can be wrong with the configuration handed to the engine.
/// All of it is rejected while the registry is built; resolution itself has
/// no error conditions.
#[derive(Debug, Clone, PartialEq, Eq)]
pub enum ConfigError {
    /// A `noargs` rule did not carry exactly one string value.
    NoArgsValues,
    /// A `freeform` rule did not carry exactly one string value.
    FreeformValues,
    /// A `regex` rule did not carry exactly two string values.
    RegexValues,
    /// A `regex` rule carried a pattern that does not compile; the offending
    /// pattern is kept.
    InvalidPattern(String),
    /// A rule carried a URL template the expander cannot take: a placeholder
    /// holding a non-ASCII character or a `:` prefix modifier. The offending
    /// template is kept.
    InvalidTemplate(String),
    /// A rule node was neither `noargs`, `freeform` nor `regex`.
    UnknownRule,
    /// A node handed over as a rules section was not named `rules`.
    NotRules,
    /// A conformance sample node was not named `accept`.
    NotAccept,
    /// An `accept` node did not carry exactly two string values.
    AcceptValues,
    /// A node handed over as a tests section was not named `tests`.
    NotTests,
    /// A top-level node was not named `command`.
    NotCommand,
    /// An alias of a command was not a string value.
    NameNotString,
    /// A command declared no alias at all.
    EmptyAliases,
    /// The `default` property of a command was not a boolean.
    DefaultNotBool,
    /// A child of a command was neither a `rules` nor a `tests` section.
    UnknownSection,
    /// More than one command was marked as the default.
    MultipleDefaults,
}

/// Mathematical model of a `ConfigError`.
pub enum ErrorModel {
    NoArgsValues,
    FreeformValues,
    RegexValues,
    InvalidPattern(Seq<char>),
    InvalidTemplate(Seq<char>),
    UnknownRule,
    NotRules,
    NotAccept,
    AcceptValues,
    NotTests,
    NotCommand,
    NameNotString,
    EmptyAliases,
    DefaultNotBool,
    UnknownSection,
    MultipleDefaults,
}

/// The model of a parse result: the parsed value's model, or the error's.
pub open spec fn res_view<T: View, E: View>(r: Result<T, E>) -> Result<T::V, E::V> {
    match r {
        Ok(x) => Ok(x@),
        Err(e) => Err(e@),
    }
}

impl View for ConfigError {
    type V = ErrorModel;

    open spec fn view(&self) -> ErrorModel {
        match self {
            ConfigError::NoArgsValues => ErrorModel::NoArgsValues,
            ConfigError::FreeformValues => ErrorModel::FreeformValues,
            ConfigError::RegexValues => ErrorModel::RegexValues,
            ConfigError::InvalidPattern(p) => ErrorModel::InvalidPattern(p@),
            ConfigError::InvalidTemplate(t) => ErrorModel::InvalidTemplate(t@),
            ConfigError::UnknownRule => ErrorModel::UnknownRule,
            ConfigError::NotRules => ErrorModel::NotRules,
            ConfigError::NotAccept => ErrorModel::NotAccept,
            ConfigError::AcceptValues => ErrorModel::AcceptValues,
            ConfigError::NotTests => ErrorModel::NotTests,
            ConfigError::NotCommand => ErrorModel::NotCommand,
            ConfigError::NameNotString => ErrorModel::NameNotString,
            ConfigError::EmptyAliases => ErrorModel::EmptyAliases,
            ConfigError::DefaultNotBool => ErrorModel::DefaultNotBool,
            ConfigError::UnknownSection => ErrorModel::UnknownSection,
            ConfigError::MultipleDefaults => ErrorModel::MultipleDefaults,
        }
    }
}

// ---------------------------------------------------------------------------
// Building the command definitions from configuration nodes
// ---------------------------------------------------------------------------

/// What one rule node yields: a `noargs`, `freeform` or `regex` node carrying
/// the template (and, for `regex`, a pattern that must compile), anything
/// else an error.
pub open spec fn spec_parse_rule(m: ItemModel) -> Result<RuleModel, ErrorModel> {
    if m.name == "noargs"@ {
        if m.values.len() == 1 {
            match m.values[0] {
                ValueModel::Str(url) => if templates::spec_template_ok(url) {
                    Ok(RuleModel { pattern: PatternModel::NoArgs, template: url })
                } else {
                    Err(ErrorModel::InvalidTemplate(url))
                },
                _ => Err(ErrorModel::NoArgsValues),
            }
        } else {
            Err(ErrorModel::NoArgsValues)
        }
    } else if m.name == "freeform"@ {
        if m.values.len() == 1 {
            match m.values[0] {
                ValueModel::Str(t) => if templates::spec_template_ok(t) {
                    Ok(RuleModel { pattern: PatternModel::Freeform, template: t })
                } else {
                    Err(ErrorModel::InvalidTemplate(t))
                },
                _ => Err(ErrorModel::FreeformValues),
            }
        } else {
            Err(ErrorModel::FreeformValues)
        }
    } else if m.name == "regex"@ {
        if m.values.len() == 2 {
            match (m.values[0], m.values[1]) {
                (ValueModel::Str(t), ValueModel::Str(p)) => if !templates::spec_template_ok(t) {
                    Err(ErrorModel::InvalidTemplate(t))
                } else if regexes::re_valid(p) {
                    Ok(RuleModel { pattern: PatternModel::Regex(p), template: t })
                } else {
                    Err(ErrorModel::InvalidPattern(p))
                },
                _ => Err(ErrorModel::RegexValues),
            }
        } else {
            Err(ErrorModel::RegexValues)
        }
    } else {
        Err(ErrorModel::UnknownRule)
    }
}

/// What a list of rule nodes yields: every node parsed in order, the first
/// error winning.
pub open spec fn spec_parse_rule_list(items: Seq<ItemModel>) -> Result<Seq<RuleModel>, ErrorModel>
    decreases items.len(),
{
    if items.len() == 0 {
        Ok(Seq::empty())
    } else {
        match spec_parse_rule(items[0]) {
            Err(e) => Err(e),
            Ok(r) => match spec_parse_rule_list(items.drop_first()) {
                Err(e) => Err(e),
                Ok(rest) => Ok(seq![r] + rest),
            },
        }
    }
}

/// What a rules section yields: it must be named `rules`, and its items are
/// the rules, in order.
pub open spec fn spec_parse_rules(s: SectionModel) -> Result<Seq<RuleModel>, ErrorModel> {
    if s.name != "rules"@ {
        Err(ErrorModel::NotRules)
    } else {
        spec_parse_rule_list(s.items)
    }
}

/// What one conformance sample node yields: an `accept` node with an input
/// and an expected URL.
pub open spec fn spec_parse_test(m: ItemModel) -> Result<TestModel, ErrorModel> {
    if m.name != "accept"@ {
        Err(ErrorModel::NotAccept)
    } else if m.values.len() == 2 {
        match (m.values[0], m.values[1]) {
            (ValueModel::Str(i), ValueModel::Str(u)) => Ok(TestModel { input: i, expected_url: u }),
            _ => Err(ErrorModel::AcceptValues),
        }
    } else {
        Err(ErrorModel::AcceptValues)
    }
}

/// What a list of sample nodes yields.
pub open spec fn spec_parse_test_list(items: Seq<ItemModel>) -> Result<Seq<TestModel>, ErrorModel>
    decreases items.len(),
{
    if items.len() == 0 {
        Ok(Seq::empty())
    } else {
        match spec_parse_test(items[0]) {
            Err(e) => Err(e),
            Ok(t) => match spec_parse_test_list(items.drop_first()) {
                Err(e) => Err(e),
                Ok(rest) => Ok(seq![t] + rest),
            },
        }
    }
}

/// What a tests section yields: it must be named `tests`, and its items are
/// the samples, in order.
pub open spec fn spec_parse_tests(s: SectionModel) -> Result<Seq<TestModel>, ErrorModel> {
    if s.name != "tests"@ {
        Err(ErrorModel::NotTests)
    } else {
        spec_parse_test_list(s.items)
    }
}

/// What the values of a command node yield as alias names: every value must
/// be a string.
pub open spec fn spec_parse_names(values: Seq<ValueModel>) -> Result<Seq<Seq<char>>, ErrorModel>
    decreases values.len(),
{
    if values.len() == 0 {
        Ok(Seq::empty())
    } else {
        match values[0] {
            ValueModel::Str(n) => match spec_parse_names(values.drop_first()) {
                Err(e) => Err(e),
                Ok(rest) => Ok(seq![n] + rest),
            },
            _ => Err(ErrorModel::NameNotString),
        }
    }
}

/// What the properties of a command node yield as its default marker: the
/// first `default` property, which must be a boolean; absent means false.
pub open spec fn spec_parse_default(props: Seq<(Seq<char>, ValueModel)>) -> Result<
    bool,
    ErrorModel,
>
    decreases props.len(),
{
    if props.len() == 0 {
        Ok(false)
    } else if props[0].0 == "default"@ {
        match props[0].1 {
            ValueModel::Bool(b) => Ok(b),
            _ => Err(ErrorModel::DefaultNotBool),
        }
    } else {
        spec_parse_default(props.drop_first())
    }
}

/// What the sections of a command node yield: rules and samples gathered in
/// order, each section appending to its kind, anything else an error.
pub open spec fn spec_parse_sections(sections: Seq<SectionModel>) -> Result<
    (Seq<RuleModel>, Seq<TestModel>),
    ErrorModel,
>
    decreases sections.len(),
{
    if sections.len() == 0 {
        Ok((Seq::empty(), Seq::empty()))
    } else {
        let s = sections[0];
        let head: Result<(Seq<RuleModel>, Seq<TestModel>), ErrorModel> = if s.name == "rules"@ {
            match spec_parse_rules(s) {
                Ok(rs) => Ok((rs, Seq::empty())),
                Err(e) => Err(e),
            }
        } else if s.name == "tests"@ {
            match spec_parse_tests(s) {
                Ok(ts) => Ok((Seq::empty(), ts)),
                Err(e) => Err(e),
            }
        } else {
            Err(ErrorModel::UnknownSection)
        };
        match head {
            Err(e) => Err(e),
            Ok((rs, ts)) => match spec_parse_sections(sections.drop_first()) {
                Err(e) => Err(e),
                Ok((rs2, ts2)) => Ok((rs + rs2, ts + ts2)),
            },
        }
    }
}

/// What one command node yields: it must be named `command`, its values are
/// the alias names (at least one), its `default` property the marker, and
/// its sections the rules and samples.
pub open spec fn spec_parse_command(c: CommandSourceModel) -> Result<CommandModel, ErrorModel> {
    if c.name != "command"@ {
        Err(ErrorModel::NotCommand)
    } else {
        match spec_parse_names(c.values) {
            Err(e) => Err(e),
            Ok(names) => if names.len() == 0 {
                Err(ErrorModel::EmptyAliases)
            } else {
                match spec_parse_default(c.properties) {
                    Err(e) => Err(e),
                    Ok(is_default) => match spec_parse_sections(c.sections) {
                        Err(e) => Err(e),
                        Ok((rules, tests)) => Ok(
                            CommandModel { names, rules, tests, is_default },
                        ),
                    },
                }
            },
        }
    }
}

/// What a list of command nodes yields.
pub open spec fn spec_parse_command_list(nodes: Seq<CommandSourceModel>) -> Result<
    Seq<CommandModel>,
    ErrorModel,
>
    decreases nodes.len(),
{
    if nodes.len() == 0 {
        Ok(Seq::empty())
    } else {
        match spec_parse_command(nodes[0]) {
            Err(e) => Err(e),
            Ok(c) => match spec_parse_command_list(nodes.drop_first()) {
                Err(e) => Err(e),
                Ok(rest) => Ok(seq![c] + rest),
            },
        }
    }
}

/// What a whole node list yields as a configuration: every command parsed,
/// and at most one of them marked default.
pub open spec fn spec_parse_config(nodes: Seq<CommandSourceModel>) -> Result<
    ConfigModel,
    ErrorModel,
> {
    match spec_parse_command_list(nodes) {
        Err(e) => Err(e),
        Ok(commands) => if count_defaults(commands) > 1 {
            Err(ErrorModel::MultipleDefaults)
        } else {
            Ok(ConfigModel { commands })
        },
    }
}

/// The models of a list of configuration nodes.
pub open spec fn sources_view(nodes: Seq<CommandSource>) -> Seq<CommandSourceModel> {
    nodes.map_values(|n: CommandSource| n@)
}

impl RuleNode {
    /// Builds one rule from its configuration node, compiling the regular
    /// expression of a `regex` rule.
    pub fn try_from_node(node: &ItemNode) -> (r: Result<RuleNode, ConfigError>)
        ensures
            res_view(r) == spec_parse_rule(node@),
    {
        if str_eq(node.name.as_str(), "noargs") {
            if node.values.len() == 1 {
                proof {
                    assert(node@.values[0] == node.values@[0]@);
                }
                match &node.values[0] {
                    NodeValue::Str(url) => if templates::template_ok(url.as_str()) {
                        Ok(RuleNode { pattern: RulePattern::NoArgs, template: url.clone() })
                    } else {
                        Err(ConfigError::InvalidTemplate(url.clone()))
                    },
                    _ => Err(ConfigError::NoArgsValues),
                }
            } else {
                Err(ConfigError::NoArgsValues)
            }
        } else if str_eq(node.name.as_str(), "freeform") {
            if node.values.len() == 1 {
                proof {
                    assert(node@.values[0] == node.values@[0]@);
                }
                match &node.values[0] {
                    NodeValue::Str(t) => if templates::template_ok(t.as_str()) {
                        Ok(RuleNode { pattern: RulePattern::Freeform, template: t.clone() })
                    } else {
                        Err(ConfigError::InvalidTemplate(t.clone()))
                    },
                    _ => Err(ConfigError::FreeformValues),
                }
            } else {
                Err(ConfigError::FreeformValues)
            }
        } else if str_eq(node.name.as_str(), "regex") {
            if node.values.len() == 2 {
                proof {
                    assert(node@.values[0] == node.values@[0]@);
                    assert(node@.values[1] == node.values@[1]@);
                }
                match (&node.values[0], &node.values[1]) {
                    (NodeValue::Str(t), NodeValue::Str(p)) => if !templates::template_ok(
                        t.as_str(),
                    ) {
                        Err(ConfigError::InvalidTemplate(t.clone()))
                    } else {
                        match regexes::regex_compile(p.as_str()) {
                            Some(re) => Ok(
                                RuleNode { pattern: RulePattern::Regex(re), template: t.clone() },
                            ),
                            None => Err(ConfigError::InvalidPattern(p.clone())),
                        }
                    },
                    _ => Err(ConfigError::RegexValues),
                }
            } else {
                Err(ConfigError::RegexValues)
            }
        } else {
            Err(ConfigError::UnknownRule)
        }
    }
}

impl RulesNode {
    /// Builds the rules of one `rules` section, in declared order.
    #[verifier::loop_isolation(false)]
    pub fn try_from_node(node: &SectionNode) -> (r: Result<RulesNode, ConfigError>)
        ensures
            res_view(r) == spec_parse_rules(node@),
    {
        if !str_eq(node.name.as_str(), "rules") {
            return Err(ConfigError::NotRules);
        }
        let ghost items = node@.items;
        let n = node.items.len();
        proof {
            assert(items.skip(0) =~= items);
        }
        let mut out: Vec<RuleNode> = Vec::new();
        let mut i: usize = 0;
        while i < n
            invariant
                n == node.items@.len(),
                items == node@.items,
                0 <= i <= n,
                match spec_parse_rule_list(items.skip(i as int)) {
                    Ok(rest) => spec_parse_rule_list(items) == Ok::<Seq<RuleModel>, ErrorModel>(rule_views(out@) + rest),
                    Err(e) => spec_parse_rule_list(items) == Err::<Seq<RuleModel>, ErrorModel>(e),
                },
            decreases n - i,
        {
            proof {
                assert(items.skip(i as int)[0] == items[i as int]);
                assert(items.skip(i as int).drop_first() =~= items.skip(i + 1));
                assert(items[i as int] == node.items@[i as int]@);
            }
            match RuleNode::try_from_node(&node.items[i]) {
                Ok(rule) => {
                    let ghost prev = out@;
                    out.push(rule);
                    proof {
                        assert(rule_views(out@) =~= rule_views(prev) + seq![out@.last()@]);
                        if spec_parse_rule_list(items.skip(i + 1)) is Ok {
                            let rest = spec_parse_rule_list(items.skip(i + 1))->Ok_0;
                            assert(rule_views(prev) + (seq![out@.last()@] + rest) =~= rule_views(
                                out@,
                            ) + rest);
                        }
                    }
                },
                Err(e) => {
                    proof {
                        assert(spec_parse_rule_list(items.skip(i as int)) == Err::<
                            Seq<RuleModel>,
                            ErrorModel,
                        >(e@));
                    }
                    return Err(e);
                },
            }
            i += 1;
        }
        proof {
            assert(items.skip(n as int) =~= Seq::<ItemModel>::empty());
            assert(rule_views(out@) + Seq::<RuleModel>::empty() =~= rule_views(out@));
        }
        Ok(RulesNode(out))
    }
}

impl TestNode {
    /// Builds one conformance sample from its `accept` node.
    pub fn try_from_node(node: &ItemNode) -> (r: Result<TestNode, ConfigError>)
        ensures
            res_view(r) == spec_parse_test(node@),
    {
        if !str_eq(node.name.as_str(), "accept") {
            return Err(ConfigError::NotAccept);
        }
        if node.values.len() == 2 {
            proof {
                assert(node@.values[0] == node.values@[0]@);
                assert(node@.values[1] == node.values@[1]@);
            }
            match (&node.values[0], &node.values[1]) {
                (NodeValue::Str(i), NodeValue::Str(u)) => Ok(
                    TestNode { input: i.clone(), expected_url: u.clone() },
                ),
                _ => Err(ConfigError::AcceptValues),
            }
        } else {
            Err(ConfigError::AcceptValues)
        }
    }
}

impl TestsNode {
    /// Builds the samples of one `tests` section, in declared order.
    #[verifier::loop_isolation(false)]
    pub fn try_from_node(node: &SectionNode) -> (r: Result<TestsNode, ConfigError>)
        ensures
            res_view(r) == spec_parse_tests(node@),
    {
        if !str_eq(node.name.as_str(), "tests") {
            return Err(ConfigError::NotTests);
        }
        let ghost items = node@.items;
        let n = node.items.len();
        proof {
            assert(items.skip(0) =~= items);
        }
        let mut out: Vec<TestNode> = Vec::new();
        let mut i: usize = 0;
        while i < n
            invariant
                n == node.items@.len(),
                items == node@.items,
                0 <= i <= n,
                match spec_parse_test_list(items.skip(i as int)) {
                    Ok(rest) => spec_parse_test_list(items) == Ok::<Seq<TestModel>, ErrorModel>(test_views(out@) + rest),
                    Err(e) => spec_parse_test_list(items) == Err::<Seq<TestModel>, ErrorModel>(e),
                },
            decreases n - i,
        {
            proof {
                assert(items.skip(i as int)[0] == items[i as int]);
                assert(items.skip(i as int).drop_first() =~= items.skip(i + 1));
                assert(items[i as int] == node.items@[i as int]@);
            }
            match TestNode::try_from_node(&node.items[i]) {
                Ok(t) => {
                    let ghost prev = out@;
                    out.push(t);
                    proof {
                        assert(test_views(out@) =~= test_views(prev) + seq![out@.last()@]);
                        if spec_parse_test_list(items.skip(i + 1)) is Ok {
                            let rest = spec_parse_test_list(items.skip(i + 1))->Ok_0;
                            assert(test_views(prev) + (seq![out@.last()@] + rest) =~= test_views(
                                out@,
                            ) + rest);
                        }
                    }
                },
                Err(e) => {
                    proof {
                        assert(spec_parse_test_list(items.skip(i as int)) == Err::<
                            Seq<TestModel>,
                            ErrorModel,
                        >(e@));
                    }
                    return Err(e);
                },
            }
            i += 1;
        }
        proof {
            assert(items.skip(n as int) =~= Seq::<ItemModel>::empty());
            assert(test_views(out@) + Seq::<TestModel>::empty() =~= test_views(out@));
        }
        Ok(TestsNode(out))
    }
}

/// Reads the alias names off a command node's values: every value must be a
/// string.
fn parse_names(values: &Vec<NodeValue>) -> (r: Result<Vec<String>, ConfigError>)
    ensures
        match r {
            Ok(names) => spec_parse_names(value_views(values@)) == Ok::<
                Seq<Seq<char>>,
                ErrorModel,
            >(names.deep_view()),
            Err(e) => spec_parse_names(value_views(values@)) == Err::<Seq<Seq<char>>, ErrorModel>(
                e@,
            ),
        },
{
    let ghost vals = value_views(values@);
    let n = values.len();
    proof {
        assert(vals.skip(0) =~= vals);
    }
    let mut names: Vec<String> = Vec::new();
    let mut i: usize = 0;
    while i < n
        invariant
            n == values@.len(),
            vals == value_views(values@),
            0 <= i <= n,
            match spec_parse_names(vals.skip(i as int)) {
                Ok(rest) => spec_parse_names(vals) == Ok::<Seq<Seq<char>>, ErrorModel>(names.deep_view() + rest),
                Err(e) => spec_parse_names(vals) == Err::<Seq<Seq<char>>, ErrorModel>(e),
            },
        decreases n - i,
    {
        proof {
            assert(vals.skip(i as int)[0] == vals[i as int]);
            assert(vals.skip(i as int).drop_first() =~= vals.skip(i + 1));
            assert(vals[i as int] == values@[i as int]@);
        }
        match &values[i] {
            NodeValue::Str(s) => {
                let ghost prev = names.deep_view();
                names.push(s.clone());
                proof {
                    assert(names.deep_view() =~= prev + seq![s@]);
                    if spec_parse_names(vals.skip(i + 1)) is Ok {
                        let rest = spec_parse_names(vals.skip(i + 1))->Ok_0;
                        assert(prev + (seq![s@] + rest) =~= names.deep_view() + rest);
                    }
                }
            },
            _ => {
                proof {
                    assert(spec_parse_names(vals.skip(i as int)) == Err::<
                        Seq<Seq<char>>,
                        ErrorModel,
                    >(ErrorModel::NameNotString));
                }
                return Err(ConfigError::NameNotString);
            },
        }
        i += 1;
    }
    proof {
        assert(vals.skip(n as int) =~= Seq::<ValueModel>::empty());
        assert(names.deep_view() + Seq::<Seq<char>>::empty() =~= names.deep_view());
    }
    Ok(names)
}

/// Reads the default marker off a command node's properties: the first
/// `default` property, a boolean; absent means not default.
fn parse_default(properties: &Vec<(String, NodeValue)>) -> (r: Result<bool, ConfigError>)
    ensures
        res_view(r) == spec_parse_default(prop_views(properties@)),
{
    let ghost props = prop_views(properties@);
    let n = properties.len();
    proof {
        assert(props.skip(0) =~= props);
    }
    let mut i: usize = 0;
    while i < n
        invariant
            n == properties@.len(),
            props == prop_views(properties@),
            0 <= i <= n,
            spec_parse_default(props) == spec_parse_default(props.skip(i as int)),
        decreases n - i,
    {
        proof {
            assert(props.skip(i as int)[0] == props[i as int]);
            assert(props.skip(i as int).drop_first() =~= props.skip(i + 1));
            assert(props[i as int] == (properties@[i as int].0@, properties@[i as int].1@));
        }
        let pair = &properties[i];
        if str_eq(pair.0.as_str(), "default") {
            return match &pair.1 {
                NodeValue::Bool(b) => Ok(*b),
                _ => Err(ConfigError::DefaultNotBool),
            };
        }
        i += 1;
    }
    proof {
        assert(props.skip(n as int) =~= Seq::<(Seq<char>, ValueModel)>::empty());
    }
    Ok(false)
}

impl CommandNode {
    /// Builds one command definition from its configuration node: the alias
    /// names off its values, the default marker off its properties, and the
    /// rules and samples off its sections, in order.
    #[verifier::rlimit(50)]
    #[verifier::loop_isolation(false)]
    pub fn try_from_node(node: &CommandSource) -> (r: Result<CommandNode, ConfigError>)
        ensures
            res_view(r) == spec_parse_command(node@),
    {
        if !str_eq(node.name.as_str(), "command") {
            return Err(ConfigError::NotCommand);
        }
        let names = match parse_names(&node.values) {
            Ok(names) => names,
            Err(e) => {
                return Err(e);
            },
        };
        if names.len() == 0 {
            return Err(ConfigError::EmptyAliases);
        }
        let is_default = match parse_default(&node.properties) {
            Ok(b) => b,
            Err(e) => {
                return Err(e);
            },
        };
        let ghost secs = node@.sections;
        let n = node.sections.len();
        proof {
            assert(secs.skip(0) =~= secs);
        }
        let mut rules: Vec<RuleNode> = Vec::new();
        let mut tests: Vec<TestNode> = Vec::new();
        let mut k: usize = 0;
        while k < n
            invariant
                n == node.sections@.len(),
                secs == node@.sections,
                0 <= k <= n,
                match spec_parse_sections(secs.skip(k as int)) {
                    Ok(pair) => spec_parse_sections(secs) == Ok::<
                        (Seq<RuleModel>, Seq<TestModel>),
                        ErrorModel,
                    >((rule_views(rules@) + pair.0, test_views(tests@) + pair.1)),
                    Err(e) => spec_parse_sections(secs) == Err::<
                        (Seq<RuleModel>, Seq<TestModel>),
                        ErrorModel,
                    >(e),
                },
            decreases n - k,
        {
            proof {
                assert(secs.skip(k as int)[0] == secs[k as int]);
                assert(secs.skip(k as int).drop_first() =~= secs.skip(k + 1));
                assert(secs[k as int] == node.sections@[k as int]@);
            }
            let section = &node.sections[k];
            if str_eq(section.name.as_str(), "rules") {
                match RulesNode::try_from_node(section) {
                    Ok(mut parsed) => {
                        let ghost prev = rules@;
                        let ghost got = parsed.0@;
                        rules.append(&mut parsed.0);
                        proof {
                            assert(rule_views(rules@) =~= rule_views(prev) + rule_views(got));
                            if spec_parse_sections(secs.skip(k + 1)) is Ok {
                                let pair2 = spec_parse_sections(secs.skip(k + 1))->Ok_0;
                                assert(rule_views(prev) + (rule_views(got) + pair2.0) =~= rule_views(
                                    rules@,
                                ) + pair2.0);
                            }
                        }
                    },
                    Err(e) => {
                        proof {
                            assert(spec_parse_rules(secs[k as int]) == Err::<
                                Seq<RuleModel>,
                                ErrorModel,
                            >(e@));
                            assert(spec_parse_sections(secs.skip(k as int)) == Err::<
                                (Seq<RuleModel>, Seq<TestModel>),
                                ErrorModel,
                            >(e@));
                        }
                        return Err(e);
                    },
                }
            } else if str_eq(section.name.as_str(), "tests") {
                match TestsNode::try_from_node(section) {
                    Ok(mut parsed) => {
                        let ghost prev = tests@;
                        let ghost got = parsed.0@;
                        tests.append(&mut parsed.0);
                        proof {
                            assert(test_views(tests@) =~= test_views(prev) + test_views(got));
                            if spec_parse_sections(secs.skip(k + 1)) is Ok {
                                let pair2 = spec_parse_sections(secs.skip(k + 1))->Ok_0;
                                assert(test_views(prev) + (test_views(got) + pair2.1) =~= test_views(
                                    tests@,
                                ) + pair2.1);
                            }
                        }
                    },
                    Err(e) => {
                        proof {
                            assert(spec_parse_tests(secs[k as int]) == Err::<
                                Seq<TestModel>,
                                ErrorModel,
                            >(e@));
                            assert(spec_parse_sections(secs.skip(k as int)) == Err::<
                                (Seq<RuleModel>, Seq<TestModel>),
                                ErrorModel,
                            >(e@));
                        }
                        return Err(e);
                    },
                }
            } else {
                proof {
                    assert(spec_parse_sections(secs.skip(k as int)) == Err::<
                        (Seq<RuleModel>, Seq<TestModel>),
                        ErrorModel,
                    >(ErrorModel::UnknownSection));
                }
                return Err(ConfigError::UnknownSection);
            }
            k += 1;
        }
        proof {
            assert(secs.skip(n as int) =~= Seq::<SectionModel>::empty());
            assert(rule_views(rules@) + Seq::<RuleModel>::empty() =~= rule_views(rules@));
            assert(test_views(tests@) + Seq::<TestModel>::empty() =~= test_views(tests@));
        }
        Ok(CommandNode { names, rules, tests, is_default })
    }
}

proof fn lemma_rule_list_templates(items: Seq<ItemModel>)
    requires
        spec_parse_rule_list(items) is Ok,
    ensures
        templates_ok(spec_parse_rule_list(items)->Ok_0),
    decreases items.len(),
{
    if items.len() == 0 {
    } else {
        lemma_rule_list_templates(items.drop_first());
        let head = spec_parse_rule(items[0])->Ok_0;
        let rest = spec_parse_rule_list(items.drop_first())->Ok_0;
        let all = spec_parse_rule_list(items)->Ok_0;
        assert forall|j: int| 0 <= j < all.len() implies templates::spec_template_ok(
            all[j].template,
        ) by {
            if j == 0 {
                assert(all[0] == head);
            } else {
                assert(all[j] == rest[j - 1]);
            }
        }
    }
}

proof fn lemma_sections_templates(sections: Seq<SectionModel>)
    requires
        spec_parse_sections(sections) is Ok,
    ensures
        templates_ok(spec_parse_sections(sections)->Ok_0.0),
    decreases sections.len(),
{
    if sections.len() == 0 {
    } else {
        lemma_sections_templates(sections.drop_first());
        let s0 = sections[0];
        let head: Seq<RuleModel> = if s0.name == "rules"@ {
            lemma_rule_list_templates(s0.items);
            spec_parse_rules(s0)->Ok_0
        } else {
            Seq::empty()
        };
        assert(templates_ok(head));
        let rest = spec_parse_sections(sections.drop_first())->Ok_0.0;
        let all = spec_parse_sections(sections)->Ok_0.0;
        assert(all == head + rest);
        assert forall|j: int| 0 <= j < all.len() implies templates::spec_template_ok(
            all[j].template,
        ) by {
            if j < head.len() {
                assert(all[j] == head[j]);
            } else {
                assert(all[j] == rest[j - head.len()]);
            }
        }
    }
}

proof fn lemma_parsed_commands_wf(nodes: Seq<CommandSourceModel>)
    requires
        spec_parse_command_list(nodes) is Ok,
    ensures
        forall|i: int|
            0 <= i < spec_parse_command_list(nodes)->Ok_0.len()
                ==> spec_parse_command_list(nodes)->Ok_0[i].names.len() > 0,
        forall|i: int|
            0 <= i < spec_parse_command_list(nodes)->Ok_0.len() ==> templates_ok(
                spec_parse_command_list(nodes)->Ok_0[i].rules,
            ),
    decreases nodes.len(),
{
    if nodes.len() == 0 {
    } else {
        lemma_parsed_commands_wf(nodes.drop_first());
        lemma_sections_templates(nodes[0].sections);
        let head = spec_parse_command(nodes[0])->Ok_0;
        let rest = spec_parse_command_list(nodes.drop_first())->Ok_0;
        let all = spec_parse_command_list(nodes)->Ok_0;
        assert(templates_ok(head.rules));
        assert forall|i: int| 0 <= i < all.len() implies all[i].names.len() > 0 && templates_ok(
            all[i].rules,
        ) by {
            if i == 0 {
                assert(all[0] == head);
            } else {
                assert(all[i] == rest[i - 1]);
            }
        }
    }
}

impl Config {
    /// Builds the whole validated configuration from the top-level command
    /// nodes, refusing a list where more than one command is marked as the
    /// default. A successfully built configuration is well formed.
    #[verifier::rlimit(50)]
    #[verifier::loop_isolation(false)]
    pub fn try_from_nodes(nodes: &Vec<CommandSource>) -> (r: Result<Config, ConfigError>)
        ensures
            res_view(r) == spec_parse_config(sources_view(nodes@)),
            r matches Ok(c) ==> c@.wf(),
    {
        let ghost srcs = sources_view(nodes@);
        let n = nodes.len();
        proof {
            assert(srcs.skip(0) =~= srcs);
        }
        let mut commands: Vec<CommandNode> = Vec::new();
        let mut i: usize = 0;
        while i < n
            invariant
                n == nodes@.len(),
                srcs == sources_view(nodes@),
                0 <= i <= n,
                match spec_parse_command_list(srcs.skip(i as int)) {
                    Ok(rest) => spec_parse_command_list(srcs) == Ok::<
                        Seq<CommandModel>,
                        ErrorModel,
                    >(command_views(commands@) + rest),
                    Err(e) => spec_parse_command_list(srcs) == Err::<Seq<CommandModel>, ErrorModel>(
                        e,
                    ),
                },
            decreases n - i,
        {
            proof {
                assert(srcs.skip(i as int)[0] == srcs[i as int]);
                assert(srcs.skip(i as int).drop_first() =~= srcs.skip(i + 1));
                assert(srcs[i as int] == nodes@[i as int]@);
            }
            match CommandNode::try_from_node(&nodes[i]) {
                Ok(command) => {
                    let ghost prev = commands@;
                    commands.push(command);
                    proof {
                        assert(command_views(commands@) =~= command_views(prev) + seq![
                            commands@.last()@,
                        ]);
                        if spec_parse_command_list(srcs.skip(i + 1)) is Ok {
                            let rest = spec_parse_command_list(srcs.skip(i + 1))->Ok_0;
                            assert(command_views(prev) + (seq![commands@.last()@] + rest)
                                =~= command_views(commands@) + rest);
                        }
                    }
                },
                Err(e) => {
                    proof {
                        assert(spec_parse_command_list(srcs.skip(i as int)) == Err::<
                            Seq<CommandModel>,
                            ErrorModel,
                        >(e@));
                    }
                    return Err(e);
                },
            }
            i += 1;
        }
        proof {
            assert(srcs.skip(n as int) =~= Seq::<CommandSourceModel>::empty());
            assert(command_views(commands@) + Seq::<CommandModel>::empty() =~= command_views(
                commands@,
            ));
        }
        let ghost parsed = command_views(commands@);
        let mut defaults: usize = 0;
        let mut j: usize = 0;
        proof {
            assert(parsed.take(0) =~= Seq::<CommandModel>::empty());
        }
        while j < commands.len()
            invariant
                parsed == command_views(commands@),
                0 <= j <= commands@.len(),
                0 <= defaults <= j,
                defaults == count_defaults(parsed.take(j as int)),
            decreases commands@.len() - j,
        {
            proof {
                assert(parsed.take(j + 1).drop_last() =~= parsed.take(j as int));
                assert(parsed.take(j + 1).last() == parsed[j as int]);
                assert(parsed[j as int] == commands@[j as int]@);
            }
            if commands[j].is_default {
                defaults += 1;
            }
            j += 1;
        }
        proof {
            assert(parsed.take(commands@.len() as int) =~= parsed);
        }
        if defaults > 1 {
            return Err(ConfigError::MultipleDefaults);
        }
        proof {
            lemma_parsed_commands_wf(srcs);
        }
        Ok(Config { commands })
    }
}

} // verus!
