use redirector::config::{
    CommandSource, Config, ConfigError, ItemNode, NodeValue, RuleNode, RulesNode, SectionNode,
    TestNode, TestsNode,
};

fn s(x: &str) -> String {
    x.to_string()
}

fn item(name: &str, values: Vec<NodeValue>) -> ItemNode {
    ItemNode { name: s(name), values }
}

fn section(name: &str, items: Vec<ItemNode>) -> SectionNode {
    SectionNode { name: s(name), items }
}

fn command_node(
    names: Vec<NodeValue>,
    properties: Vec<(String, NodeValue)>,
    sections: Vec<SectionNode>,
) -> CommandSource {
    CommandSource { name: s("command"), values: names, properties, sections }
}

fn minimal_rules() -> SectionNode {
    section(
        "rules",
        vec![item("freeform", vec![NodeValue::Str(s("https://example.com/{0}"))])],
    )
}

#[test]
fn valid_configuration_parses() {
    let nodes = vec![command_node(
        vec![NodeValue::Str(s("e"))],
        vec![(s("default"), NodeValue::Bool(true))],
        vec![minimal_rules()],
    )];
    let config = Config::try_from_nodes(&nodes).unwrap();
    assert_eq!(config.commands.len(), 1);
    assert_eq!(config.commands[0].names, vec![s("e")]);
    assert!(config.commands[0].is_default);
    assert_eq!(config.commands[0].rules.len(), 1);
}

#[test]
fn noargs_needs_one_string_value() {
    let bad = vec![
        item("noargs", vec![]),
        item("noargs", vec![NodeValue::Bool(true)]),
        item(
            "noargs",
            vec![NodeValue::Str(s("a")), NodeValue::Str(s("b"))],
        ),
    ];
    for node in bad {
        assert_eq!(
            RuleNode::try_from_node(&node).unwrap_err(),
            ConfigError::NoArgsValues
        );
    }
}

#[test]
fn freeform_needs_one_string_value() {
    let node = item("freeform", vec![NodeValue::Other]);
    assert_eq!(
        RuleNode::try_from_node(&node).unwrap_err(),
        ConfigError::FreeformValues
    );
}

#[test]
fn regex_needs_two_string_values() {
    let node = item("regex", vec![NodeValue::Str(s("https://example.com"))]);
    assert_eq!(
        RuleNode::try_from_node(&node).unwrap_err(),
        ConfigError::RegexValues
    );
}

#[test]
fn regex_pattern_must_compile() {
    let node = item(
        "regex",
        vec![NodeValue::Str(s("https://example.com/{1}")), NodeValue::Str(s("("))],
    );
    assert_eq!(
        RuleNode::try_from_node(&node).unwrap_err(),
        ConfigError::InvalidPattern(s("("))
    );
}

#[test]
fn template_with_non_ascii_placeholder_is_refused() {
    let node = item("freeform", vec![NodeValue::Str(s("https://example.com/{ü}"))]);
    assert_eq!(
        RuleNode::try_from_node(&node).unwrap_err(),
        ConfigError::InvalidTemplate(s("https://example.com/{ü}"))
    );
}

#[test]
fn template_with_prefix_modifier_is_refused() {
    let node = item("noargs", vec![NodeValue::Str(s("https://example.com/{x:3}"))]);
    assert_eq!(
        RuleNode::try_from_node(&node).unwrap_err(),
        ConfigError::InvalidTemplate(s("https://example.com/{x:3}"))
    );
}

#[test]
fn bad_template_is_reported_before_bad_pattern() {
    let node = item(
        "regex",
        vec![NodeValue::Str(s("{q:1}")), NodeValue::Str(s("("))],
    );
    assert_eq!(
        RuleNode::try_from_node(&node).unwrap_err(),
        ConfigError::InvalidTemplate(s("{q:1}"))
    );
}

#[test]
fn non_ascii_outside_placeholders_is_accepted() {
    let node = item("freeform", vec![NodeValue::Str(s("https://example.com/ü?q={0}"))]);
    assert!(RuleNode::try_from_node(&node).is_ok());
}

#[test]
fn unknown_rule_kind_is_refused() {
    let node = item("sometimes", vec![NodeValue::Str(s("https://example.com"))]);
    assert_eq!(
        RuleNode::try_from_node(&node).unwrap_err(),
        ConfigError::UnknownRule
    );
}

#[test]
fn rules_section_must_be_named_rules() {
    let node = section("rule", vec![]);
    assert_eq!(
        RulesNode::try_from_node(&node).unwrap_err(),
        ConfigError::NotRules
    );
}

#[test]
fn sample_must_be_named_accept() {
    let node = item("expect", vec![]);
    assert_eq!(
        TestNode::try_from_node(&node).unwrap_err(),
        ConfigError::NotAccept
    );
}

#[test]
fn sample_needs_two_string_values() {
    let node = item("accept", vec![NodeValue::Str(s("gh"))]);
    assert_eq!(
        TestNode::try_from_node(&node).unwrap_err(),
        ConfigError::AcceptValues
    );
}

#[test]
fn tests_section_must_be_named_tests() {
    let node = section("checks", vec![]);
    assert_eq!(
        TestsNode::try_from_node(&node).unwrap_err(),
        ConfigError::NotTests
    );
}

#[test]
fn top_level_node_must_be_a_command() {
    let mut node = command_node(vec![NodeValue::Str(s("e"))], vec![], vec![minimal_rules()]);
    node.name = s("service");
    assert_eq!(
        Config::try_from_nodes(&vec![node]).unwrap_err(),
        ConfigError::NotCommand
    );
}

#[test]
fn alias_names_must_be_strings() {
    let node = command_node(
        vec![NodeValue::Str(s("e")), NodeValue::Bool(false)],
        vec![],
        vec![minimal_rules()],
    );
    assert_eq!(
        Config::try_from_nodes(&vec![node]).unwrap_err(),
        ConfigError::NameNotString
    );
}

#[test]
fn command_needs_at_least_one_alias() {
    let node = command_node(vec![], vec![], vec![minimal_rules()]);
    assert_eq!(
        Config::try_from_nodes(&vec![node]).unwrap_err(),
        ConfigError::EmptyAliases
    );
}

#[test]
fn default_marker_must_be_a_boolean() {
    let node = command_node(
        vec![NodeValue::Str(s("e"))],
        vec![(s("default"), NodeValue::Str(s("yes")))],
        vec![minimal_rules()],
    );
    assert_eq!(
        Config::try_from_nodes(&vec![node]).unwrap_err(),
        ConfigError::DefaultNotBool
    );
}

#[test]
fn command_children_must_be_rules_or_tests() {
    let node = command_node(
        vec![NodeValue::Str(s("e"))],
        vec![],
        vec![section("extras", vec![])],
    );
    assert_eq!(
        Config::try_from_nodes(&vec![node]).unwrap_err(),
        ConfigError::UnknownSection
    );
}

#[test]
fn at_most_one_default_command() {
    let nodes = vec![
        command_node(
            vec![NodeValue::Str(s("a"))],
            vec![(s("default"), NodeValue::Bool(true))],
            vec![minimal_rules()],
        ),
        command_node(
            vec![NodeValue::Str(s("b"))],
            vec![(s("default"), NodeValue::Bool(true))],
            vec![minimal_rules()],
        ),
    ];
    assert_eq!(
        Config::try_from_nodes(&nodes).unwrap_err(),
        ConfigError::MultipleDefaults
    );
}

#[test]
fn default_false_marker_is_not_a_default() {
    let nodes = vec![
        command_node(
            vec![NodeValue::Str(s("a"))],
            vec![(s("default"), NodeValue::Bool(false))],
            vec![minimal_rules()],
        ),
        command_node(
            vec![NodeValue::Str(s("b"))],
            vec![(s("default"), NodeValue::Bool(true))],
            vec![minimal_rules()],
        ),
    ];
    let config = Config::try_from_nodes(&nodes).unwrap();
    assert!(!config.commands[0].is_default);
    assert!(config.commands[1].is_default);
}

#[test]
fn sections_accumulate_in_order() {
    let node = command_node(
        vec![NodeValue::Str(s("e"))],
        vec![],
        vec![
            section(
                "rules",
                vec![item("noargs", vec![NodeValue::Str(s("https://one.example"))])],
            ),
            section(
                "tests",
                vec![item(
                    "accept",
                    vec![NodeValue::Str(s("e")), NodeValue::Str(s("https://one.example"))],
                )],
            ),
            section(
                "rules",
                vec![item("freeform", vec![NodeValue::Str(s("https://two.example/{0}"))])],
            ),
        ],
    );
    let config = Config::try_from_nodes(&vec![node]).unwrap();
    assert_eq!(config.commands[0].rules.len(), 2);
    assert_eq!(config.commands[0].tests.len(), 1);
    assert_eq!(config.commands[0].tests[0].input, s("e"));
    assert_eq!(config.commands[0].tests[0].expected_url, s("https://one.example"));
}
