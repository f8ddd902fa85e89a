use redirector::command_handler::CommandHandler;
use redirector::config::{CommandSource, Config, ItemNode, NodeValue, SectionNode};

fn s(x: &str) -> String {
    x.to_string()
}

fn rule(name: &str, values: Vec<NodeValue>) -> ItemNode {
    ItemNode { name: s(name), values }
}

fn section(name: &str, items: Vec<ItemNode>) -> SectionNode {
    SectionNode { name: s(name), items }
}

fn command(names: &[&str], default: bool, sections: Vec<SectionNode>) -> CommandSource {
    CommandSource {
        name: s("command"),
        values: names.iter().map(|n| NodeValue::Str(s(n))).collect(),
        properties: if default {
            vec![(s("default"), NodeValue::Bool(true))]
        } else {
            vec![]
        },
        sections,
    }
}

/// The illustrative registry: `g` with a regex rule, `gh` with a no-argument
/// rule, and a default command with a freeform rule.
fn sample_nodes(with_default: bool) -> Vec<CommandSource> {
    let mut nodes = vec![
        command(
            &["g"],
            false,
            vec![section(
                "rules",
                vec![rule(
                    "regex",
                    vec![
                        NodeValue::Str(s("https://google.com/search?q={1}")),
                        NodeValue::Str(s("^(.+)$")),
                    ],
                )],
            )],
        ),
        command(
            &["gh"],
            false,
            vec![section(
                "rules",
                vec![rule("noargs", vec![NodeValue::Str(s("https://github.com"))])],
            )],
        ),
    ];
    if with_default {
        nodes.push(command(
            &["ddg"],
            true,
            vec![section(
                "rules",
                vec![rule(
                    "freeform",
                    vec![NodeValue::Str(s("https://duckduckgo.com/?q={0}"))],
                )],
            )],
        ));
    }
    nodes
}

fn sample_config(with_default: bool) -> Config {
    Config::try_from_nodes(&sample_nodes(with_default)).unwrap()
}

#[test]
fn scenario_regex_command() {
    let config = sample_config(true);
    let handler = CommandHandler::new(&config);
    assert_eq!(
        handler.handle("g rust book"),
        Some(s("https://google.com/search?q=rust%20book"))
    );
}

#[test]
fn scenario_noargs_command() {
    let config = sample_config(true);
    let handler = CommandHandler::new(&config);
    assert_eq!(handler.handle("gh"), Some(s("https://github.com")));
}

#[test]
fn scenario_noargs_with_argument_falls_back() {
    let config = sample_config(true);
    let handler = CommandHandler::new(&config);
    assert_eq!(
        handler.handle("gh extra"),
        Some(s("https://duckduckgo.com/?q=gh%20extra"))
    );
}

#[test]
fn scenario_unknown_name_falls_back() {
    let config = sample_config(true);
    let handler = CommandHandler::new(&config);
    assert_eq!(
        handler.handle("unknown term"),
        Some(s("https://duckduckgo.com/?q=unknown%20term"))
    );
}

#[test]
fn scenario_no_default_is_absent() {
    let config = sample_config(false);
    let handler = CommandHandler::new(&config);
    assert_eq!(handler.handle("unknown term"), None);
}

#[test]
fn noargs_with_argument_and_no_default_is_absent() {
    let config = sample_config(false);
    let handler = CommandHandler::new(&config);
    assert_eq!(handler.handle("gh extra"), None);
}

#[test]
fn exact_alias_matching() {
    let config = sample_config(false);
    let handler = CommandHandler::new(&config);
    assert_eq!(handler.handle("gg foo"), None);
}

#[test]
fn known_alias_without_rule_match_falls_back_with_full_input() {
    // `g` exists, but its regex needs a non-empty argument: the default
    // command then sees the entire original input, not the argument text.
    let config = sample_config(true);
    let handler = CommandHandler::new(&config);
    assert_eq!(handler.handle("g"), Some(s("https://duckduckgo.com/?q=g")));
}

#[test]
fn resolution_is_deterministic() {
    let config = sample_config(true);
    let handler = CommandHandler::new(&config);
    let first = handler.handle("g rust book");
    let second = handler.handle("g rust book");
    assert_eq!(first, second);
}

#[test]
fn first_match_wins() {
    let nodes = vec![command(
        &["d"],
        false,
        vec![section(
            "rules",
            vec![
                rule("freeform", vec![NodeValue::Str(s("https://first.example/{0}"))]),
                rule("freeform", vec![NodeValue::Str(s("https://second.example/{0}"))]),
            ],
        )],
    )];
    let config = Config::try_from_nodes(&nodes).unwrap();
    let handler = CommandHandler::new(&config);
    assert_eq!(handler.handle("d x"), Some(s("https://first.example/x")));
}

#[test]
fn named_capture_groups() {
    let nodes = vec![command(
        &["ghr"],
        false,
        vec![section(
            "rules",
            vec![rule(
                "regex",
                vec![
                    NodeValue::Str(s("https://github.com/{user}/{repo}")),
                    NodeValue::Str(s("^(?P<user>[^/ ]+)/(?P<repo>[^/ ]+)$")),
                ],
            )],
        )],
    )];
    let config = Config::try_from_nodes(&nodes).unwrap();
    let handler = CommandHandler::new(&config);
    assert_eq!(
        handler.handle("ghr rust-lang/regex"),
        Some(s("https://github.com/rust-lang/regex"))
    );
}

#[test]
fn positional_capture_groups() {
    let nodes = vec![command(
        &["swap"],
        false,
        vec![section(
            "rules",
            vec![rule(
                "regex",
                vec![
                    NodeValue::Str(s("https://example.com/{2}/{1}")),
                    NodeValue::Str(s("^(\\S+) (\\S+)$")),
                ],
            )],
        )],
    )];
    let config = Config::try_from_nodes(&nodes).unwrap();
    let handler = CommandHandler::new(&config);
    assert_eq!(
        handler.handle("swap a b"),
        Some(s("https://example.com/b/a"))
    );
}

#[test]
fn unset_capture_group_stays_empty() {
    let nodes = vec![command(
        &["opt"],
        false,
        vec![section(
            "rules",
            vec![rule(
                "regex",
                vec![
                    NodeValue::Str(s("https://example.com/x{1}y{2}")),
                    NodeValue::Str(s("^(a)?(b)$")),
                ],
            )],
        )],
    )];
    let config = Config::try_from_nodes(&nodes).unwrap();
    let handler = CommandHandler::new(&config);
    assert_eq!(handler.handle("opt b"), Some(s("https://example.com/xyb")));
}

#[test]
fn later_command_overwrites_shared_alias() {
    let nodes = vec![
        command(
            &["x"],
            false,
            vec![section(
                "rules",
                vec![rule("freeform", vec![NodeValue::Str(s("https://old.example/{0}"))])],
            )],
        ),
        command(
            &["x"],
            false,
            vec![section(
                "rules",
                vec![rule("freeform", vec![NodeValue::Str(s("https://new.example/{0}"))])],
            )],
        ),
    ];
    let config = Config::try_from_nodes(&nodes).unwrap();
    let handler = CommandHandler::new(&config);
    assert_eq!(handler.handle("x q"), Some(s("https://new.example/q")));
}

#[test]
fn argument_leading_whitespace_is_trimmed() {
    let config = sample_config(true);
    let handler = CommandHandler::new(&config);
    assert_eq!(
        handler.handle("g   rust"),
        Some(s("https://google.com/search?q=rust"))
    );
}

#[test]
fn empty_input_falls_back_to_default() {
    let config = sample_config(true);
    let handler = CommandHandler::new(&config);
    assert_eq!(handler.handle(""), Some(s("https://duckduckgo.com/?q=")));
}

#[test]
fn empty_input_without_default_is_absent() {
    let config = sample_config(false);
    let handler = CommandHandler::new(&config);
    assert_eq!(handler.handle(""), None);
}

#[test]
fn leading_whitespace_input_has_empty_name() {
    // The name is everything before the first whitespace character, so this
    // input's name is empty: no alias matches and the default sees it whole.
    let config = sample_config(true);
    let handler = CommandHandler::new(&config);
    assert_eq!(
        handler.handle(" g"),
        Some(s("https://duckduckgo.com/?q=%20g"))
    );
}

#[test]
fn multi_byte_argument_text_is_percent_encoded() {
    let config = sample_config(true);
    let handler = CommandHandler::new(&config);
    assert_eq!(
        handler.handle("unknown ü"),
        Some(s("https://duckduckgo.com/?q=unknown%20%C3%BC"))
    );
}

#[test]
fn rocket_builds_the_served_handler() {
    let config = sample_config(true);
    let handler = redirector::rocket(&config);
    assert_eq!(handler.handle("gh"), Some(s("https://github.com")));
}

#[test]
fn registry_conformance() {
    // Every conformance sample carried by the configuration resolves to its
    // expected URL.
    let mut nodes = sample_nodes(true);
    nodes[0].sections.push(section(
        "tests",
        vec![rule(
            "accept",
            vec![
                NodeValue::Str(s("g rust book")),
                NodeValue::Str(s("https://google.com/search?q=rust%20book")),
            ],
        )],
    ));
    nodes[1].sections.push(section(
        "tests",
        vec![
            rule(
                "accept",
                vec![NodeValue::Str(s("gh")), NodeValue::Str(s("https://github.com"))],
            ),
            rule(
                "accept",
                vec![
                    NodeValue::Str(s("gh extra")),
                    NodeValue::Str(s("https://duckduckgo.com/?q=gh%20extra")),
                ],
            ),
        ],
    ));
    let config = Config::try_from_nodes(&nodes).unwrap();
    let handler = CommandHandler::new(&config);
    for command in config.commands.iter() {
        for test in command.tests.iter() {
            let result = handler.handle(test.input.as_str());
            let expected = Some(test.expected_url.to_string());
            assert_eq!(result, expected, "input command is {:?}", test.input);
        }
    }
}
