use kconfig::cfg_args::flag_name;
use kconfig::{load, CfgArgs, Directive, Error, Tristate, Value, VAR_CFG_ARGS_KEY};

fn on(key: &str, state: Tristate) -> (String, Value) {
    (key.to_string(), Value::Tristate(state))
}

fn sample() -> CfgArgs {
    CfgArgs::new(vec![
        on("Bar", Tristate::True),
        on("Baz", Tristate::False),
        on("Qux", Tristate::True),
    ])
}

fn flag(name: &str) -> Directive {
    Directive::Flag(name.to_string())
}

fn env_of(pairs: &[(&str, &str)]) -> Vec<(String, String)> {
    pairs.iter().map(|(name, value)| (name.to_string(), value.to_string())).collect()
}

/// What the build orchestrator does with a `Metadata` directive of the
/// dependency `id`: the variable that a dependent sees.
fn publish(id: &str, directive: &Directive) -> (String, String) {
    match directive {
        Directive::Metadata { key, value } => (format!("DEP_{id}_{key}"), value.clone()),
        Directive::Flag(name) => panic!("not metadata: {name}"),
    }
}

#[test]
fn gather_names_the_options_that_are_on() {
    assert_eq!(sample().gather("FOO"), vec!["foo_bar", "foo_qux"]);
}

#[test]
fn gather_puts_prefix_and_key_in_lowercase() {
    let args = CfgArgs::new(vec![
        on("CONFIG_IDF_TARGET_ESP32", Tristate::True),
        on("MiXeD", Tristate::True),
        on("already_lower", Tristate::True),
        on("\u{c4}B\u{3a3}", Tristate::True),
    ]);
    assert_eq!(
        args.gather("Esp_IDF"),
        vec![
            "esp_idf_config_idf_target_esp32",
            "esp_idf_mixed",
            "esp_idf_already_lower",
            "esp_idf_\u{e4}b\u{3c2}",
        ]
    );
    assert_eq!(args.gather("\u{c9}")[1], "\u{e9}_mixed");
}

#[test]
fn gather_takes_only_what_is_set_to_true() {
    let args = CfgArgs::new(vec![
        on("A", Tristate::False),
        on("B", Tristate::Module),
        on("C", Tristate::NotSet),
        ("D".to_string(), Value::String("\"y\"".to_string())),
        ("E".to_string(), Value::String("y".to_string())),
        on("F", Tristate::True),
    ]);
    assert_eq!(args.gather("p"), vec!["p_f"]);
}

#[test]
fn gather_keeps_repeated_options() {
    let args = CfgArgs::new(vec![
        on("A", Tristate::True),
        on("a", Tristate::True),
        on("A", Tristate::False),
        on("A", Tristate::True),
    ]);
    assert_eq!(args.gather("x"), vec!["x_a", "x_a", "x_a"]);
}

#[test]
fn gather_of_nothing_is_nothing() {
    assert_eq!(CfgArgs::new(vec![]).gather("foo"), Vec::<String>::new());
    assert_eq!(CfgArgs::new(vec![on("A", Tristate::False)]).gather("foo"), Vec::<String>::new());
}

#[test]
fn gather_with_empty_prefix_or_key() {
    let args = CfgArgs::new(vec![on("", Tristate::True), on("K", Tristate::True)]);
    assert_eq!(args.gather(""), vec!["_", "_k"]);
    assert_eq!(args.gather("P"), vec!["p_", "p_k"]);
}

#[test]
fn gather_twice_gives_the_same() {
    let args = sample();
    let first = args.gather("FOO");
    let second = args.gather("FOO");
    assert_eq!(first, second);
    assert_eq!(args.pairs().len(), 3);
    assert_eq!(args.pairs()[0], on("Bar", Tristate::True));
}

#[test]
fn flag_name_joins_with_an_underscore() {
    assert_eq!(flag_name("foo", "bar"), "foo_bar");
    assert_eq!(flag_name("", ""), "_");
    assert_eq!(flag_name("A", "B"), "A_B");
}

#[test]
fn new_keeps_the_pairs() {
    let pairs = vec![on("B", Tristate::True), on("A", Tristate::Module), on("B", Tristate::True)];
    assert_eq!(*CfgArgs::new(pairs.clone()).pairs(), pairs);
}

#[test]
fn a_cloned_set_holds_the_same_pairs() {
    let args = CfgArgs::new(vec![
        on("A", Tristate::True),
        ("S".to_string(), Value::String("\"s\"".to_string())),
    ]);
    let copy = args.clone();
    assert_eq!(copy.pairs(), args.pairs());
    assert_eq!(copy.gather("p"), vec!["p_a"]);
}

#[test]
fn output_sets_each_gathered_name() {
    assert_eq!(sample().output("FOO"), vec![flag("foo_bar"), flag("foo_qux")]);
    assert_eq!(CfgArgs::new(vec![]).output("FOO"), vec![]);
}

#[test]
fn propagate_publishes_the_names_under_the_fixed_key() {
    assert_eq!(VAR_CFG_ARGS_KEY, "EMBUILD_CFG_ARGS");
    assert_eq!(
        sample().propagate("FOO"),
        Directive::Metadata {
            key: "EMBUILD_CFG_ARGS".to_string(),
            value: "foo_bar:foo_qux".to_string(),
        }
    );
}

#[test]
fn propagate_of_one_name_has_no_separator() {
    assert_eq!(
        CfgArgs::new(vec![on("Only", Tristate::True)]).propagate("p"),
        Directive::Metadata { key: "EMBUILD_CFG_ARGS".to_string(), value: "p_only".to_string() }
    );
}

#[test]
fn propagate_of_nothing_publishes_the_empty_string() {
    assert_eq!(
        CfgArgs::new(vec![on("A", Tristate::False)]).propagate("p"),
        Directive::Metadata { key: "EMBUILD_CFG_ARGS".to_string(), value: String::new() }
    );
}

#[test]
fn a_dependent_sets_what_the_dependency_gathered() {
    let args = CfgArgs::new(load(b"CONFIG_A=y\nCONFIG_B=n\nCONFIG_C=y\nNAME=\"x\"\nCONFIG_A=y\n"));
    let gathered = args.gather("ESP_IDF");
    let env = vec![
        ("PATH".to_string(), "/bin".to_string()),
        publish("esp-idf", &args.propagate("ESP_IDF")),
    ];
    let set = CfgArgs::output_propagated("esp-idf", &env).unwrap();
    assert_eq!(set, gathered.iter().map(|name| flag(name)).collect::<Vec<_>>());
    assert_eq!(
        set,
        vec![flag("esp_idf_config_a"), flag("esp_idf_config_c"), flag("esp_idf_config_a")]
    );
    assert_eq!(set, args.output("ESP_IDF"));
}

#[test]
fn output_propagated_without_the_variable_is_an_error() {
    let absent = Error::NotPropagated { variable: "DEP_lib_EMBUILD_CFG_ARGS".to_string() };
    assert_eq!(CfgArgs::output_propagated("lib", &vec![]), Err(absent.clone()));
    let env = env_of(&[
        ("DEP_other_EMBUILD_CFG_ARGS", "a"),
        ("DEP_lib_EMBUILD_CFG", "b"),
        ("DEP_lib_EMBUILD_CFG_ARGS_", "c"),
        ("dep_lib_embuild_cfg_args", "d"),
        ("EMBUILD_CFG_ARGS", "e"),
    ]);
    assert_eq!(CfgArgs::output_propagated("lib", &env), Err(absent));
}

#[test]
fn output_propagated_takes_the_identifier_as_written() {
    let env = env_of(&[("DEP_ESP_IDF_EMBUILD_CFG_ARGS", "a_b:c_d")]);
    assert_eq!(CfgArgs::output_propagated("ESP_IDF", &env), Ok(vec![flag("a_b"), flag("c_d")]));
    assert_eq!(
        CfgArgs::output_propagated("esp_idf", &env),
        Err(Error::NotPropagated { variable: "DEP_esp_idf_EMBUILD_CFG_ARGS".to_string() })
    );
    assert_eq!(
        CfgArgs::output_propagated("", &env),
        Err(Error::NotPropagated { variable: "DEP__EMBUILD_CFG_ARGS".to_string() })
    );
}

#[test]
fn output_propagated_does_not_check_the_names() {
    let env = env_of(&[("DEP_x_EMBUILD_CFG_ARGS", "Foo Bar::9-lives:")]);
    assert_eq!(
        CfgArgs::output_propagated("x", &env),
        Ok(vec![flag("Foo Bar"), flag(""), flag("9-lives"), flag("")])
    );
}

#[test]
fn output_propagated_of_the_empty_string_sets_the_empty_name() {
    let nothing = CfgArgs::new(vec![]);
    let env = vec![publish("x", &nothing.propagate("p"))];
    assert_eq!(CfgArgs::output_propagated("x", &env), Ok(vec![flag("")]));
    assert_eq!(nothing.output("p"), vec![]);
}

#[test]
fn output_propagated_takes_the_first_of_two_variables() {
    let env = env_of(&[("DEP_x_EMBUILD_CFG_ARGS", "a"), ("DEP_x_EMBUILD_CFG_ARGS", "b")]);
    assert_eq!(CfgArgs::output_propagated("x", &env), Ok(vec![flag("a")]));
}

#[test]
fn a_name_with_a_separator_does_not_come_back_whole() {
    let args = CfgArgs::new(vec![on("A:B", Tristate::True)]);
    assert_eq!(args.gather("p"), vec!["p_a:b"]);
    let env = vec![publish("x", &args.propagate("p"))];
    assert_eq!(CfgArgs::output_propagated("x", &env), Ok(vec![flag("p_a"), flag("b")]));
}

#[test]
fn a_cloned_error_is_equal() {
    let error = Error::NotPropagated { variable: "V".to_string() };
    assert_eq!(error.clone(), error);
}
