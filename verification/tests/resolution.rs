use grunner::command_actions::{
    resolve_action, GrunnerAction, GrunnerChoiceType, GrunnerConfig, GrunnerOption,
    GrunnerOptionMessage, GrunnerSection,
};
use grunner::template::render_template;

fn choice(label: &str, args: &[&str], reps: &[(&str, &str)]) -> GrunnerChoiceType {
    GrunnerChoiceType {
        id: 0,
        label: label.to_string(),
        args: args.iter().map(|s| s.to_string()).collect(),
        replacements: reps
            .iter()
            .map(|(k, v)| (k.to_string(), v.to_string()))
            .collect(),
    }
}

fn action(name: &str, execute: &str, args: &[&str], use_options: &[&str]) -> GrunnerAction {
    GrunnerAction {
        name: name.to_string(),
        execute: execute.to_string(),
        args: args.iter().map(|s| s.to_string()).collect(),
        use_options: use_options.iter().map(|s| s.to_string()).collect(),
        success_sound: None,
        fail_sound: None,
        options: Vec::new(),
    }
}

fn reps(pairs: &[(&str, &str)]) -> Vec<(String, String)> {
    pairs
        .iter()
        .map(|(k, v)| (k.to_string(), v.to_string()))
        .collect()
}

#[test]
fn rendering_substitutes_bound_keys() {
    let r = render_template("echo {{msg}}", &reps(&[("msg", "hi")]));
    assert_eq!(r, "echo hi".to_string());
}

#[test]
fn rendering_substitutes_missing_keys_with_nothing() {
    let r = render_template("echo {{msg}}", &reps(&[]));
    assert_eq!(r, "echo ".to_string());
}

#[test]
fn rendering_takes_the_latest_binding() {
    let r = render_template("{{x}}", &reps(&[("x", "first"), ("x", "second")]));
    assert_eq!(r, "second".to_string());
}

#[test]
fn rendering_handles_several_placeholders() {
    let r = render_template(
        "a {{one}} b {{two}} c {{one}}",
        &reps(&[("one", "1"), ("two", "2")]),
    );
    assert_eq!(r, "a 1 b 2 c 1".to_string());
}

#[test]
fn rendering_keeps_text_without_placeholders() {
    let r = render_template("plain text", &reps(&[("x", "y")]));
    assert_eq!(r, "plain text".to_string());
}

#[test]
fn rendering_of_the_empty_template_is_empty() {
    let r = render_template("", &reps(&[("x", "y")]));
    assert_eq!(r, String::new());
}

#[test]
fn rendering_keeps_unclosed_braces_literally() {
    let r = render_template("oops {{key", &reps(&[("key", "v")]));
    assert_eq!(r, "oops {{key".to_string());
}

#[test]
fn rendering_needs_a_double_closing_brace() {
    let r = render_template("{{a}b}}", &reps(&[("a", "v"), ("a}b", "w")]));
    assert_eq!(r, "{{a}b}}".to_string());
}

#[test]
fn rendering_keys_are_taken_verbatim() {
    let r = render_template("{{ msg }}", &reps(&[("msg", "hi"), (" msg ", "there")]));
    assert_eq!(r, "there".to_string());
}

#[test]
fn rendering_agrees_with_a_template_engine_on_bound_keys() {
    let template = "run {{mode}} with {{level}}!";
    let ours = render_template(template, &reps(&[("mode", "fast"), ("level", "3")]));
    let engine = string_template::Template::new(template);
    let mut vals = std::collections::HashMap::new();
    vals.insert("mode", "fast");
    vals.insert("level", "3");
    assert_eq!(ours, engine.render(&vals));
}

#[test]
fn resolution_concatenates_option_args_in_listed_order() {
    let act = action("build", "make", &["all"], &["mode", "verbose"]);
    let mut options = vec![
        GrunnerOption::Flag {
            name: "verbose".to_string(),
            label: "Verbose".to_string(),
            value: true,
            args: vec!["-v".to_string()],
        },
        GrunnerOption::Choices {
            name: "mode".to_string(),
            choices: vec![choice("debug", &["--debug"], &[])],
            selected: None,
        },
    ];
    let resolved = resolve_action(&act, &mut options);
    // `use_options` order decides: mode's args come before verbose's.
    assert_eq!(
        resolved.options,
        vec!["--debug".to_string(), "-v".to_string()]
    );
    assert_eq!(resolved.args, vec!["all".to_string()]);
    assert_eq!(resolved.execute, "make".to_string());
}

#[test]
fn resolution_selects_the_first_choice_by_default() {
    let act = action("build", "make", &[], &["mode"]);
    let mut options = vec![GrunnerOption::Choices {
        name: "mode".to_string(),
        choices: vec![
            choice("debug", &["--debug"], &[]),
            choice("release", &["--release"], &[]),
        ],
        selected: None,
    }];
    let resolved = resolve_action(&act, &mut options);
    assert_eq!(resolved.options, vec!["--debug".to_string()]);
    match &options[0] {
        GrunnerOption::Choices { selected, .. } => assert_eq!(*selected, Some(0)),
        GrunnerOption::Flag { .. } => panic!("option kind changed"),
    }
    // Resolving again reads the same selection.
    let resolved2 = resolve_action(&act, &mut options);
    assert_eq!(resolved2.options, vec!["--debug".to_string()]);
}

#[test]
fn later_option_wins_a_replacement_key_collision() {
    let act = action("greet", "say {{x}}", &[], &["a", "b"]);
    let mut options = vec![
        GrunnerOption::Choices {
            name: "a".to_string(),
            choices: vec![choice("a0", &[], &[("x", "from-a")])],
            selected: None,
        },
        GrunnerOption::Choices {
            name: "b".to_string(),
            choices: vec![choice("b0", &[], &[("x", "from-b")])],
            selected: None,
        },
    ];
    let resolved = resolve_action(&act, &mut options);
    assert_eq!(resolved.execute, "say from-b".to_string());
}

#[test]
fn unknown_option_names_are_skipped() {
    let act = action("build", "make {{ghost}}", &["all"], &["missing"]);
    let mut options: Vec<GrunnerOption> = Vec::new();
    let resolved = resolve_action(&act, &mut options);
    assert_eq!(resolved.options, Vec::<String>::new());
    assert_eq!(resolved.execute, "make ".to_string());
}

#[test]
fn unset_flag_contributes_nothing_to_resolution() {
    let act = action("build", "make", &[], &["verbose"]);
    let mut options = vec![GrunnerOption::Flag {
        name: "verbose".to_string(),
        label: "Verbose".to_string(),
        value: false,
        args: vec!["-v".to_string()],
    }];
    let resolved = resolve_action(&act, &mut options);
    assert_eq!(resolved.options, Vec::<String>::new());
}

#[test]
fn selection_changes_are_routed_by_name() {
    let mut config = GrunnerConfig {
        sections: vec![
            GrunnerSection {
                label: "first".to_string(),
                options: vec![GrunnerOption::Flag {
                    name: "other".to_string(),
                    label: "Other".to_string(),
                    value: false,
                    args: Vec::new(),
                }],
                actions: Vec::new(),
            },
            GrunnerSection {
                label: "second".to_string(),
                options: vec![GrunnerOption::Choices {
                    name: "mode".to_string(),
                    choices: vec![
                        choice("debug", &[], &[]),
                        choice("release", &[], &[]),
                    ],
                    selected: None,
                }],
                actions: Vec::new(),
            },
        ],
    };
    let applied = config.apply_option_change(
        &"mode".to_string(),
        GrunnerOptionMessage::ChoiceChanged(1),
    );
    assert!(applied);
    match &config.sections[1].options[0] {
        GrunnerOption::Choices { selected, .. } => assert_eq!(*selected, Some(1)),
        GrunnerOption::Flag { .. } => panic!("option kind changed"),
    }
    // The unrelated flag is untouched.
    match &config.sections[0].options[0] {
        GrunnerOption::Flag { value, .. } => assert!(!value),
        GrunnerOption::Choices { .. } => panic!("option kind changed"),
    }
}

#[test]
fn selection_change_for_an_unknown_name_does_nothing() {
    let mut config = GrunnerConfig {
        sections: vec![GrunnerSection {
            label: "only".to_string(),
            options: Vec::new(),
            actions: Vec::new(),
        }],
    };
    let applied = config.apply_option_change(
        &"ghost".to_string(),
        GrunnerOptionMessage::FlagChanged(true),
    );
    assert!(!applied);
}

#[test]
fn out_of_range_routed_choice_is_rejected() {
    let mut config = GrunnerConfig {
        sections: vec![GrunnerSection {
            label: "only".to_string(),
            options: vec![GrunnerOption::Choices {
                name: "mode".to_string(),
                choices: vec![choice("debug", &[], &[])],
                selected: None,
            }],
            actions: Vec::new(),
        }],
    };
    let applied = config.apply_option_change(
        &"mode".to_string(),
        GrunnerOptionMessage::ChoiceChanged(5),
    );
    assert!(!applied);
    match &config.sections[0].options[0] {
        GrunnerOption::Choices { selected, .. } => assert_eq!(*selected, None),
        GrunnerOption::Flag { .. } => panic!("option kind changed"),
    }
}

#[test]
fn set_selected_options_and_apply_replacement_map() {
    let mut act = action("greet", "echo {{who}}", &[], &[]);
    act.set_selected_options(vec!["--loud".to_string()]);
    assert_eq!(act.options, vec!["--loud".to_string()]);
    act.apply_replacement_map(&reps(&[("who", "world")]));
    assert_eq!(act.execute, "echo world".to_string());
}
