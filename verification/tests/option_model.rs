use grunner::command_actions::{
    next_option_id, GrunnerChoiceType, GrunnerOption, GrunnerOptionMessage,
};

fn choice(id: usize, label: &str, args: &[&str], reps: &[(&str, &str)]) -> GrunnerChoiceType {
    GrunnerChoiceType {
        id,
        label: label.to_string(),
        args: args.iter().map(|s| s.to_string()).collect(),
        replacements: reps
            .iter()
            .map(|(k, v)| (k.to_string(), v.to_string()))
            .collect(),
    }
}

fn mode_option() -> GrunnerOption {
    GrunnerOption::Choices {
        name: "mode".to_string(),
        choices: vec![
            choice(0, "debug", &["--debug"], &[("mode", "debug")]),
            choice(1, "release", &["--release"], &[("mode", "release")]),
        ],
        selected: None,
    }
}

fn selected_of(o: &GrunnerOption) -> Option<usize> {
    match o {
        GrunnerOption::Choices { selected, .. } => *selected,
        GrunnerOption::Flag { .. } => None,
    }
}

#[test]
fn default_select_first_applies_once_and_stays() {
    let mut o = mode_option();
    assert_eq!(selected_of(&o), None);
    o.ensure_selected();
    assert_eq!(selected_of(&o), Some(0));
    assert_eq!(o.get_arg(), vec!["--debug".to_string()]);
    o.ensure_selected();
    assert_eq!(selected_of(&o), Some(0));
    assert_eq!(o.get_arg(), vec!["--debug".to_string()]);
}

#[test]
fn default_select_does_not_override_a_selection() {
    let mut o = mode_option();
    assert!(o.update(GrunnerOptionMessage::ChoiceChanged(1)));
    o.ensure_selected();
    assert_eq!(selected_of(&o), Some(1));
    assert_eq!(o.get_arg(), vec!["--release".to_string()]);
}

#[test]
fn unset_flag_contributes_nothing() {
    let o = GrunnerOption::Flag {
        name: "verbose".to_string(),
        label: "Verbose".to_string(),
        value: false,
        args: vec!["-v".to_string(), "--log".to_string()],
    };
    assert_eq!(o.get_arg(), Vec::<String>::new());
    assert_eq!(o.get_replacements(), Vec::<(String, String)>::new());
}

#[test]
fn set_flag_contributes_exactly_its_args() {
    let mut o = GrunnerOption::Flag {
        name: "verbose".to_string(),
        label: "Verbose".to_string(),
        value: false,
        args: vec!["-v".to_string(), "--log".to_string()],
    };
    assert!(o.update(GrunnerOptionMessage::FlagChanged(true)));
    assert_eq!(o.get_arg(), vec!["-v".to_string(), "--log".to_string()]);
    assert_eq!(o.get_replacements(), Vec::<(String, String)>::new());
}

#[test]
fn out_of_range_choice_is_rejected_and_state_kept() {
    let mut o = mode_option();
    assert!(o.update(GrunnerOptionMessage::ChoiceChanged(1)));
    assert!(!o.update(GrunnerOptionMessage::ChoiceChanged(2)));
    assert_eq!(selected_of(&o), Some(1));
}

#[test]
fn wrong_message_kind_is_rejected() {
    let mut o = mode_option();
    assert!(!o.update(GrunnerOptionMessage::FlagChanged(true)));
    assert_eq!(selected_of(&o), None);
}

#[test]
fn get_choice_copies_the_selected_choice() {
    let mut o = mode_option();
    o.update(GrunnerOptionMessage::ChoiceChanged(1));
    let c = o.get_choice();
    assert_eq!(c.label, "release".to_string());
    assert_eq!(c.args, vec!["--release".to_string()]);
    assert_eq!(
        c.replacements,
        vec![("mode".to_string(), "release".to_string())]
    );
}

#[test]
fn get_choice_without_selection_is_empty() {
    let o = mode_option();
    let c = o.get_choice();
    assert_eq!(c.id, 0);
    assert_eq!(c.label, String::new());
    assert_eq!(c.args, Vec::<String>::new());
    assert_eq!(c.replacements, Vec::<(String, String)>::new());
}

#[test]
fn get_name_and_get_choices() {
    let o = mode_option();
    assert_eq!(o.get_name(), "mode");
    let cs = o.get_choices();
    assert_eq!(cs.len(), 2);
    assert_eq!(cs[0].label, "debug".to_string());
    assert_eq!(cs[1].label, "release".to_string());
}

#[test]
fn option_ids_count_up() {
    let mut counter: usize = 0;
    assert_eq!(next_option_id(&mut counter), 0);
    assert_eq!(next_option_id(&mut counter), 1);
    assert_eq!(next_option_id(&mut counter), 2);
    assert_eq!(counter, 3);
}
