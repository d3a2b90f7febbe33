use muxie::dialog::{
    detect_provider, kdialog_command_args, parse_kdialog_output, parse_yad_output,
    parse_zenity_output, Provider,
};

fn opts() -> Vec<String> {
    vec!["Firefox".to_string(), "Chromium".to_string(), "Work Browser".to_string()]
}

#[test]
fn provider_preference_order() {
    assert_eq!(detect_provider(true, true, true), Some(Provider::Kdialog));
    assert_eq!(detect_provider(false, true, true), Some(Provider::Zenity));
    assert_eq!(detect_provider(false, false, true), Some(Provider::Yad));
    assert_eq!(detect_provider(false, false, false), None);
}

#[test]
fn kdialog_output_is_an_index() {
    assert_eq!(parse_kdialog_output("1\n", 3), Some(1));
    assert_eq!(parse_kdialog_output(" +2 ", 3), Some(2));
    assert_eq!(parse_kdialog_output("3", 3), None);
    assert_eq!(parse_kdialog_output("", 3), None);
    assert_eq!(parse_kdialog_output("x1", 3), None);
}

#[test]
fn zenity_output_is_a_label() {
    assert_eq!(parse_zenity_output("Chromium\n", &opts()), Some(1));
    assert_eq!(parse_zenity_output("Work Browser", &opts()), Some(2));
    assert_eq!(parse_zenity_output("Opera", &opts()), None);
    assert_eq!(parse_zenity_output("  \n", &opts()), None);
}

#[test]
fn yad_output_first_column_of_first_line() {
    assert_eq!(parse_yad_output("Work Browser|\n", &opts()), Some(2));
    assert_eq!(parse_yad_output("Firefox\nChromium\n", &opts()), Some(0));
    assert_eq!(parse_yad_output("|Firefox\n", &opts()), None);
    assert_eq!(parse_yad_output("", &opts()), None);
}

#[test]
fn kdialog_arguments_tag_each_option() {
    let args = kdialog_command_args("T", "M", &vec!["A".to_string(), "B".to_string()], 1);
    assert_eq!(
        args,
        vec!["--title", "T", "--radiolist", "M", "0", "A", "off", "1", "B", "on"]
    );
}
