use voice_channel_manager::command_parser::{parse_command, split_words};

fn words(content: &str) -> Vec<String> {
    split_words(content).iter().map(|w| w.iter().collect()).collect()
}

#[test]
fn words_are_split_at_white_space() {
    assert_eq!(words("  set   prefix\t!\n"), vec!["set", "prefix", "!"]);
    assert_eq!(words(""), Vec::<String>::new());
    assert_eq!(words(" \u{2003} "), Vec::<String>::new());
    assert_eq!(words("één\u{a0}twee"), vec!["één", "twee"]);
}

#[test]
fn arguments_follow_the_command_name() {
    let command = parse_command(42, "prefix ! now");
    assert_eq!(command.args(), &vec!["!".to_string(), "now".to_string()]);
    assert_eq!(command.get_nth_arg(0), Some("!"));
    assert_eq!(command.get_nth_arg(1), Some("now"));
    assert_eq!(command.get_nth_arg(2), None);
    assert_eq!(command.args_iter(), vec!["!", "now"]);
}

#[test]
fn mention_of_the_bot_is_passed_over() {
    let command = parse_command(42, "  <@42> prefix !");
    assert_eq!(command.args_iter(), vec!["!"]);
    let other = parse_command(42, "<@43> prefix !");
    assert_eq!(other.args_iter(), vec!["prefix", "!"]);
}

#[test]
fn command_without_arguments() {
    assert!(parse_command(42, "ping").args().is_empty());
    assert!(parse_command(42, "<@42> ping").args().is_empty());
    assert!(parse_command(42, "<@42>").args().is_empty());
    assert!(parse_command(42, "").args().is_empty());
    assert_eq!(parse_command(42, "").get_nth_arg(0), None);
}
