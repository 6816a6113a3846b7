use passwords::commands::{
    parse_edit_choice, parse_entry_command, parse_menu_command, EditChoice, EntryCommand,
    MenuCommand,
};

fn chars(s: &str) -> Vec<char> {
    s.chars().collect()
}

#[test]
fn menu_words() {
    for (line, cmd) in [
        ("", MenuCommand::Help),
        ("help", MenuCommand::Help),
        ("h extra", MenuCommand::Help),
        ("list", MenuCommand::List),
        ("l", MenuCommand::List),
        ("new", MenuCommand::New),
        ("n", MenuCommand::New),
        ("quit", MenuCommand::Quit),
        ("q", MenuCommand::Quit),
        ("Quit", MenuCommand::Nothing),
        (" help", MenuCommand::Help),
        ("lists", MenuCommand::Nothing),
    ] {
        assert_eq!(parse_menu_command(&chars(line), 3), cmd, "{line:?}");
    }
}

#[test]
fn menu_select_needs_an_index_below_the_entry_count() {
    assert_eq!(parse_menu_command(&chars("select 2"), 3), MenuCommand::Select(2));
    assert_eq!(parse_menu_command(&chars("s 0 more"), 3), MenuCommand::Select(0));
    assert_eq!(parse_menu_command(&chars("s +1"), 3), MenuCommand::Select(1));
    assert_eq!(parse_menu_command(&chars("select 3"), 3), MenuCommand::Nothing);
    assert_eq!(parse_menu_command(&chars("select"), 3), MenuCommand::Nothing);
    assert_eq!(parse_menu_command(&chars("select  2"), 3), MenuCommand::Nothing);
    assert_eq!(parse_menu_command(&chars("select x"), 3), MenuCommand::Nothing);
}

#[test]
fn entry_menu_words() {
    for (line, cmd) in [
        ("", EntryCommand::Help),
        ("help", EntryCommand::Help),
        ("show password", EntryCommand::ShowPassword),
        ("showpass", EntryCommand::ShowPassword),
        ("sp", EntryCommand::ShowPassword),
        ("show 1", EntryCommand::ShowField(1)),
        ("show 2", EntryCommand::Nothing),
        ("show", EntryCommand::Nothing),
        ("showfield 0", EntryCommand::ShowField(0)),
        ("sf 1", EntryCommand::ShowField(1)),
        ("sf", EntryCommand::Nothing),
        ("list", EntryCommand::List),
        ("l", EntryCommand::List),
        ("new", EntryCommand::NewField),
        ("n", EntryCommand::NewField),
        ("back", EntryCommand::Back),
        ("cancel", EntryCommand::Back),
        ("b", EntryCommand::Back),
        ("c", EntryCommand::Back),
        ("leave", EntryCommand::Back),
        ("exit", EntryCommand::Back),
        ("exit now", EntryCommand::Back),
        ("quit", EntryCommand::Nothing),
    ] {
        assert_eq!(parse_entry_command(&chars(line), 2), cmd, "{line:?}");
    }
}

#[test]
fn edit_choice_ignores_case() {
    assert_eq!(parse_edit_choice(&chars("name")), EditChoice::Name);
    assert_eq!(parse_edit_choice(&chars("NaMe")), EditChoice::Name);
    assert_eq!(parse_edit_choice(&chars("N")), EditChoice::Name);
    assert_eq!(parse_edit_choice(&chars("value")), EditChoice::Value);
    assert_eq!(parse_edit_choice(&chars("VAL")), EditChoice::Value);
    assert_eq!(parse_edit_choice(&chars("v")), EditChoice::Value);
    assert_eq!(parse_edit_choice(&chars("names")), EditChoice::Neither);
    assert_eq!(parse_edit_choice(&chars("")), EditChoice::Neither);
    for word in ["NAME", "Value", "vAl", "x"] {
        let expected = match word.to_lowercase().as_str() {
            "name" | "n" => EditChoice::Name,
            "value" | "val" | "v" => EditChoice::Value,
            _ => EditChoice::Neither,
        };
        assert_eq!(parse_edit_choice(&chars(word)), expected);
    }
}
