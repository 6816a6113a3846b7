use passwords::navigation::SelectedField;
use passwords::vault::{
    confirm_new_password, password_hash_matches, rule_kind_from_tag, split_entries,
    startup_action, ClipboardRule, Data, Entry, InvalidRuleTag, LoadError, NewPasswordError,
    RuleKind, StartupAction,
};

#[test]
fn rule_tags() {
    assert_eq!(ClipboardRule::Allow.tag(), 0);
    assert_eq!(ClipboardRule::Deny.tag(), 1);
    assert_eq!(ClipboardRule::Timer(5, 0).tag(), 2);
    assert_eq!(rule_kind_from_tag(0), Ok(RuleKind::Allow));
    assert_eq!(rule_kind_from_tag(1), Ok(RuleKind::Deny));
    assert_eq!(rule_kind_from_tag(2), Ok(RuleKind::Timer));
    assert_eq!(rule_kind_from_tag(3), Err(InvalidRuleTag(3)));
}

#[test]
fn rule_tag_round_trip() {
    for (rule, kind) in [
        (ClipboardRule::Allow, RuleKind::Allow),
        (ClipboardRule::Deny, RuleKind::Deny),
        (ClipboardRule::Timer(1, 2), RuleKind::Timer),
    ] {
        assert_eq!(rule_kind_from_tag(rule.tag()), Ok(kind));
    }
}

#[test]
fn invalid_tag_message_has_two_hex_digits() {
    assert_eq!(
        InvalidRuleTag(0xa3).message(),
        "Got invalid discriminant a3 when attempting to get ClipboardRule"
    );
    assert_eq!(
        InvalidRuleTag(7).message(),
        format!("Got invalid discriminant {:02x} when attempting to get ClipboardRule", 7u8)
    );
}

#[test]
fn entry_edits() {
    let mut e = Entry::new("pw".to_string());
    assert!(e.fields().is_empty());
    assert_eq!(e.clipboard_rule(), ClipboardRule::Deny);
    e.push_field("user".to_string(), "abe".to_string());
    e.push_field("pin".to_string(), "1234".to_string());
    e.set_field_name(1, "code".to_string());
    e.set_value(SelectedField::Field(0), "bob".to_string());
    e.set_value(SelectedField::Password, "new".to_string());
    assert_eq!(e.password(), "new");
    assert_eq!(
        *e.fields(),
        vec![
            ("user".to_string(), "bob".to_string()),
            ("code".to_string(), "1234".to_string())
        ]
    );
    assert_eq!(e.value_of(SelectedField::Password), "new");
    assert_eq!(e.value_of(SelectedField::Field(1)), "1234");
}

#[test]
fn data_edits() {
    let mut d = Data::new([9; 64]);
    assert_eq!(d.len(), 0);
    d.push_entry("mail".to_string(), vec![1; 16]);
    d.push_entry("bank".to_string(), vec![2; 32]);
    assert!(!d.rename_entry(0, String::new()));
    assert_eq!(d.name(0), "mail");
    assert!(d.rename_entry(0, "email".to_string()));
    d.set_entry(1, vec![3; 16]);
    assert_eq!(d.len(), 2);
    assert_eq!(d.name(0), "email");
    assert_eq!(d.name(1), "bank");
    assert_eq!(d.entry(0), &vec![1; 16]);
    assert_eq!(d.entry(1), &vec![3; 16]);
    assert_eq!(d.password_hash(), [9; 64]);
    assert_eq!(d.entry_lengths(), vec![16, 16]);
}

#[test]
fn entry_section_loads_back() {
    let mut d = Data::new([0; 64]);
    d.push_entry("a".to_string(), (0..32).collect());
    d.push_entry("b".to_string(), vec![]);
    d.push_entry("c".to_string(), (100..116).collect());
    let section = d.entry_section().unwrap();
    assert_eq!(section.len(), 48);
    let back = split_entries(&d.entry_lengths(), &section).unwrap();
    assert_eq!(back, vec![(0..32).collect::<Vec<u8>>(), vec![], (100..116).collect()]);
}

#[test]
fn entry_section_refuses_partial_blocks() {
    let mut d = Data::new([0; 64]);
    d.push_entry("a".to_string(), vec![1; 15]);
    assert_eq!(d.entry_section(), None);
}

#[test]
fn split_entries_ignores_trailing_bytes_and_refuses_short_input() {
    let body: Vec<u8> = (0..10).collect();
    assert_eq!(
        split_entries(&[2, 3], &body),
        Some(vec![vec![0, 1], vec![2, 3, 4]])
    );
    assert_eq!(split_entries(&[6, 5], &body), None);
    assert_eq!(split_entries(&[], &body), Some(vec![]));
}

#[test]
fn data_from_parts() {
    let body = vec![5u8; 20];
    let d = Data::from_parts([1; 64], vec!["x".to_string(), "y".to_string()], &[4, 16], &body)
        .unwrap();
    assert_eq!(d.name(1), "y");
    assert_eq!(d.entry(0), &vec![5; 4]);
    assert_eq!(d.entry(1), &vec![5; 16]);
    assert_eq!(
        Data::from_parts([1; 64], vec!["x".to_string()], &[4, 16], &body).err(),
        Some(LoadError::CountMismatch)
    );
    assert_eq!(
        Data::from_parts([1; 64], vec!["x".to_string()], &[21], &body).err(),
        Some(LoadError::TruncatedEntries)
    );
}

#[test]
fn hash_comparison() {
    let a = [3u8; 64];
    let mut b = a;
    assert!(password_hash_matches(&a, &b));
    b[63] = 4;
    assert!(!password_hash_matches(&a, &b));
}

#[test]
fn startup_actions() {
    assert_eq!(startup_action(false, false), StartupAction::FirstRun);
    assert_eq!(startup_action(false, true), StartupAction::FirstRun);
    assert_eq!(startup_action(true, true), StartupAction::Open);
    assert_eq!(startup_action(true, false), StartupAction::KeyFileMissing);
}

#[test]
fn new_password_confirmation() {
    assert_eq!(confirm_new_password(b"", b""), Err(NewPasswordError::Empty));
    assert_eq!(confirm_new_password(b"abc", b"abd"), Err(NewPasswordError::Mismatch));
    assert_eq!(confirm_new_password(b"abc", b"abcd"), Err(NewPasswordError::Mismatch));
    assert_eq!(confirm_new_password(b"abc", b"abc"), Ok(()));
}

#[test]
fn timer_rules_hold_only_durations() {
    assert_eq!(ClipboardRule::timer(5, 999_999_999), Some(ClipboardRule::Timer(5, 999_999_999)));
    assert_eq!(ClipboardRule::timer(5, 1_000_000_000), None);
    let d = std::time::Duration::new(3, 250);
    assert_eq!(
        ClipboardRule::timer(d.as_secs(), d.subsec_nanos()),
        Some(ClipboardRule::Timer(3, 250))
    );
}

#[test]
fn entry_from_parts_and_password() {
    assert!(Entry::from_password(String::new()).is_none());
    let e = Entry::from_password("pw".to_string()).unwrap();
    assert_eq!(e.password(), "pw");
    assert!(e.fields().is_empty());
    let mut e = Entry::from_parts(
        "p".to_string(),
        vec![("a".to_string(), "b".to_string())],
        ClipboardRule::Allow,
    );
    assert_eq!(e.clipboard_rule(), ClipboardRule::Allow);
    assert_eq!(e.fields()[0].1, "b");
    e.set_clipboard_rule(ClipboardRule::Timer(1, 0));
    assert_eq!(e.clipboard_rule(), ClipboardRule::Timer(1, 0));
}
