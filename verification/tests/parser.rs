use rusty_open::desktop_entry::parse_desktop_file;

#[test]
fn keys_outside_entry_group_are_absent() {
    let content = "Exec=evil-before\n\
        [Other Group]\n\
        Exec=evil-other\n\
        [Desktop Entry]\n\
        Name=Files\n\
        Exec=app %f\n\
        [Desktop Action new-window]\n\
        Exec=evil-after\n";
    let m = parse_desktop_file(content);
    assert_eq!(m.get("Exec"), Some(&"app %f".to_string()));
    assert_eq!(m.get("Name"), Some(&"Files".to_string()));
}

#[test]
fn key_only_outside_entry_group_is_missing() {
    let content = "[Desktop Action x]\nTerminal=true\n[Desktop Entry]\nExec=app\n";
    let m = parse_desktop_file(content);
    assert_eq!(m.get("Terminal"), None);
}

#[test]
fn text_without_header_yields_empty_map() {
    let m = parse_desktop_file("Exec=app\nName=x\n");
    assert_eq!(m.get("Exec"), None);
    assert_eq!(m.get("Name"), None);
}

#[test]
fn duplicate_key_last_write_wins() {
    let m = parse_desktop_file("[Desktop Entry]\nExec=first\nExec=second\n");
    assert_eq!(m.get("Exec"), Some(&"second".to_string()));
}

#[test]
fn lines_without_equals_are_skipped() {
    let m = parse_desktop_file("[Desktop Entry]\n# comment\njust words\nExec=app\n");
    assert_eq!(m.get("Exec"), Some(&"app".to_string()));
    assert_eq!(m.get("# comment"), None);
}

#[test]
fn split_happens_at_first_equals() {
    let m = parse_desktop_file("[Desktop Entry]\nExec=env A=b app\n");
    assert_eq!(m.get("Exec"), Some(&"env A=b app".to_string()));
}

#[test]
fn keys_and_values_are_trimmed() {
    let m = parse_desktop_file("[Desktop Entry]\n  Exec  =  app %f  \n");
    assert_eq!(m.get("Exec"), Some(&"app %f".to_string()));
}

#[test]
fn header_recognized_with_surrounding_whitespace() {
    let m = parse_desktop_file("  [Desktop Entry]  \nExec=app\n");
    assert_eq!(m.get("Exec"), Some(&"app".to_string()));
}

#[test]
fn scan_stops_at_next_group_even_indented() {
    let m = parse_desktop_file("[Desktop Entry]\nName=x\n  [Desktop Action a]\nIcon=y\n");
    assert_eq!(m.get("Name"), Some(&"x".to_string()));
    assert_eq!(m.get("Icon"), None);
}

#[test]
fn empty_text_yields_empty_map() {
    let m = parse_desktop_file("");
    assert_eq!(m.get("Exec"), None);
}

#[test]
fn case_sensitive_keys() {
    let m = parse_desktop_file("[Desktop Entry]\nexec=lower\n");
    assert_eq!(m.get("Exec"), None);
    assert_eq!(m.get("exec"), Some(&"lower".to_string()));
}
