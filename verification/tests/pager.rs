use questfleet::pager::command;

#[test]
fn the_pager_comes_from_the_environment_with_a_working_default() {
    // Set but empty, and set to nothing but spaces: both mean "unset".
    assert_eq!(command(""), ["less", "-R"]);
    assert_eq!(command("   "), ["less", "-R"]);
    // Flags come along; the program is never handed to a shell.
    assert_eq!(command("less -R"), ["less", "-R"]);
    assert_eq!(
        command("bat  --paging always"),
        ["bat", "--paging", "always"]
    );
}
