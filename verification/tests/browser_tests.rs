use extended_ui::browser::requested_browser_name;
use extended_ui::browser::{
    attempt_result, browser_app_candidates, browser_binary_candidates, browser_windows_relative_path,
    build_install_command_for_browser, canonical_browser_name, escape_applescript_text,
    linux_family_from_os_release, linux_interactive_command, linux_package_for_browser,
    linux_terminals, link_target, macos_terminal_script, missing_browser_prompt,
    next_browser_step, parse_os_release_value, system_open_outcome, windows_command_extensions,
    brew_package_for_browser, winget_package_for_browser, BrowserAttempt, BrowserStep,
    InstallRequests, LinuxFamily, OpenOutcome, TargetOs,
};

fn strings(v: &[&str]) -> Vec<String> {
    v.iter().map(|s| s.to_string()).collect()
}

#[test]
fn browser_names_are_canonical() {
    assert_eq!(canonical_browser_name(" Google_Chrome "), "chrome");
    assert_eq!(canonical_browser_name("Mozilla Firefox"), "firefox");
    assert_eq!(canonical_browser_name("MSEdge"), "edge");
    assert_eq!(canonical_browser_name("chromium-browser"), "chromium");
    assert_eq!(canonical_browser_name("Pale Moon"), "pale-moon");
    // A canonical name reads as itself.
    for raw in ["Google Chrome", "brave_browser", "Pale Moon", "  "] {
        let once = canonical_browser_name(raw);
        assert_eq!(canonical_browser_name(&once), once);
    }
}

#[test]
fn programs_and_applications() {
    assert_eq!(
        browser_binary_candidates("chrome"),
        strings(&["google-chrome", "google-chrome-stable", "chrome"])
    );
    assert_eq!(browser_binary_candidates("Pale Moon"), strings(&["pale-moon"]));
    assert_eq!(browser_app_candidates("edge"), strings(&["Microsoft Edge"]));
    assert_eq!(browser_app_candidates("Pale Moon"), strings(&["Pale Moon"]));
    assert_eq!(
        browser_windows_relative_path("firefox"),
        Some("Mozilla Firefox\\firefox.exe".to_string())
    );
    assert_eq!(browser_windows_relative_path("safari"), None);
}

#[test]
fn packages_per_system() {
    assert_eq!(linux_package_for_browser("firefox", LinuxFamily::Debian), "firefox-esr");
    assert_eq!(linux_package_for_browser("firefox", LinuxFamily::Fedora), "firefox");
    assert_eq!(linux_package_for_browser("chrome", LinuxFamily::Arch), "google-chrome");
    assert_eq!(linux_package_for_browser("chrome", LinuxFamily::Debian), "google-chrome-stable");
    assert_eq!(brew_package_for_browser("brave"), "brave-browser");
    assert_eq!(winget_package_for_browser("vivaldi"), "VivaldiTechnologies.Vivaldi");
    assert_eq!(winget_package_for_browser("other"), "other");
}

#[test]
fn os_release_values() {
    let raw = "# comment\nNAME=\"Ubuntu\"\nID=ubuntu\nID_LIKE='Debian'\nID=later\n";
    assert_eq!(parse_os_release_value(raw, "ID"), Some("ubuntu".to_string()));
    assert_eq!(parse_os_release_value(raw, "ID_LIKE"), Some("debian".to_string()));
    assert_eq!(parse_os_release_value(raw, "NAME"), Some("ubuntu".to_string()));
    assert_eq!(parse_os_release_value(raw, "VERSION"), None);
    assert_eq!(linux_family_from_os_release(raw), Some(LinuxFamily::Debian));
    assert_eq!(linux_family_from_os_release("ID=manjaro\n"), Some(LinuxFamily::Arch));
    assert_eq!(linux_family_from_os_release("ID=rocky\r\n"), Some(LinuxFamily::Fedora));
    assert_eq!(linux_family_from_os_release("ID=gentoo"), None);
}

#[test]
fn install_commands() {
    assert_eq!(
        build_install_command_for_browser("chrome", TargetOs::Linux, Some(LinuxFamily::Debian)),
        Some("sudo apt install google-chrome-stable".to_string())
    );
    assert_eq!(
        build_install_command_for_browser("firefox", TargetOs::Linux, Some(LinuxFamily::Arch)),
        Some("sudo pacman -S firefox".to_string())
    );
    assert_eq!(build_install_command_for_browser("chrome", TargetOs::Linux, None), None);
    assert_eq!(
        build_install_command_for_browser("edge", TargetOs::MacOs, None),
        Some("brew install --cask microsoft-edge".to_string())
    );
    assert_eq!(
        build_install_command_for_browser("opera", TargetOs::Windows, None),
        Some("winget install --id Opera.Opera -e".to_string())
    );
    assert_eq!(build_install_command_for_browser("opera", TargetOs::Other, None), None);
}

#[test]
fn terminal_commands() {
    assert_eq!(escape_applescript_text(r#"say "hi" \ bye"#), r#"say \"hi\" \\ bye"#);
    assert_eq!(
        macos_terminal_script("echo \"x\""),
        "tell application \"Terminal\" to do script \"echo \\\"x\\\"\""
    );
    assert_eq!(
        linux_interactive_command("ls"),
        "ls; echo; read -r -p \"Press Enter to close...\" _"
    );
    let terms = linux_terminals();
    assert_eq!(terms.len(), 6);
    assert_eq!(terms[1], ("gnome-terminal".to_string(), "--".to_string()));
}

#[test]
fn windows_extensions() {
    assert_eq!(windows_command_extensions("chrome.exe", Some(".COM")), strings(&[""]));
    assert_eq!(windows_command_extensions("chrome", Some(" .COM ; ;.EXE")), strings(&[".COM", ".EXE"]));
    assert_eq!(windows_command_extensions("chrome", Some(" ; ")), strings(&[".EXE", ".CMD", ".BAT"]));
    assert_eq!(windows_command_extensions("chrome", None), strings(&[".EXE", ".CMD", ".BAT"]));
}

#[test]
fn opening_links() {
    assert_eq!(link_target("  https://example.com "), Some("https://example.com".to_string()));
    assert_eq!(link_target("   "), None);
    assert_eq!(attempt_result(false, false), BrowserAttempt::NotInstalled);
    assert_eq!(attempt_result(true, true), BrowserAttempt::Opened);
    assert_eq!(attempt_result(true, false), BrowserAttempt::LaunchFailed);
    assert_eq!(system_open_outcome(false), OpenOutcome::Failed);
    assert_eq!(next_browser_step(&vec![], 2), BrowserStep::Try(0));
    assert_eq!(next_browser_step(&vec![BrowserAttempt::NotInstalled], 2), BrowserStep::Try(1));
    assert_eq!(
        next_browser_step(&vec![BrowserAttempt::NotInstalled, BrowserAttempt::Opened], 2),
        BrowserStep::Done(OpenOutcome::Opened)
    );
    assert_eq!(
        next_browser_step(&vec![BrowserAttempt::LaunchFailed, BrowserAttempt::NotInstalled], 2),
        BrowserStep::Done(OpenOutcome::Failed)
    );
    assert_eq!(
        next_browser_step(&vec![BrowserAttempt::NotInstalled, BrowserAttempt::NotInstalled], 2),
        BrowserStep::Done(OpenOutcome::MissingBrowser)
    );
    assert_eq!(next_browser_step(&vec![], 0), BrowserStep::Done(OpenOutcome::MissingBrowser));
}

#[test]
fn install_offers() {
    let p = missing_browser_prompt(&strings(&["chrome"]), true, Some("sudo apt install x".to_string()));
    assert_eq!(p.title, "Install Browser");
    assert_eq!(
        p.content,
        "The configured browser 'chrome' is not installed.\n\nRun this command in a terminal?\nsudo apt install x"
    );
    assert_eq!(p.install_command, Some("sudo apt install x".to_string()));
    let q = missing_browser_prompt(&vec![], true, None);
    assert_eq!(q.title, "Browser Not Installed");
    assert_eq!(
        q.content,
        "The configured browser 'browser' is not installed. No supported install command is available for this operating system."
    );
    let r = missing_browser_prompt(&strings(&["x"]), false, Some("cmd".to_string()));
    assert_eq!(r.content, "The configured browser 'x' is not installed.");
    assert_eq!(r.install_command, None);
}

#[test]
fn install_requests_wait_for_an_answer() {
    let mut reqs = InstallRequests::new();
    let a = reqs.register("first".to_string());
    let b = reqs.register("second".to_string());
    assert_eq!((a, b), (1, 2));
    assert_eq!(reqs.dialog_closed(a, true, true), Some("first".to_string()));
    assert_eq!(reqs.dialog_closed(a, true, true), None);
    assert_eq!(reqs.dialog_closed(b, false, true), None);
    assert!(reqs.pending.is_empty());
}

#[test]
fn the_dialog_names_the_first_requested_browser() {
    assert_eq!(requested_browser_name(&vec!["firefox".to_string(), "chrome".to_string()]), "firefox");
    assert_eq!(requested_browser_name(&vec![]), "browser");
}
