//! Opening a hyperlink in a chosen browser: how browser names are read,
//! which programs, applications and packages stand for each browser, how the
//! attempts to open one are judged, and the text of the install offer made
//! when none is installed.

use vstd::prelude::*;

use std::collections::HashMap;

use crate::input_edit::spec_string_views;
use crate::text::{
    chars_eq_str, chars_of, contains_str, extend_with_chars, extend_with_str, lower_chars,
    spec_contains, spec_lower, spec_trim, string_from_chars, trim_chars, trimmed_chars,
};
use crate::widget_state::{spec_split, spec_split_acc};

verus! {

// ------------------------------------------------------------------
// Browser names
// ------------------------------------------------------------------

/// `_` and space read as `-` in a browser name.
pub open spec fn spec_dash(c: char) -> char {
    if c == '_' || c == ' ' {
        '-'
    } else {
        c
    }
}

/// A browser name trimmed, in ASCII lowercase, with `_` and spaces as `-`.
pub open spec fn spec_normalized_browser(raw: Seq<char>) -> Seq<char> {
    spec_lower(spec_trim(raw)).map_values(|c: char| spec_dash(c))
}

/// The canonical name of a browser: the usual aliases of Chrome, Firefox,
/// Brave, Edge and Chromium read as `chrome`, `firefox`, `brave`, `edge` and
/// `chromium`; any other name stays as normalized.
pub open spec fn spec_canonical_browser(raw: Seq<char>) -> Seq<char> {
    let n = spec_normalized_browser(raw);
    if n == "google-chrome"@ || n == "chrome"@ {
        "chrome"@
    } else if n == "mozilla-firefox"@ || n == "firefox"@ {
        "firefox"@
    } else if n == "brave-browser"@ || n == "brave"@ {
        "brave"@
    } else if n == "microsoft-edge"@ || n == "msedge"@ || n == "edge"@ {
        "edge"@
    } else if n == "chromium-browser"@ || n == "chromium"@ {
        "chromium"@
    } else {
        n
    }
}

fn normalized_browser(raw: &str) -> (r: Vec<char>)
    ensures
        r@ == spec_normalized_browser(raw@),
{
    let l = lower_chars(&trimmed_chars(raw));
    let mut r: Vec<char> = Vec::new();
    let mut k: usize = 0;
    while k < l.len()
        invariant
            k <= l@.len(),
            r@ == l@.subrange(0, k as int).map_values(|c: char| spec_dash(c)),
        decreases l@.len() - k,
    {
        let c = l[k];
        r.push(if c == '_' || c == ' ' {
            '-'
        } else {
            c
        });
        k += 1;
        assert(r@ =~= l@.subrange(0, k as int).map_values(|c: char| spec_dash(c)));
    }
    assert(l@.subrange(0, l@.len() as int) =~= l@);
    r
}

/// The canonical name of a browser.
pub fn canonical_browser_name(raw: &str) -> (r: String)
    ensures
        r@ == spec_canonical_browser(raw@),
{
    let n = normalized_browser(raw);
    if chars_eq_str(&n, "google-chrome") || chars_eq_str(&n, "chrome") {
        "chrome".to_owned()
    } else if chars_eq_str(&n, "mozilla-firefox") || chars_eq_str(&n, "firefox") {
        "firefox".to_owned()
    } else if chars_eq_str(&n, "brave-browser") || chars_eq_str(&n, "brave") {
        "brave".to_owned()
    } else if chars_eq_str(&n, "microsoft-edge") || chars_eq_str(&n, "msedge") || chars_eq_str(
        &n,
        "edge",
    ) {
        "edge".to_owned()
    } else if chars_eq_str(&n, "chromium-browser") || chars_eq_str(&n, "chromium") {
        "chromium".to_owned()
    } else {
        string_from_chars(&n)
    }
}

// ------------------------------------------------------------------
// Programs, applications and packages
// ------------------------------------------------------------------

/// The programs that may start a browser, in the order they are tried.
pub open spec fn spec_binary_candidates(raw: Seq<char>) -> Seq<Seq<char>> {
    let b = spec_canonical_browser(raw);
    if b == "firefox"@ {
        seq!["firefox"@]
    } else if b == "chrome"@ {
        seq!["google-chrome"@, "google-chrome-stable"@, "chrome"@]
    } else if b == "brave"@ {
        seq!["brave-browser"@, "brave"@]
    } else if b == "edge"@ {
        seq!["microsoft-edge"@, "microsoft-edge-stable"@, "msedge"@]
    } else if b == "chromium"@ {
        seq!["chromium"@, "chromium-browser"@]
    } else if b == "opera"@ {
        seq!["opera"@]
    } else if b == "vivaldi"@ {
        seq!["vivaldi"@]
    } else {
        seq![b]
    }
}

/// The programs that may start a browser.
pub fn browser_binary_candidates(raw: &str) -> (r: Vec<String>)
    ensures
        spec_string_views(r@) == spec_binary_candidates(raw@),
{
    let b = canonical_browser_name(raw);
    let bv = chars_of(b.as_str());
    let mut r: Vec<String> = Vec::new();
    if chars_eq_str(&bv, "firefox") {
        r.push("firefox".to_owned());
    } else if chars_eq_str(&bv, "chrome") {
        r.push("google-chrome".to_owned());
        r.push("google-chrome-stable".to_owned());
        r.push("chrome".to_owned());
    } else if chars_eq_str(&bv, "brave") {
        r.push("brave-browser".to_owned());
        r.push("brave".to_owned());
    } else if chars_eq_str(&bv, "edge") {
        r.push("microsoft-edge".to_owned());
        r.push("microsoft-edge-stable".to_owned());
        r.push("msedge".to_owned());
    } else if chars_eq_str(&bv, "chromium") {
        r.push("chromium".to_owned());
        r.push("chromium-browser".to_owned());
    } else if chars_eq_str(&bv, "opera") {
        r.push("opera".to_owned());
    } else if chars_eq_str(&bv, "vivaldi") {
        r.push("vivaldi".to_owned());
    } else {
        r.push(b);
    }
    assert(spec_string_views(r@) =~= spec_binary_candidates(raw@));
    r
}

/// The macOS applications that may be a browser: the known browsers by
/// their application names; any other name as given.
pub open spec fn spec_app_candidates(raw: Seq<char>) -> Seq<Seq<char>> {
    let b = spec_canonical_browser(raw);
    if b == "firefox"@ {
        seq!["Firefox"@]
    } else if b == "chrome"@ {
        seq!["Google Chrome"@]
    } else if b == "brave"@ {
        seq!["Brave Browser"@]
    } else if b == "edge"@ {
        seq!["Microsoft Edge"@]
    } else if b == "chromium"@ {
        seq!["Chromium"@]
    } else if b == "safari"@ {
        seq!["Safari"@]
    } else if b == "opera"@ {
        seq!["Opera"@]
    } else if b == "vivaldi"@ {
        seq!["Vivaldi"@]
    } else {
        seq![raw]
    }
}

/// The macOS applications that may be a browser.
pub fn browser_app_candidates(raw: &str) -> (r: Vec<String>)
    ensures
        spec_string_views(r@) == spec_app_candidates(raw@),
{
    let bv = chars_of(canonical_browser_name(raw).as_str());
    let mut r: Vec<String> = Vec::new();
    if chars_eq_str(&bv, "firefox") {
        r.push("Firefox".to_owned());
    } else if chars_eq_str(&bv, "chrome") {
        r.push("Google Chrome".to_owned());
    } else if chars_eq_str(&bv, "brave") {
        r.push("Brave Browser".to_owned());
    } else if chars_eq_str(&bv, "edge") {
        r.push("Microsoft Edge".to_owned());
    } else if chars_eq_str(&bv, "chromium") {
        r.push("Chromium".to_owned());
    } else if chars_eq_str(&bv, "safari") {
        r.push("Safari".to_owned());
    } else if chars_eq_str(&bv, "opera") {
        r.push("Opera".to_owned());
    } else if chars_eq_str(&bv, "vivaldi") {
        r.push("Vivaldi".to_owned());
    } else {
        r.push(raw.to_owned());
    }
    assert(spec_string_views(r@) =~= spec_app_candidates(raw@));
    r
}

/// Where a browser is installed on Windows, below each of the program and
/// application folders.
pub open spec fn spec_windows_relative_path(raw: Seq<char>) -> Option<Seq<char>> {
    let b = spec_canonical_browser(raw);
    if b == "firefox"@ {
        Some("Mozilla Firefox\\firefox.exe"@)
    } else if b == "chrome"@ {
        Some("Google\\Chrome\\Application\\chrome.exe"@)
    } else if b == "brave"@ {
        Some("BraveSoftware\\Brave-Browser\\Application\\brave.exe"@)
    } else if b == "edge"@ {
        Some("Microsoft\\Edge\\Application\\msedge.exe"@)
    } else if b == "opera"@ {
        Some("Programs\\Opera\\opera.exe"@)
    } else if b == "vivaldi"@ {
        Some("Vivaldi\\Application\\vivaldi.exe"@)
    } else if b == "chromium"@ {
        Some("Chromium\\Application\\chrome.exe"@)
    } else {
        None
    }
}

/// Where a browser is installed on Windows, below each of the program and
/// application folders (none for an unknown browser).
pub fn browser_windows_relative_path(raw: &str) -> (r: Option<String>)
    ensures
        crate::input_edit::spec_opt_string(r) == spec_windows_relative_path(raw@),
{
    let bv = chars_of(canonical_browser_name(raw).as_str());
    if chars_eq_str(&bv, "firefox") {
        Some("Mozilla Firefox\\firefox.exe".to_owned())
    } else if chars_eq_str(&bv, "chrome") {
        Some("Google\\Chrome\\Application\\chrome.exe".to_owned())
    } else if chars_eq_str(&bv, "brave") {
        Some("BraveSoftware\\Brave-Browser\\Application\\brave.exe".to_owned())
    } else if chars_eq_str(&bv, "edge") {
        Some("Microsoft\\Edge\\Application\\msedge.exe".to_owned())
    } else if chars_eq_str(&bv, "opera") {
        Some("Programs\\Opera\\opera.exe".to_owned())
    } else if chars_eq_str(&bv, "vivaldi") {
        Some("Vivaldi\\Application\\vivaldi.exe".to_owned())
    } else if chars_eq_str(&bv, "chromium") {
        Some("Chromium\\Application\\chrome.exe".to_owned())
    } else {
        None
    }
}

/// A Linux distribution family, which decides the package manager.
#[derive(Clone, Copy, Debug, PartialEq, Eq, Structural)]
pub enum LinuxFamily {
    Arch,
    Debian,
    Fedora,
}

/// The Linux package of a browser for a distribution family.
pub open spec fn spec_linux_package(raw: Seq<char>, family: LinuxFamily) -> Seq<char> {
    let b = spec_canonical_browser(raw);
    if b == "firefox"@ {
        if family == LinuxFamily::Debian {
            "firefox-esr"@
        } else {
            "firefox"@
        }
    } else if b == "chrome"@ {
        if family == LinuxFamily::Arch {
            "google-chrome"@
        } else {
            "google-chrome-stable"@
        }
    } else if b == "brave"@ {
        "brave-browser"@
    } else if b == "edge"@ {
        "microsoft-edge-stable"@
    } else if b == "chromium"@ {
        "chromium"@
    } else if b == "opera"@ {
        "opera"@
    } else if b == "vivaldi"@ {
        "vivaldi"@
    } else {
        b
    }
}

/// The Linux package of a browser.
pub fn linux_package_for_browser(raw: &str, family: LinuxFamily) -> (r: String)
    ensures
        r@ == spec_linux_package(raw@, family),
{
    let b = canonical_browser_name(raw);
    let bv = chars_of(b.as_str());
    if chars_eq_str(&bv, "firefox") {
        if family == LinuxFamily::Debian {
            "firefox-esr".to_owned()
        } else {
            "firefox".to_owned()
        }
    } else if chars_eq_str(&bv, "chrome") {
        if family == LinuxFamily::Arch {
            "google-chrome".to_owned()
        } else {
            "google-chrome-stable".to_owned()
        }
    } else if chars_eq_str(&bv, "brave") {
        "brave-browser".to_owned()
    } else if chars_eq_str(&bv, "edge") {
        "microsoft-edge-stable".to_owned()
    } else if chars_eq_str(&bv, "chromium") {
        "chromium".to_owned()
    } else if chars_eq_str(&bv, "opera") {
        "opera".to_owned()
    } else if chars_eq_str(&bv, "vivaldi") {
        "vivaldi".to_owned()
    } else {
        b
    }
}

/// The Homebrew cask of a browser.
pub open spec fn spec_brew_package(raw: Seq<char>) -> Seq<char> {
    let b = spec_canonical_browser(raw);
    if b == "chrome"@ {
        "google-chrome"@
    } else if b == "brave"@ {
        "brave-browser"@
    } else if b == "edge"@ {
        "microsoft-edge"@
    } else {
        b
    }
}

/// The Homebrew cask of a browser.
pub fn brew_package_for_browser(raw: &str) -> (r: String)
    ensures
        r@ == spec_brew_package(raw@),
{
    let b = canonical_browser_name(raw);
    let bv = chars_of(b.as_str());
    if chars_eq_str(&bv, "chrome") {
        "google-chrome".to_owned()
    } else if chars_eq_str(&bv, "brave") {
        "brave-browser".to_owned()
    } else if chars_eq_str(&bv, "edge") {
        "microsoft-edge".to_owned()
    } else {
        b
    }
}

/// The winget package of a browser.
pub open spec fn spec_winget_package(raw: Seq<char>) -> Seq<char> {
    let b = spec_canonical_browser(raw);
    if b == "firefox"@ {
        "Mozilla.Firefox"@
    } else if b == "chrome"@ {
        "Google.Chrome"@
    } else if b == "brave"@ {
        "Brave.Brave"@
    } else if b == "edge"@ {
        "Microsoft.Edge"@
    } else if b == "chromium"@ {
        "Chromium.Chromium"@
    } else if b == "opera"@ {
        "Opera.Opera"@
    } else if b == "vivaldi"@ {
        "VivaldiTechnologies.Vivaldi"@
    } else {
        b
    }
}

/// The winget package of a browser.
pub fn winget_package_for_browser(raw: &str) -> (r: String)
    ensures
        r@ == spec_winget_package(raw@),
{
    let b = canonical_browser_name(raw);
    let bv = chars_of(b.as_str());
    if chars_eq_str(&bv, "firefox") {
        "Mozilla.Firefox".to_owned()
    } else if chars_eq_str(&bv, "chrome") {
        "Google.Chrome".to_owned()
    } else if chars_eq_str(&bv, "brave") {
        "Brave.Brave".to_owned()
    } else if chars_eq_str(&bv, "edge") {
        "Microsoft.Edge".to_owned()
    } else if chars_eq_str(&bv, "chromium") {
        "Chromium.Chromium".to_owned()
    } else if chars_eq_str(&bv, "opera") {
        "Opera.Opera".to_owned()
    } else if chars_eq_str(&bv, "vivaldi") {
        "VivaldiTechnologies.Vivaldi".to_owned()
    } else {
        b
    }
}

// ------------------------------------------------------------------
// The Linux distribution
// ------------------------------------------------------------------

/// `s` without the copies of `c` it starts with.
pub open spec fn spec_strip_start(s: Seq<char>, c: char) -> Seq<char>
    decreases s.len(),
{
    if s.len() > 0 && s[0] == c {
        spec_strip_start(s.drop_first(), c)
    } else {
        s
    }
}

/// `s` without the copies of `c` it ends with.
pub open spec fn spec_strip_end(s: Seq<char>, c: char) -> Seq<char>
    decreases s.len(),
{
    if s.len() > 0 && s.last() == c {
        spec_strip_end(s.drop_last(), c)
    } else {
        s
    }
}

/// `str::trim_matches(c)`: `s` without the copies of `c` at either end.
pub open spec fn spec_trim_matches(s: Seq<char>, c: char) -> Seq<char> {
    spec_strip_end(spec_strip_start(s, c), c)
}

/// The text before and after the first `=` of `s`.
pub open spec fn spec_split_eq(s: Seq<char>) -> Option<(Seq<char>, Seq<char>)> {
    crate::text::spec_split_once(s, "="@)
}

/// What one line of an `os-release` file says of `key`: for a line that is
/// neither blank nor a comment and reads `key=value` (the key trimmed), the
/// value trimmed, unquoted and in ASCII lowercase.
pub open spec fn spec_os_release_entry(line: Seq<char>, key: Seq<char>) -> Option<Seq<char>> {
    let t = spec_trim(line);
    if t.len() == 0 || t[0] == '#' {
        None
    } else {
        match spec_split_eq(t) {
            Some((k, v)) => if spec_trim(k) == key {
                Some(
                    spec_lower(
                        spec_trim_matches(spec_trim_matches(spec_trim(v), '"'), '\''),
                    ),
                )
            } else {
                None
            },
            None => None,
        }
    }
}

/// The first of `lines` that says something of `key`.
pub open spec fn spec_first_entry(lines: Seq<Seq<char>>, key: Seq<char>) -> Option<Seq<char>>
    decreases lines.len(),
{
    if lines.len() == 0 {
        None
    } else {
        match spec_os_release_entry(lines[0], key) {
            Some(v) => Some(v),
            None => spec_first_entry(lines.drop_first(), key),
        }
    }
}

/// The value an `os-release` text gives `key`, from its first line that
/// gives one.
pub open spec fn spec_os_release_value(raw: Seq<char>, key: Seq<char>) -> Option<Seq<char>> {
    spec_first_entry(spec_split(raw, '\n'), key)
}

proof fn lemma_first_entry_push(lines: Seq<Seq<char>>, x: Seq<char>, key: Seq<char>)
    ensures
        spec_first_entry(lines.push(x), key) == (match spec_first_entry(lines, key) {
            Some(v) => Some(v),
            None => spec_os_release_entry(x, key),
        }),
    decreases lines.len(),
{
    if lines.len() > 0 {
        lemma_first_entry_push(lines.drop_first(), x, key);
        assert(lines.push(x).drop_first() =~= lines.drop_first().push(x));
        assert(lines.push(x)[0] == lines[0]);
    } else {
        assert(lines.push(x).drop_first() =~= Seq::<Seq<char>>::empty());
        assert(lines.push(x)[0] == x);
        assert(spec_first_entry(Seq::<Seq<char>>::empty(), key) is None);
    }
}

fn strip_char(v: &Vec<char>, c: char) -> (r: Vec<char>)
    ensures
        r@ == spec_trim_matches(v@, c),
{
    let n = v.len();
    let mut i: usize = 0;
    assert(v@.subrange(0, n as int) =~= v@);
    while i < n && v[i] == c
        invariant
            i <= n,
            n == v@.len(),
            spec_strip_start(v@, c) == spec_strip_start(v@.subrange(i as int, n as int), c),
        decreases n - i,
    {
        assert(v@.subrange(i as int, n as int).drop_first() =~= v@.subrange(i + 1, n as int));
        i += 1;
    }
    let mut j: usize = n;
    assert(spec_strip_start(v@, c) == v@.subrange(i as int, n as int));
    while j > i && v[j - 1] == c
        invariant
            i <= j <= n,
            n == v@.len(),
            spec_trim_matches(v@, c) == spec_strip_end(v@.subrange(i as int, j as int), c),
        decreases j - i,
    {
        assert(v@.subrange(i as int, j as int).drop_last() =~= v@.subrange(i as int, j - 1));
        j -= 1;
    }
    crate::text::slice_chars(v, i, j)
}

fn os_release_entry(line: &Vec<char>, key: &str) -> (r: Option<Vec<char>>)
    ensures
        crate::input_edit::spec_opt_chars(r) == spec_os_release_entry(line@, key@),
{
    let t = trim_chars(line);
    if t.len() == 0 || t[0] == '#' {
        return None;
    }
    let eq = chars_of("=");
    match crate::text::split_once(&t, &eq) {
        Some((k, v)) => {
            let tk = trim_chars(&k);
            if chars_eq_str(&tk, key) {
                let unquoted = strip_char(&strip_char(&trim_chars(&v), '"'), '\'');
                Some(lower_chars(&unquoted))
            } else {
                None
            }
        },
        None => None,
    }
}

/// The value an `os-release` text gives `key` (such as `ID`): from the first
/// line that is neither blank nor a comment and reads `key=value`, the value
/// trimmed, without surrounding quotes, in ASCII lowercase.
pub fn parse_os_release_value(raw: &str, key: &str) -> (r: Option<String>)
    ensures
        crate::input_edit::spec_opt_string(r) == spec_os_release_value(raw@, key@),
{
    let s = chars_of(raw);
    let mut cur: Vec<char> = Vec::new();
    let mut found: Option<Vec<char>> = None;
    let ghost mut done: Seq<Seq<char>> = Seq::empty();
    let mut i: usize = 0;
    while i < s.len()
        invariant
            i <= s@.len(),
            (done, cur@) == spec_split_acc(s@.subrange(0, i as int), '\n'),
            crate::input_edit::spec_opt_chars(found) == spec_first_entry(done, key@),
        decreases s@.len() - i,
    {
        let c = s[i];
        proof {
            let nxt = s@.subrange(0, i + 1);
            assert(nxt.drop_last() =~= s@.subrange(0, i as int));
            assert(nxt.last() == c);
        }
        if c == '\n' {
            if found.is_none() {
                found = os_release_entry(&cur, key);
            }
            proof {
                lemma_first_entry_push(done, cur@, key@);
                done = done.push(cur@);
            }
            cur = Vec::new();
        } else {
            cur.push(c);
        }
        i += 1;
    }
    assert(s@.subrange(0, s@.len() as int) =~= s@);
    if found.is_none() {
        found = os_release_entry(&cur, key);
    }
    proof {
        lemma_first_entry_push(done, cur@, key@);
    }
    match found {
        Some(v) => Some(string_from_chars(&v)),
        None => None,
    }
}

/// The family an `os-release` text names: its `ID` and `ID_LIKE` values
/// joined by a space are searched for `arch` or `manjaro`, then `debian`,
/// `ubuntu`, `mint` or `pop`, then `fedora`, `rhel`, `centos` or `rocky`.
pub open spec fn spec_linux_family(raw: Seq<char>) -> Option<LinuxFamily> {
    let id = match spec_os_release_value(raw, "ID"@) {
        Some(v) => v,
        None => Seq::empty(),
    };
    let like = match spec_os_release_value(raw, "ID_LIKE"@) {
        Some(v) => v,
        None => Seq::empty(),
    };
    let c = spec_lower(id + " "@ + like);
    if spec_contains(c, "arch"@) || spec_contains(c, "manjaro"@) {
        Some(LinuxFamily::Arch)
    } else if spec_contains(c, "debian"@) || spec_contains(c, "ubuntu"@) || spec_contains(c, "mint"@)
        || spec_contains(c, "pop"@) {
        Some(LinuxFamily::Debian)
    } else if spec_contains(c, "fedora"@) || spec_contains(c, "rhel"@) || spec_contains(c, "centos"@)
        || spec_contains(c, "rocky"@) {
        Some(LinuxFamily::Fedora)
    } else {
        None
    }
}

/// The distribution family an `os-release` text names, if any.
pub fn linux_family_from_os_release(raw: &str) -> (r: Option<LinuxFamily>)
    ensures
        r == spec_linux_family(raw@),
{
    let mut joined: Vec<char> = Vec::new();
    match parse_os_release_value(raw, "ID") {
        Some(v) => extend_with_str(&mut joined, v.as_str()),
        None => {},
    }
    extend_with_str(&mut joined, " ");
    match parse_os_release_value(raw, "ID_LIKE") {
        Some(v) => extend_with_str(&mut joined, v.as_str()),
        None => {},
    }
    let ghost id = match spec_os_release_value(raw@, "ID"@) {
        Some(v) => v,
        None => Seq::<char>::empty(),
    };
    let ghost like = match spec_os_release_value(raw@, "ID_LIKE"@) {
        Some(v) => v,
        None => Seq::<char>::empty(),
    };
    assert(joined@ =~= id + " "@ + like);
    let c = lower_chars(&joined);
    if contains_str(&c, "arch") || contains_str(&c, "manjaro") {
        Some(LinuxFamily::Arch)
    } else if contains_str(&c, "debian") || contains_str(&c, "ubuntu") || contains_str(&c, "mint")
        || contains_str(&c, "pop") {
        Some(LinuxFamily::Debian)
    } else if contains_str(&c, "fedora") || contains_str(&c, "rhel") || contains_str(&c, "centos")
        || contains_str(&c, "rocky") {
        Some(LinuxFamily::Fedora)
    } else {
        None
    }
}

// ------------------------------------------------------------------
// Install commands
// ------------------------------------------------------------------

/// The operating system the program runs on.
#[derive(Clone, Copy, Debug, PartialEq, Eq, Structural)]
pub enum TargetOs {
    Linux,
    MacOs,
    Windows,
    Other,
}

/// The command that installs a browser: with the distribution's package
/// manager on Linux (none when the family is unknown), Homebrew on macOS,
/// winget on Windows; none elsewhere.
pub open spec fn spec_install_command(raw: Seq<char>, os: TargetOs, family: Option<LinuxFamily>) -> Option<
    Seq<char>,
> {
    match os {
        TargetOs::Linux => match family {
            Some(LinuxFamily::Arch) => Some("sudo pacman -S "@ + spec_linux_package(raw, LinuxFamily::Arch)),
            Some(LinuxFamily::Debian) => Some("sudo apt install "@ + spec_linux_package(raw, LinuxFamily::Debian)),
            Some(LinuxFamily::Fedora) => Some("sudo dnf install "@ + spec_linux_package(raw, LinuxFamily::Fedora)),
            None => None,
        },
        TargetOs::MacOs => Some("brew install --cask "@ + spec_brew_package(raw)),
        TargetOs::Windows => Some("winget install --id "@ + spec_winget_package(raw) + " -e"@),
        TargetOs::Other => None,
    }
}

/// The command that installs a browser, if one is known.
pub fn build_install_command_for_browser(raw: &str, os: TargetOs, family: Option<LinuxFamily>) -> (r:
    Option<String>)
    ensures
        crate::input_edit::spec_opt_string(r) == spec_install_command(raw@, os, family),
{
    let mut out: Vec<char> = Vec::new();
    match os {
        TargetOs::Linux => {
            let fam = match family {
                Some(f) => f,
                None => return None,
            };
            match fam {
                LinuxFamily::Arch => extend_with_str(&mut out, "sudo pacman -S "),
                LinuxFamily::Debian => extend_with_str(&mut out, "sudo apt install "),
                LinuxFamily::Fedora => extend_with_str(&mut out, "sudo dnf install "),
            }
            let pkg = linux_package_for_browser(raw, fam);
            extend_with_str(&mut out, pkg.as_str());
        },
        TargetOs::MacOs => {
            extend_with_str(&mut out, "brew install --cask ");
            let pkg = brew_package_for_browser(raw);
            extend_with_str(&mut out, pkg.as_str());
        },
        TargetOs::Windows => {
            extend_with_str(&mut out, "winget install --id ");
            let pkg = winget_package_for_browser(raw);
            extend_with_str(&mut out, pkg.as_str());
            extend_with_str(&mut out, " -e");
        },
        TargetOs::Other => {
            return None;
        },
    }
    Some(string_from_chars(&out))
}

/// AppleScript text escaping: each `\` doubled and each `"` preceded by `\`.
pub open spec fn spec_escape_applescript(s: Seq<char>) -> Seq<char>
    decreases s.len(),
{
    if s.len() == 0 {
        Seq::empty()
    } else {
        let r = spec_escape_applescript(s.drop_last());
        let c = s.last();
        if c == '\\' {
            r + seq!['\\', '\\']
        } else if c == '"' {
            r + seq!['\\', '"']
        } else {
            r.push(c)
        }
    }
}

/// Escapes text for an AppleScript string literal.
pub fn escape_applescript_text(input: &str) -> (r: String)
    ensures
        r@ == spec_escape_applescript(input@),
{
    let s = chars_of(input);
    let mut out: Vec<char> = Vec::new();
    let mut i: usize = 0;
    while i < s.len()
        invariant
            i <= s@.len(),
            out@ == spec_escape_applescript(s@.subrange(0, i as int)),
        decreases s@.len() - i,
    {
        let c = s[i];
        proof {
            let nxt = s@.subrange(0, i + 1);
            assert(nxt.drop_last() =~= s@.subrange(0, i as int));
            assert(nxt.last() == c);
        }
        let ghost before = out@;
        if c == '\\' {
            out.push('\\');
            out.push('\\');
            assert(out@ =~= before + seq!['\\', '\\']);
        } else if c == '"' {
            out.push('\\');
            out.push('"');
            assert(out@ =~= before + seq!['\\', '"']);
        } else {
            out.push(c);
        }
        i += 1;
    }
    assert(s@.subrange(0, s@.len() as int) =~= s@);
    string_from_chars(&out)
}

/// The macOS Terminal script that runs `command`.
pub fn macos_terminal_script(command: &str) -> (r: String)
    ensures
        r@ == "tell application \"Terminal\" to do script \""@ + spec_escape_applescript(command@)
            + "\""@,
{
    let mut out: Vec<char> = Vec::new();
    extend_with_str(&mut out, "tell application \"Terminal\" to do script \"");
    let escaped = escape_applescript_text(command);
    extend_with_str(&mut out, escaped.as_str());
    extend_with_str(&mut out, "\"");
    string_from_chars(&out)
}

/// The shell line a Linux terminal runs: `command`, then a pause until Enter.
pub fn linux_interactive_command(command: &str) -> (r: String)
    ensures
        r@ == command@ + "; echo; read -r -p \"Press Enter to close...\" _"@,
{
    let mut out: Vec<char> = Vec::new();
    extend_with_str(&mut out, command);
    extend_with_str(&mut out, "; echo; read -r -p \"Press Enter to close...\" _");
    string_from_chars(&out)
}

/// The Linux terminals tried in order to run a command, each with the flag
/// that precedes the command to run.
pub open spec fn spec_linux_terminals() -> Seq<(Seq<char>, Seq<char>)> {
    seq![
        ("x-terminal-emulator"@, "-e"@),
        ("gnome-terminal"@, "--"@),
        ("konsole"@, "-e"@),
        ("alacritty"@, "-e"@),
        ("kitty"@, "-e"@),
        ("xterm"@, "-e"@),
    ]
}

/// The view of a list of string pairs.
pub open spec fn spec_pair_views(v: Seq<(String, String)>) -> Seq<(Seq<char>, Seq<char>)> {
    v.map_values(|p: (String, String)| (p.0@, p.1@))
}

/// The Linux terminals tried in order to run a command.
pub fn linux_terminals() -> (r: Vec<(String, String)>)
    ensures
        spec_pair_views(r@) == spec_linux_terminals(),
{
    let mut r: Vec<(String, String)> = Vec::new();
    r.push(("x-terminal-emulator".to_owned(), "-e".to_owned()));
    r.push(("gnome-terminal".to_owned(), "--".to_owned()));
    r.push(("konsole".to_owned(), "-e".to_owned()));
    r.push(("alacritty".to_owned(), "-e".to_owned()));
    r.push(("kitty".to_owned(), "-e".to_owned()));
    r.push(("xterm".to_owned(), "-e".to_owned()));
    assert(spec_pair_views(r@) =~= spec_linux_terminals());
    r
}

// ------------------------------------------------------------------
// Finding a program on Windows
// ------------------------------------------------------------------

/// The trimmed, non-blank entries of a `PATHEXT` value, in order.
pub open spec fn spec_pathext_entries(pieces: Seq<Seq<char>>) -> Seq<Seq<char>>
    decreases pieces.len(),
{
    if pieces.len() == 0 {
        Seq::empty()
    } else {
        let r = spec_pathext_entries(pieces.drop_last());
        if spec_trim(pieces.last()).len() > 0 {
            r.push(spec_trim(pieces.last()))
        } else {
            r
        }
    }
}

/// The extensions tried after a command's name on Windows: none for a
/// name with a dot; otherwise the entries of `PATHEXT`, or `.EXE`, `.CMD`
/// and `.BAT` when it is unset or has none.
pub open spec fn spec_command_extensions(command: Seq<char>, pathext: Option<Seq<char>>) -> Seq<Seq<char>> {
    if command.contains('.') {
        seq![Seq::<char>::empty()]
    } else {
        let defaults = seq![".EXE"@, ".CMD"@, ".BAT"@];
        match pathext {
            Some(raw) => {
                let e = spec_pathext_entries(spec_split(raw, ';'));
                if e.len() > 0 {
                    e
                } else {
                    defaults
                }
            },
            None => defaults,
        }
    }
}

/// The extensions tried after a command's name on Windows.
pub fn windows_command_extensions(command: &str, pathext: Option<&str>) -> (r: Vec<String>)
    ensures
        spec_string_views(r@) == spec_command_extensions(
            command@,
            match pathext {
                Some(p) => Some(p@),
                None => None,
            },
        ),
{
    let cmd = chars_of(command);
    let mut k: usize = 0;
    while k < cmd.len()
        invariant
            k <= cmd@.len(),
            cmd@ == command@,
            forall|j: int| 0 <= j < k ==> cmd@[j] != '.',
        decreases cmd@.len() - k,
    {
        if cmd[k] == '.' {
            assert(cmd@.contains('.')) by {
                assert(cmd@[k as int] == '.');
            }
            let mut r: Vec<String> = Vec::new();
            r.push(String::new());
            assert(spec_string_views(r@) =~= seq![Seq::<char>::empty()]);
            return r;
        }
        k += 1;
    }
    assert(!cmd@.contains('.'));
    let mut r: Vec<String> = Vec::new();
    if let Some(raw) = pathext {
        let s = chars_of(raw);
        let mut cur: Vec<char> = Vec::new();
        let ghost mut done: Seq<Seq<char>> = Seq::empty();
        let mut i: usize = 0;
        while i < s.len()
            invariant
                i <= s@.len(),
                (done, cur@) == spec_split_acc(s@.subrange(0, i as int), ';'),
                spec_string_views(r@) == spec_pathext_entries(done),
            decreases s@.len() - i,
        {
            let c = s[i];
            proof {
                let nxt = s@.subrange(0, i + 1);
                assert(nxt.drop_last() =~= s@.subrange(0, i as int));
                assert(nxt.last() == c);
            }
            if c == ';' {
                let t = trim_chars(&cur);
                let ghost before = spec_string_views(r@);
                proof {
                    assert(done.push(cur@).drop_last() =~= done);
                }
                if t.len() > 0 {
                    r.push(string_from_chars(&t));
                    assert(spec_string_views(r@) =~= before.push(t@));
                }
                proof {
                    done = done.push(cur@);
                }
                cur = Vec::new();
            } else {
                cur.push(c);
            }
            i += 1;
        }
        assert(s@.subrange(0, s@.len() as int) =~= s@);
        let t = trim_chars(&cur);
        let ghost before = spec_string_views(r@);
        proof {
            assert(done.push(cur@).drop_last() =~= done);
        }
        if t.len() > 0 {
            r.push(string_from_chars(&t));
            assert(spec_string_views(r@) =~= before.push(t@));
        }
    }
    if r.len() == 0 {
        r.push(".EXE".to_owned());
        r.push(".CMD".to_owned());
        r.push(".BAT".to_owned());
        assert(spec_string_views(r@) =~= seq![".EXE"@, ".CMD"@, ".BAT"@]);
    }
    r
}

// ------------------------------------------------------------------
// Opening a link
// ------------------------------------------------------------------

/// What trying one browser gave.
#[derive(Clone, Copy, Debug, PartialEq, Eq, Structural)]
pub enum BrowserAttempt {
    Opened,
    NotInstalled,
    LaunchFailed,
}

/// What opening a link gave.
#[derive(Clone, Copy, Debug, PartialEq, Eq, Structural)]
pub enum OpenOutcome {
    Opened,
    /// None of the requested browsers is installed.
    MissingBrowser,
    Failed,
}

/// The link a hyperlink opens: its target trimmed, unless that is empty.
pub fn link_target(href: &str) -> (r: Option<String>)
    ensures
        crate::input_edit::spec_opt_string(r) == (if spec_trim(href@).len() > 0 {
            Some(spec_trim(href@))
        } else {
            None
        }),
{
    let t = trimmed_chars(href);
    if t.len() > 0 {
        Some(string_from_chars(&t))
    } else {
        None
    }
}

/// A browser attempt: not installed when no candidate was found; opened or
/// failed by whether the found one could be started.
pub fn attempt_result(found: bool, started: bool) -> (r: BrowserAttempt)
    ensures
        r == (if !found {
            BrowserAttempt::NotInstalled
        } else if started {
            BrowserAttempt::Opened
        } else {
            BrowserAttempt::LaunchFailed
        }),
{
    if !found {
        BrowserAttempt::NotInstalled
    } else if started {
        BrowserAttempt::Opened
    } else {
        BrowserAttempt::LaunchFailed
    }
}

/// The next step of opening a link in the requested browsers.
#[derive(Clone, Copy, Debug, PartialEq, Eq, Structural)]
pub enum BrowserStep {
    /// Try the requested browser with this index.
    Try(usize),
    Done(OpenOutcome),
}

/// Some attempt gave `a`.
pub open spec fn spec_some_attempt(attempts: Seq<BrowserAttempt>, a: BrowserAttempt) -> bool {
    exists|k: int| 0 <= k < attempts.len() && attempts[k] == a
}

/// The requested browsers are tried in order until one opens the link:
/// then it is opened; when all were tried it failed if one of them is
/// installed and only failed to start, else none is installed.
pub open spec fn spec_browser_step(attempts: Seq<BrowserAttempt>, requested: int) -> BrowserStep {
    if spec_some_attempt(attempts, BrowserAttempt::Opened) {
        BrowserStep::Done(OpenOutcome::Opened)
    } else if attempts.len() < requested {
        BrowserStep::Try(attempts.len() as usize)
    } else if spec_some_attempt(attempts, BrowserAttempt::LaunchFailed) {
        BrowserStep::Done(OpenOutcome::Failed)
    } else {
        BrowserStep::Done(OpenOutcome::MissingBrowser)
    }
}

/// The next step after the attempts made so far on `requested` browsers.
pub fn next_browser_step(attempts: &Vec<BrowserAttempt>, requested: usize) -> (r: BrowserStep)
    ensures
        r == spec_browser_step(attempts@, requested as int),
{
    let mut failed = false;
    let mut k: usize = 0;
    while k < attempts.len()
        invariant
            k <= attempts@.len(),
            forall|j: int| 0 <= j < k ==> attempts@[j] != BrowserAttempt::Opened,
            failed == spec_some_attempt(attempts@.subrange(0, k as int), BrowserAttempt::LaunchFailed),
        decreases attempts@.len() - k,
    {
        let a = attempts[k];
        proof {
            let sub = attempts@.subrange(0, k as int);
            let nxt = attempts@.subrange(0, k + 1);
            assert(nxt[k as int] == a);
            if spec_some_attempt(sub, BrowserAttempt::LaunchFailed) {
                let j = choose|j: int| 0 <= j < sub.len() && sub[j] == BrowserAttempt::LaunchFailed;
                assert(nxt[j] == sub[j]);
            }
            if spec_some_attempt(nxt, BrowserAttempt::LaunchFailed) && a != BrowserAttempt::LaunchFailed {
                let j = choose|j: int| 0 <= j < nxt.len() && nxt[j] == BrowserAttempt::LaunchFailed;
                assert(sub[j] == nxt[j]);
            }
        }
        match a {
            BrowserAttempt::Opened => {
                assert(attempts@[k as int] == BrowserAttempt::Opened);
                return BrowserStep::Done(OpenOutcome::Opened);
            },
            BrowserAttempt::LaunchFailed => {
                failed = true;
            },
            BrowserAttempt::NotInstalled => {},
        }
        k += 1;
    }
    assert(attempts@.subrange(0, attempts@.len() as int) =~= attempts@);
    if attempts.len() < requested {
        BrowserStep::Try(attempts.len())
    } else if failed {
        BrowserStep::Done(OpenOutcome::Failed)
    } else {
        BrowserStep::Done(OpenOutcome::MissingBrowser)
    }
}

/// Opening with the system's default browser either opens the link or
/// fails.
pub fn system_open_outcome(opened: bool) -> (r: OpenOutcome)
    ensures
        r == (if opened {
            OpenOutcome::Opened
        } else {
            OpenOutcome::Failed
        }),
{
    if opened {
        OpenOutcome::Opened
    } else {
        OpenOutcome::Failed
    }
}

// ------------------------------------------------------------------
// The install offer
// ------------------------------------------------------------------

/// The dialog shown when no requested browser is installed: its title, its
/// text, and the install command it offers to run (only as a question).
#[derive(Clone, Debug)]
pub struct InstallPrompt {
    pub title: String,
    pub content: String,
    pub install_command: Option<String>,
}

/// The browser named in the dialog: the first one requested, or `browser`.
pub open spec fn spec_requested_name(requested: Seq<Seq<char>>) -> Seq<char> {
    if requested.len() > 0 {
        requested[0]
    } else {
        "browser"@
    }
}

/// The browser named in the dialog: the first one requested, or `browser`.
pub fn requested_browser_name(requested: &Vec<String>) -> (r: String)
    ensures
        r@ == spec_requested_name(spec_string_views(requested@)),
{
    if requested.len() > 0 {
        string_from_chars(&chars_of(requested[0].as_str()))
    } else {
        "browser".to_owned()
    }
}

/// The dialog for a link whose requested browsers are missing: with the
/// modal option and a known install command, a question offering to run
/// it; with the modal option but no command, a notice saying so; without
/// the modal option, a plain notice.
pub fn missing_browser_prompt(requested: &Vec<String>, open_modal: bool, install_command: Option<String>) -> (r:
    InstallPrompt)
    ensures
        ({
            let name = spec_requested_name(spec_string_views(requested@));
            let base = "The configured browser '"@ + name + "' is not installed."@;
            if open_modal && install_command is Some {
                let c = install_command->0@;
                &&& r.title@ == "Install Browser"@
                &&& r.content@ == "The configured browser '"@ + name
                    + "' is not installed.\n\nRun this command in a terminal?\n"@ + c
                &&& crate::input_edit::spec_opt_string(r.install_command) == Some(c)
            } else if open_modal {
                &&& r.title@ == "Browser Not Installed"@
                &&& r.content@ == base
                    + " No supported install command is available for this operating system."@
                &&& r.install_command is None
            } else {
                &&& r.title@ == "Browser Not Installed"@
                &&& r.content@ == base
                &&& r.install_command is None
            }
        }),
{
    let mut name: Vec<char> = Vec::new();
    if requested.len() > 0 {
        extend_with_str(&mut name, requested[0].as_str());
    } else {
        extend_with_str(&mut name, "browser");
    }
    let mut content: Vec<char> = Vec::new();
    extend_with_str(&mut content, "The configured browser '");
    extend_with_chars(&mut content, &name);
    if open_modal {
        match install_command {
            Some(c) => {
                extend_with_str(&mut content, "' is not installed.\n\nRun this command in a terminal?\n");
                extend_with_str(&mut content, c.as_str());
                InstallPrompt {
                    title: "Install Browser".to_owned(),
                    content: string_from_chars(&content),
                    install_command: Some(c),
                }
            },
            None => {
                extend_with_str(&mut content, "' is not installed.");
                extend_with_str(
                    &mut content,
                    " No supported install command is available for this operating system.",
                );
                InstallPrompt {
                    title: "Browser Not Installed".to_owned(),
                    content: string_from_chars(&content),
                    install_command: None,
                }
            },
        }
    } else {
        extend_with_str(&mut content, "' is not installed.");
        InstallPrompt {
            title: "Browser Not Installed".to_owned(),
            content: string_from_chars(&content),
            install_command: None,
        }
    }
}

/// The install commands offered and waiting for the user's answer, by
/// dialog request.
#[derive(Debug)]
pub struct InstallRequests {
    pub next_request_id: u64,
    pub pending: HashMap<u64, String>,
}

impl InstallRequests {
    /// No request made yet.
    pub fn new() -> (r: InstallRequests)
        ensures
            r.next_request_id == 0,
            r.pending@ == Map::<u64, String>::empty(),
    {
        InstallRequests { next_request_id: 0, pending: HashMap::new() }
    }

    /// Records an offered command under a new request number (the last one
    /// plus one, stopping at `u64::MAX`), which it returns.
    pub fn register(&mut self, command: String) -> (id: u64)
        ensures
            id == (if old(self).next_request_id == u64::MAX {
                u64::MAX
            } else {
                (old(self).next_request_id + 1) as u64
            }),
            final(self).next_request_id == id,
            final(self).pending@ == old(self).pending@.insert(id, command),
    {
        self.next_request_id = self.next_request_id.saturating_add(1);
        let id = self.next_request_id;
        self.pending.insert(id, command);
        id
    }

    /// The answer to request `request_id` arrived: the request is dropped;
    /// its command is to be run when it is known, the dialog was the
    /// application's own, and the user confirmed.
    pub fn dialog_closed(&mut self, request_id: u64, from_app_dialog: bool, confirmed: bool) -> (r:
        Option<String>)
        ensures
            final(self).next_request_id == old(self).next_request_id,
            final(self).pending@ == old(self).pending@.remove(request_id),
            r == (if old(self).pending@.contains_key(request_id) && from_app_dialog && confirmed {
                Some(old(self).pending@[request_id])
            } else {
                None
            }),
    {
        let command = self.pending.remove(&request_id);
        match command {
            Some(c) => if from_app_dialog && confirmed {
                Some(c)
            } else {
                None
            },
            None => None,
        }
    }
}

// ------------------------------------------------------------------
// Laws
// ------------------------------------------------------------------

/// A name in normal form: no whitespace at its ends, and no ASCII capital,
/// `_` or space anywhere.
pub open spec fn spec_normal_name(s: Seq<char>) -> bool {
    &&& (s.len() > 0 ==> !crate::text::spec_is_whitespace(s[0]) && !crate::text::spec_is_whitespace(
        s.last(),
    ))
    &&& forall|i: int| 0 <= i < s.len() ==> !('A' <= #[trigger] s[i] && s[i] <= 'Z') && s[i] != '_'
        && s[i] != ' '
}

proof fn lemma_normal_name_fixed(s: Seq<char>)
    requires
        spec_normal_name(s),
    ensures
        spec_normalized_browser(s) == s,
{
    assert(crate::text::spec_trim_start(s) == s);
    assert(crate::text::spec_trim_end(s) == s);
    assert(spec_lower(s) =~= s);
    assert(s.map_values(|c: char| spec_dash(c)) =~= s);
}

proof fn lemma_trim_end_prefix(s: Seq<char>)
    ensures
        crate::text::spec_trim_end(s).len() <= s.len(),
        crate::text::spec_trim_end(s) == s.subrange(0, crate::text::spec_trim_end(s).len() as int),
        crate::text::spec_trim_end(s).len() > 0 ==> !crate::text::spec_is_whitespace(
            crate::text::spec_trim_end(s).last(),
        ),
    decreases s.len(),
{
    if s.len() > 0 && crate::text::spec_is_whitespace(s.last()) {
        lemma_trim_end_prefix(s.drop_last());
        let e = crate::text::spec_trim_end(s.drop_last());
        assert(s.drop_last().subrange(0, e.len() as int) =~= s.subrange(0, e.len() as int));
    } else {
        assert(s.subrange(0, s.len() as int) =~= s);
    }
}

proof fn lemma_trim_start_head(s: Seq<char>)
    ensures
        crate::text::spec_trim_start(s).len() > 0 ==> !crate::text::spec_is_whitespace(
            crate::text::spec_trim_start(s)[0],
        ),
    decreases s.len(),
{
    if s.len() > 0 && crate::text::spec_is_whitespace(s[0]) {
        lemma_trim_start_head(s.drop_first());
    }
}

proof fn lemma_normalized_is_normal(raw: Seq<char>)
    ensures
        spec_normal_name(spec_normalized_browser(raw)),
{
    let r = crate::text::spec_trim_start(raw);
    lemma_trim_start_head(raw);
    lemma_trim_end_prefix(r);
    let t = spec_trim(raw);
    assert(t.len() > 0 ==> t[0] == r[0]);
    let l = spec_lower(t);
    let n = l.map_values(|c: char| spec_dash(c));
    assert forall|i: int| 0 <= i < n.len() implies !('A' <= #[trigger] n[i] && n[i] <= 'Z') && n[i]
        != '_' && n[i] != ' ' by {
        assert(n[i] == spec_dash(l[i]));
        assert(l[i] == crate::text::spec_lower_char(t[i]));
    }
    if n.len() > 0 {
        assert(n[0] == spec_dash(crate::text::spec_lower_char(t[0])));
        assert(n.last() == spec_dash(crate::text::spec_lower_char(t.last())));
        assert(n.last() == n[n.len() - 1]);
        assert(t.last() == t[t.len() - 1]);
    }
}

/// A canonical browser name is its own canonical name.
pub proof fn law_canonical_name_is_stable(raw: Seq<char>)
    ensures
        spec_canonical_browser(spec_canonical_browser(raw)) == spec_canonical_browser(raw),
{
    let n = spec_normalized_browser(raw);
    lemma_normalized_is_normal(raw);
    reveal_strlit("google-chrome");
    reveal_strlit("chrome");
    reveal_strlit("mozilla-firefox");
    reveal_strlit("firefox");
    reveal_strlit("brave-browser");
    reveal_strlit("brave");
    reveal_strlit("microsoft-edge");
    reveal_strlit("msedge");
    reveal_strlit("edge");
    reveal_strlit("chromium-browser");
    reveal_strlit("chromium");
    let c = spec_canonical_browser(raw);
    if c == n {
        lemma_normal_name_fixed(n);
    } else {
        assert(spec_normal_name(c));
        lemma_normal_name_fixed(c);
    }
}

/// A command offered under a request comes back when the application's
/// dialog for that request is confirmed, and the request is then dropped:
/// over the pending commands `m`, recording `command` under `id` and then
/// closing `id` leaves `m` without `id` and gives `command`.
pub proof fn law_offered_command_comes_back(m: Map<u64, String>, id: u64, command: String)
    ensures
        ({
            let recorded = m.insert(id, command);
            &&& recorded.contains_key(id)
            &&& recorded[id] == command
            &&& recorded.remove(id) == m.remove(id)
        }),
{
    assert(m.insert(id, command).remove(id) =~= m.remove(id));
}

} // verus!
