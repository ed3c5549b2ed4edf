use ethlift::showdiff::render_diff;

#[test]
fn identical_inputs_yield_empty_change_diff() {
    let out = render_diff("a\nb\n", "a\nb\n", false);
    assert_eq!(out, "--- original\n+++ modified\n");
}

#[test]
fn single_line_change_yields_one_removal_and_one_addition() {
    let out = render_diff("a\n", "b\n", false);
    let removals: Vec<&str> = out
        .lines()
        .filter(|l| l.starts_with('-') && !l.starts_with("---"))
        .collect();
    let additions: Vec<&str> = out
        .lines()
        .filter(|l| l.starts_with('+') && !l.starts_with("+++"))
        .collect();
    assert_eq!(removals, vec!["-a"]);
    assert_eq!(additions, vec!["+b"]);
}

#[test]
fn diff_is_deterministic() {
    let local = "line one\nline two\nline three\n";
    let remote = "line one\nline 2\nline three\nline four\n";
    let first = render_diff(local, remote, false);
    let second = render_diff(local, remote, false);
    assert_eq!(first, second);
    let first_colored = render_diff(local, remote, true);
    let second_colored = render_diff(local, remote, true);
    assert_eq!(first_colored, second_colored);
}

#[test]
fn colored_output_wraps_changes_in_color_codes() {
    let plain = render_diff("a\n", "b\n", false);
    let colored = render_diff("a\n", "b\n", true);
    assert!(colored.contains("\u{1b}["));
    assert!(!plain.contains("\u{1b}["));
    assert_ne!(plain, colored);
}

#[test]
fn diff_output_is_not_an_input_echo() {
    let out = render_diff("a\n", "b\n", false);
    assert_ne!(out, "a\n");
    assert_ne!(out, "b\n");
    assert!(out.starts_with("--- original\n+++ modified\n"));
}
