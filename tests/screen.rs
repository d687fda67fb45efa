use mq_backuper::tui::{new_tui, percentage, Output, Style, SEPARATOR_LINE};

fn texts(out: &[Output]) -> Vec<(String, String)> {
    out.iter()
        .map(|o| match o {
            Output::Clear => ("clear".to_string(), String::new()),
            Output::WaitForEnter => ("wait".to_string(), String::new()),
            Output::Text(s, t) => (
                match s {
                    Style::Title => "title",
                    Style::Plain => "plain",
                    Style::Error => "error",
                    Style::Success => "success",
                    Style::Warning => "warning",
                    Style::Progress => "progress",
                }
                .to_string(),
                t.clone(),
            ),
        })
        .collect()
}

fn pair(a: &str, b: &str) -> (String, String) {
    (a.to_string(), b.to_string())
}

#[test]
fn warnings_are_shown_then_confirmed() {
    let mut tui = new_tui();
    tui.show_and_confirm_warning(&vec!["first".to_string(), "".to_string()]);
    assert_eq!(
        texts(&tui.take_output()),
        vec![
            pair("warning", "first\n"),
            pair("warning", "\n"),
            pair("plain", "\n"),
            pair("plain", "Press enter to continue...\n"),
            pair("wait", ""),
        ]
    );
    assert!(tui.take_output().is_empty());
}

#[test]
fn errors_get_a_banner_and_prefix() {
    let mut tui = new_tui();
    let next = tui.show_and_confirm_error(&vec!["bad".to_string()], 7u8, true);
    assert_eq!(next, 7);
    let out = texts(&tui.take_output());
    assert_eq!(out[0], pair("clear", ""));
    let banner = format!("{0}{0}   ERROR\n{0}{0}\n", SEPARATOR_LINE);
    assert_eq!(out[1], pair("error", &banner));
    assert_eq!(out[2], pair("error", "ERROR: bad\n"));
    assert_eq!(out.len(), 6);
    let mut tui = new_tui();
    tui.show_and_confirm_error(&Vec::new(), (), false);
    assert_eq!(texts(&tui.take_output())[0], pair("error", &banner));
}

#[test]
fn successes_are_listed_then_confirmed() {
    let mut tui = new_tui();
    let next = tui.show_and_confirm_success(&vec!["ok".to_string()], "home");
    assert_eq!(next, "home");
    let out = texts(&tui.take_output());
    assert_eq!(out[0], pair("plain", "\n"));
    assert_eq!(out[1], pair("success", "ok\n"));
    assert_eq!(out[4], pair("wait", ""));
}

#[test]
fn titles_are_capitalised_and_framed() {
    let mut tui = new_tui();
    tui.write_title("Backing up Capture");
    let out = texts(&tui.take_output());
    assert_eq!(out[0], pair("clear", ""));
    let framed = format!("\n{0}{0}     BACKING UP CAPTURE\n{0}{0}\n", SEPARATOR_LINE);
    assert_eq!(out[1], pair("title", &framed));
}

#[test]
fn line_writers_style_their_text() {
    let mut tui = new_tui();
    tui.write("a");
    tui.writeln("b");
    tui.write_errorln("c");
    tui.write_success("d");
    tui.write_successln("e");
    tui.write_warnln("f");
    assert_eq!(
        texts(&tui.take_output()),
        vec![
            pair("plain", "a"),
            pair("plain", "b\n"),
            pair("error", "ERROR: c\n"),
            pair("success", "d"),
            pair("success", "e\n"),
            pair("warning", "f\n"),
        ]
    );
}

#[test]
fn progress_is_shown_only_when_it_changes() {
    let mut tui = new_tui();
    assert_eq!(tui.write_progress(1, 4, 0, "copy"), 25);
    assert_eq!(tui.write_progress(1, 4, 25, "copy"), 25);
    assert_eq!(texts(&tui.take_output()), vec![pair("progress", "\rProcessing 25%... copy")]);
}

#[test]
fn percentages() {
    assert_eq!(percentage(0, 0), 0);
    assert_eq!(percentage(5, 0), 100);
    assert_eq!(percentage(1, 3), 33);
    assert_eq!(percentage(2, 3), 66);
    assert_eq!(percentage(10, 10), 100);
    assert_eq!(percentage(11, 10), 100);
    assert_eq!(percentage(u64::MAX - 1, u64::MAX), 99);
}
