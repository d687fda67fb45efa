use vstd::prelude::*;
use vstd::string::StringExecFns;

use crate::error::{joined, views};
use crate::naming::{decimal, decimal_text};

verus! {

broadcast use vstd::string::group_string_axioms;

/// A line of dashes that frames titles and error banners.
pub const SEPARATOR_LINE: &'static str = "---------------------------------------------------------------------\n";

/// The name of the configuration file.
pub const CONFIG_FILE_NAME: &'static str = "config.json";

/// A name for what `str::to_uppercase` makes of a text.
pub uninterp spec fn upper_of(s: Seq<char>) -> Seq<char>;

/// Relies on `str::to_uppercase`: the result depends on the characters
/// alone, and an empty text stays empty.
#[verifier::external_body]
fn uppercase(s: &str) -> (r: String)
    ensures
        r@ == upper_of(s@),
        s@.len() == 0 ==> r@.len() == 0,
{
    s.to_uppercase()
}

/// How a text is shown.
#[derive(Clone, Copy, PartialEq, Eq, Structural)]
pub enum Style {
    Title,
    Plain,
    Error,
    Success,
    Warning,
    Progress,
}

/// One instruction for the terminal.
pub enum Output {
    /// Clear the screen.
    Clear,
    /// Show a text in a style.
    Text(Style, String),
    /// Wait until the user presses enter.
    WaitForEnter,
}

impl Output {
    /// 0 for a clear, 1 for a text, 2 for a wait; the style and the text.
    pub open spec fn view(&self) -> (int, Style, Seq<char>) {
        match self {
            Output::Clear => (0, Style::Plain, seq![]),
            Output::Text(s, t) => (1, *s, t@),
            Output::WaitForEnter => (2, Style::Plain, seq![]),
        }
    }
}

/// The model of a text in a style.
pub open spec fn text_out(s: Style, t: Seq<char>) -> (int, Style, Seq<char>) {
    (1, s, t)
}

/// The model of a wait for enter.
pub open spec fn wait_out() -> (int, Style, Seq<char>) {
    (2, Style::Plain, seq![])
}

/// The model of a clear.
pub open spec fn clear_out() -> (int, Style, Seq<char>) {
    (0, Style::Plain, seq![])
}

/// The framed heading of a title.
pub open spec fn banner_text(heading: Seq<char>) -> Seq<char> {
    "\n"@ + SEPARATOR_LINE@ + SEPARATOR_LINE@ + "     "@ + heading + "\n"@ + SEPARATOR_LINE@
        + SEPARATOR_LINE@ + "\n"@
}

/// The banner above a list of errors.
pub open spec fn error_banner() -> Seq<char> {
    SEPARATOR_LINE@ + SEPARATOR_LINE@ + "   ERROR\n"@ + SEPARATOR_LINE@ + SEPARATOR_LINE@ + "\n"@
}

/// What waiting for the user shows and does.
pub open spec fn confirm_outputs() -> Seq<(int, Style, Seq<char>)> {
    seq![
        text_out(Style::Plain, "\n"@),
        text_out(Style::Plain, "Press enter to continue..."@ + "\n"@),
        wait_out(),
    ]
}

/// Each text as a line in one style.
pub open spec fn lines_out(s: Style, prefix: Seq<char>, texts: Seq<Seq<char>>) -> Seq<
    (int, Style, Seq<char>),
> {
    texts.map_values(|t: Seq<char>| text_out(s, prefix + t + "\n"@))
}

/// The percentage that `done` is of `total`, at most 100; a total of 0
/// counts as 1.
pub open spec fn percentage_of(done: nat, total: nat) -> nat {
    let t = if total == 0 {
        1
    } else {
        total
    };
    if done >= t {
        100
    } else {
        (done * 100 / t) as nat
    }
}

/// The percentage that `done` is of `total`, at most 100.
pub fn percentage(done: u64, total: u64) -> (r: u64)
    ensures
        r == percentage_of(done as nat, total as nat),
        r <= 100,
{
    let t: u64 = if total == 0 {
        1
    } else {
        total
    };
    if done >= t {
        100
    } else {
        let scaled: u128 = (done as u128) * 100;
        assert(scaled / (t as u128) < 100) by (nonlinear_arith)
            requires
                scaled == done * 100,
                done < t,
                t > 0,
        ;
        (scaled / (t as u128)) as u64
    }
}

/// The terminal as a list of instructions still to be carried out.
pub struct TUI {
    output: Vec<Output>,
}

/// A terminal with nothing to show yet.
pub fn new_tui() -> (r: TUI)
    ensures
        r@.len() == 0,
{
    TUI { output: Vec::new() }
}

impl TUI {
    /// The instructions not yet carried out, oldest first.
    pub closed spec fn view(&self) -> Seq<(int, Style, Seq<char>)> {
        self.output@.map_values(|o: Output| o@)
    }

    /// Hands over the instructions to carry out and forgets them.
    pub fn take_output(&mut self) -> (r: Vec<Output>)
        ensures
            r@.map_values(|o: Output| o@) == old(self)@,
            final(self)@.len() == 0,
    {
        let mut r: Vec<Output> = Vec::new();
        std::mem::swap(&mut self.output, &mut r);
        assert(final(self)@ =~= Seq::<(int, Style, Seq<char>)>::empty());
        r
    }

    fn push(&mut self, o: Output)
        ensures
            final(self)@ == old(self)@.push(o@),
    {
        self.output.push(o);
        assert(self@ =~= old(self)@.push(o@));
    }

    /// Shows `text` in `style`.
    pub fn write_styled(&mut self, style: Style, text: String)
        ensures
            final(self)@ == old(self)@.push(text_out(style, text@)),
    {
        self.push(Output::Text(style, text));
    }

    /// Clears the screen and shows `heading` framed by separator lines.
    pub fn write_banner(&mut self, heading: &str)
        ensures
            final(self)@ == old(self)@.push(clear_out()).push(
                text_out(Style::Title, banner_text(heading@)),
            ),
    {
        self.push(Output::Clear);
        let mut s = "\n".to_string();
        s.append(SEPARATOR_LINE);
        s.append(SEPARATOR_LINE);
        s.append("     ");
        s.append(heading);
        s.append("\n");
        s.append(SEPARATOR_LINE);
        s.append(SEPARATOR_LINE);
        s.append("\n");
        self.write_styled(Style::Title, s);
    }

    /// Clears the screen and shows `text` in capitals as a title.
    pub fn write_title(&mut self, text: &str)
        ensures
            final(self)@ == old(self)@.push(clear_out()).push(
                text_out(Style::Title, banner_text(upper_of(text@))),
            ),
    {
        let heading = uppercase(text);
        self.write_banner(heading.as_str());
    }

    /// Shows `text` as it is.
    pub fn write(&mut self, text: &str)
        ensures
            final(self)@ == old(self)@.push(text_out(Style::Plain, text@)),
    {
        self.write_styled(Style::Plain, text.to_string());
    }

    /// Shows `text` as a line.
    pub fn writeln(&mut self, text: &str)
        ensures
            final(self)@ == old(self)@.push(text_out(Style::Plain, text@ + "\n"@)),
    {
        self.write_styled(Style::Plain, joined(text, "\n"));
    }

    /// Shows `text` as an error line.
    pub fn write_errorln(&mut self, text: &str)
        ensures
            final(self)@ == old(self)@.push(
                text_out(Style::Error, "ERROR: "@ + text@ + "\n"@),
            ),
    {
        let s = joined("ERROR: ", text);
        self.write_styled(Style::Error, joined(s.as_str(), "\n"));
    }

    /// Shows `text` as a success.
    pub fn write_success(&mut self, text: &str)
        ensures
            final(self)@ == old(self)@.push(text_out(Style::Success, text@)),
    {
        self.write_styled(Style::Success, text.to_string());
    }

    /// Shows `text` as a success line.
    pub fn write_successln(&mut self, text: &str)
        ensures
            final(self)@ == old(self)@.push(text_out(Style::Success, text@ + "\n"@)),
    {
        self.write_styled(Style::Success, joined(text, "\n"));
    }

    /// Shows `text` as a warning line.
    pub fn write_warnln(&mut self, text: &str)
        ensures
            final(self)@ == old(self)@.push(text_out(Style::Warning, text@ + "\n"@)),
    {
        self.write_styled(Style::Warning, joined(text, "\n"));
    }

    /// Shows the progress of `task` when its percentage differs from
    /// `last_percentage`, and returns the percentage.
    pub fn write_progress(&mut self, done: u64, total: u64, last_percentage: u64, task: &str) -> (r:
        u64)
        ensures
            r == percentage_of(done as nat, total as nat),
            r == last_percentage ==> final(self)@ == old(self)@,
            r != last_percentage ==> final(self)@ == old(self)@.push(
                text_out(
                    Style::Progress,
                    "\rProcessing "@ + decimal(r as nat) + "%... "@ + task@,
                ),
            ),
    {
        let p = percentage(done, total);
        if p == last_percentage {
            return p;
        }
        let mut s = "\rProcessing ".to_string();
        s.append(decimal_text(p).as_str());
        s.append("%... ");
        s.append(task);
        self.write_styled(Style::Progress, s);
        p
    }

    /// Shows each text as a line in `style`, after `prefix`.
    fn write_lines(&mut self, style: Style, prefix: &str, texts: &Vec<String>)
        ensures
            final(self)@ == old(self)@ + lines_out(style, prefix@, views(texts@)),
    {
        let ghost start = self@;
        let mut i: usize = 0;
        while i < texts.len()
            invariant
                i <= texts.len(),
                self@ == start + lines_out(style, prefix@, views(texts@.subrange(0, i as int))),
            decreases texts.len() - i,
        {
            let s = joined(prefix, texts[i].as_str());
            self.write_styled(style, joined(s.as_str(), "\n"));
            assert(views(texts@.subrange(0, i + 1)) =~= views(texts@.subrange(0, i as int)).push(
                texts@[i as int]@,
            ));
            assert(self@ =~= start + lines_out(
                style,
                prefix@,
                views(texts@.subrange(0, i + 1)),
            ));
            i = i + 1;
        }
        assert(texts@.subrange(0, i as int) =~= texts@);
    }

    /// Asks the user to press enter, then goes on to `menu_item`.
    fn wait_for_any_key<T>(&mut self, menu_item: T) -> (r: T)
        ensures
            r == menu_item,
            final(self)@ == old(self)@ + confirm_outputs(),
    {
        self.write("\n");
        self.writeln("Press enter to continue...");
        self.push(Output::WaitForEnter);
        assert(self@ =~= old(self)@ + confirm_outputs());
        menu_item
    }

    /// Shows each text as a success line, waits for enter, and goes on to
    /// `menu_item`.
    pub fn show_and_confirm_success<T>(&mut self, texts: &Vec<String>, menu_item: T) -> (r: T)
        ensures
            r == menu_item,
            final(self)@ == old(self)@.push(text_out(Style::Plain, "\n"@)) + lines_out(
                Style::Success,
                ""@,
                views(texts@),
            ) + confirm_outputs(),
    {
        self.write("\n");
        self.write_lines(Style::Success, "", texts);
        self.wait_for_any_key(menu_item)
    }

    /// Shows an error banner and each text as an error line (clearing the
    /// screen first when asked), waits for enter, and goes on to `menu_item`.
    pub fn show_and_confirm_error<T>(
        &mut self,
        texts: &Vec<String>,
        menu_item: T,
        clear_console_before_print: bool,
    ) -> (r: T)
        ensures
            r == menu_item,
            final(self)@ == (if clear_console_before_print {
                old(self)@.push(clear_out())
            } else {
                old(self)@
            }).push(text_out(Style::Error, error_banner())) + lines_out(
                Style::Error,
                "ERROR: "@,
                views(texts@),
            ) + confirm_outputs(),
    {
        if clear_console_before_print {
            self.push(Output::Clear);
        }
        let mut banner = SEPARATOR_LINE.to_string();
        banner.append(SEPARATOR_LINE);
        banner.append("   ERROR\n");
        banner.append(SEPARATOR_LINE);
        banner.append(SEPARATOR_LINE);
        banner.append("\n");
        self.write_styled(Style::Error, banner);
        self.write_lines(Style::Error, "ERROR: ", texts);
        self.wait_for_any_key(menu_item)
    }

    /// Shows each text as a warning line and waits for enter.
    pub fn show_and_confirm_warning(&mut self, texts: &Vec<String>)
        ensures
            final(self)@ == old(self)@ + lines_out(Style::Warning, ""@, views(texts@))
                + confirm_outputs(),
    {
        self.write_lines(Style::Warning, "", texts);
        self.wait_for_any_key(());
    }
}

} // verus!
