use vstd::prelude::*;
use vstd::string::StringExecFns;

use crate::error::joined;
use crate::naming::{decimal, decimal_text};
use crate::system::{Console, LocalInstallation};
use crate::tui::{
    clear_out, confirm_outputs, error_banner, lines_out, text_out, Style, CONFIG_FILE_NAME, TUI,
};

verus! {

broadcast use vstd::string::group_string_axioms;

/// A place in the program the user can go to.
pub enum MenuItem {
    Home,
    Help,
    ShowConfigLocation,
    ShowConfigExample,
    CreateConfigExample,
    ChooseBackupSystem,
    BackupAllSystems(Vec<Console>, Vec<LocalInstallation>),
    BackupConsole(Console),
    BackupLocalInstallation(LocalInstallation),
    ExitProgram(),
}

impl MenuItem {
    /// The label of the item in a menu.
    pub open spec fn text_of(&self) -> Seq<char> {
        match self {
            MenuItem::Home => "Home"@,
            MenuItem::Help => "Help overview"@,
            MenuItem::ShowConfigLocation => "Where should this "@ + CONFIG_FILE_NAME@
                + " be located?"@,
            MenuItem::ShowConfigExample => "Show example of "@ + CONFIG_FILE_NAME@,
            MenuItem::CreateConfigExample => "Create "@ + CONFIG_FILE_NAME@
                + " with example data for me"@,
            MenuItem::ChooseBackupSystem => "Backup one or more systems"@,
            MenuItem::BackupAllSystems(_, _) => "All systems"@,
            MenuItem::BackupConsole(c) => "Backup "@ + c.name@,
            MenuItem::BackupLocalInstallation(l) => "Backup "@ + l.name@,
            MenuItem::ExitProgram() => "End program"@,
        }
    }

    /// The label of the item in a menu.
    pub fn text(&self) -> (r: String)
        ensures
            r@ == self.text_of(),
    {
        match self {
            MenuItem::Home => "Home".to_string(),
            MenuItem::Help => "Help overview".to_string(),
            MenuItem::ShowConfigLocation => {
                let s = joined("Where should this ", CONFIG_FILE_NAME);
                joined(s.as_str(), " be located?")
            },
            MenuItem::ShowConfigExample => joined("Show example of ", CONFIG_FILE_NAME),
            MenuItem::CreateConfigExample => {
                let s = joined("Create ", CONFIG_FILE_NAME);
                joined(s.as_str(), " with example data for me")
            },
            MenuItem::ChooseBackupSystem => "Backup one or more systems".to_string(),
            MenuItem::BackupAllSystems(_, _) => "All systems".to_string(),
            MenuItem::BackupConsole(c) => joined("Backup ", c.name.as_str()),
            MenuItem::BackupLocalInstallation(l) => joined("Backup ", l.name.as_str()),
            MenuItem::ExitProgram() => "End program".to_string(),
        }
    }
}

/// A numbered menu line.
pub open spec fn option_line(index: nat, label: Seq<char>) -> Seq<char> {
    decimal(index) + ") "@ + label + "\n"@
}

/// The numbered lines of the first `k` items: home and exit are left out
/// here, as they are offered at the end.
pub open spec fn item_lines(items: Seq<MenuItem>, k: int) -> Seq<(int, Style, Seq<char>)>
    decreases k,
{
    if k <= 0 {
        seq![]
    } else {
        let prev = item_lines(items, k - 1);
        let m = items[k - 1];
        if m is Home || m is ExitProgram {
            prev
        } else {
            prev.push(text_out(Style::Plain, option_line((k - 1) as nat, m.text_of())))
        }
    }
}

/// The number that leaves the program: right after the items, or after
/// the home line when not at home.
pub open spec fn exit_index(len: nat, at_home: bool) -> nat {
    if at_home {
        len
    } else {
        len + 1
    }
}

/// Everything a menu shows, from its header to the prompt.
pub open spec fn menu_outputs(items: Seq<MenuItem>, at_home: bool) -> Seq<(int, Style, Seq<char>)> {
    seq![text_out(Style::Plain, "\nMenu Options\n\n"@)] + item_lines(items, items.len() as int) + (
    if at_home {
        seq![]
    } else {
        seq![text_out(Style::Success, option_line(items.len(), "Home"@))]
    }) + seq![
        text_out(Style::Warning, option_line(exit_index(items.len(), at_home), "End program"@) + "\n"@),
        text_out(Style::Plain, "Waiting for user input..."@),
    ]
}

/// A numbered menu line.
fn option_text(index: usize, label: &str) -> (r: String)
    ensures
        r@ == option_line(index as nat, label@),
{
    let mut s = decimal_text(index as u64);
    s.append(") ");
    s.append(label);
    s.append("\n");
    s
}

impl TUI {
    /// Shows the items of a menu, numbered from 0, then home (unless at
    /// home) and exit, and a prompt.
    pub fn show_menu(&mut self, items: &Vec<MenuItem>, at_home: bool)
        requires
            items.len() + 1 < usize::MAX,
        ensures
            final(self)@ == old(self)@ + menu_outputs(items@, at_home),
    {
        let ghost start = self@;
        self.write("\nMenu Options\n\n");
        let mut i: usize = 0;
        while i < items.len()
            invariant
                i <= items.len(),
                self@ == start.push(text_out(Style::Plain, "\nMenu Options\n\n"@)) + item_lines(
                    items@,
                    i as int,
                ),
            decreases items.len() - i,
        {
            let m = &items[i];
            let skip = match m {
                MenuItem::Home => true,
                MenuItem::ExitProgram() => true,
                _ => false,
            };
            if !skip {
                let label = m.text();
                self.write_styled(Style::Plain, option_text(i, label.as_str()));
            }
            i = i + 1;
        }
        let n = items.len();
        let exit = if at_home {
            n
        } else {
            self.write_styled(Style::Success, option_text(n, "Home"));
            n + 1
        };
        let line = option_text(exit, "End program");
        self.write_styled(Style::Warning, joined(line.as_str(), "\n"));
        self.write("Waiting for user input...");
        assert(self@ =~= start + menu_outputs(items@, at_home));
    }

    /// What the number `input` picks from a menu shown by `show_menu`: exit,
    /// home, or one of the items. Any other number shows an error and stays
    /// at `current`.
    pub fn pick_menu_item(&mut self, items: Vec<MenuItem>, current: MenuItem, input: usize) -> (r: MenuItem)
        requires
            items.len() + 1 < usize::MAX,
        ensures
            input == exit_index(items.len() as nat, current is Home) ==> r is ExitProgram
                && final(self)@ == old(self)@,
            !(current is Home) && input == items.len() ==> r is Home && final(self)@
                == old(self)@,
            input < items.len() ==> r == items@[input as int] && final(self)@ == old(self)@,
            input > exit_index(items.len() as nat, current is Home) ==> r == current
                && final(self)@ == old(self)@.push(clear_out()).push(text_out(Style::Error, error_banner()))
                + lines_out(Style::Error, "ERROR: "@, seq!["Invalid input"@]) + confirm_outputs(),
    {
        let at_home = match current {
            MenuItem::Home => true,
            _ => false,
        };
        let n = items.len();
        let exit = if at_home {
            n
        } else {
            n + 1
        };
        if input == exit {
            return MenuItem::ExitProgram();
        }
        if !at_home && input == n {
            return MenuItem::Home;
        }
        if input < n {
            let mut items = items;
            return items.remove(input);
        }
        let texts = vec!["Invalid input".to_string()];
        proof {
            assert(crate::error::views(texts@) =~= seq!["Invalid input"@]);
        }
        self.show_and_confirm_error(&texts, current, true)
    }
}

} // verus!
