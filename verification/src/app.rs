//! The state machine of the dashboard.
//!
//! [`App`] holds every piece of state the screen is made of, and
//! [`App::handle`] is the single transition from a key to the next state.
use vstd::prelude::*;
use vstd::string::*;
use crate::events;
use crate::events::{
    empty_events, events_uncaptured, is_stale, tail_parts, EventsV,
};
use crate::form::{handled, pasted, Form, FormV, Outcome};
use crate::keys::{digit_of, Input, MouseInput};
use crate::layout;
use crate::layout::{display_width, mode_at, RowMode};
use crate::model::{Config, Remote};
use crate::quests;
use crate::quests::{empty_quests, filter_parts, uncaptured, QuestsV};
use crate::table::{keys_differ, pairs_view, table_of};
use crate::text::{concat3, decimal, joined, number, opt_text, owned, same, texts};

verus! {

// ----------------------------------------------------------------------- tabs

/// The four tabs, in bar order.
#[derive(Debug, Clone, Copy, PartialEq, Eq, Structural)]
pub enum Tab {
    Quests,
    Sessions,
    Templates,
    Events,
}

/// Where a tab is on the bar.
pub open spec fn tab_index(tab: Tab) -> int {
    match tab {
        Tab::Quests => 0,
        Tab::Sessions => 1,
        Tab::Templates => 2,
        Tab::Events => 3,
    }
}

/// The tab at a place on the bar.
pub open spec fn tab_at(i: int) -> Tab {
    if i == 0 {
        Tab::Quests
    } else if i == 1 {
        Tab::Sessions
    } else if i == 2 {
        Tab::Templates
    } else {
        Tab::Events
    }
}

/// What a tab is called.
pub open spec fn tab_title(tab: Tab) -> Seq<char> {
    match tab {
        Tab::Quests => "Quests"@,
        Tab::Sessions => "Sessions"@,
        Tab::Templates => "Templates"@,
        Tab::Events => "Events"@,
    }
}

/// The tab a digit jumps to.
pub open spec fn tab_of_digit(d: u32) -> Option<Tab> {
    if 1 <= d <= 4 {
        Some(tab_at(d - 1))
    } else {
        None
    }
}

/// The tab one place on, around the end.
pub open spec fn tab_after(tab: Tab) -> Tab {
    tab_at((tab_index(tab) + 1) % 4)
}

/// The tab one place back, around the end.
pub open spec fn tab_before(tab: Tab) -> Tab {
    tab_at((tab_index(tab) + 3) % 4)
}

impl Tab {
    /// Every tab, in bar order.
    pub const ALL: [Tab; 4] = [Tab::Quests, Tab::Sessions, Tab::Templates, Tab::Events];

    /// What the tab is called.
    pub fn title(self) -> (r: &'static str)
        ensures
            r@ == tab_title(self),
    {
        match self {
            Tab::Quests => "Quests",
            Tab::Sessions => "Sessions",
            Tab::Templates => "Templates",
            Tab::Events => "Events",
        }
    }

    /// Where the tab is on the bar.
    pub fn index(self) -> (r: usize)
        ensures
            r == tab_index(self),
    {
        match self {
            Tab::Quests => 0,
            Tab::Sessions => 1,
            Tab::Templates => 2,
            Tab::Events => 3,
        }
    }

    /// The digit key that jumps straight here.
    pub fn digit(self) -> (r: u32)
        ensures
            r == tab_index(self) + 1,
    {
        self.index() as u32 + 1
    }

    /// The tab a digit jumps to.
    pub fn from_digit(d: u32) -> (r: Option<Tab>)
        ensures
            r == tab_of_digit(d),
    {
        match d {
            1 => Some(Tab::Quests),
            2 => Some(Tab::Sessions),
            3 => Some(Tab::Templates),
            4 => Some(Tab::Events),
            _ => None,
        }
    }

    /// The next tab, around the end.
    pub fn next(self) -> (r: Tab)
        ensures
            r == tab_after(self),
    {
        match self {
            Tab::Quests => Tab::Sessions,
            Tab::Sessions => Tab::Templates,
            Tab::Templates => Tab::Events,
            Tab::Events => Tab::Quests,
        }
    }

    /// The previous tab, around the end.
    pub fn prev(self) -> (r: Tab)
        ensures
            r == tab_before(self),
    {
        match self {
            Tab::Quests => Tab::Events,
            Tab::Sessions => Tab::Quests,
            Tab::Templates => Tab::Sessions,
            Tab::Events => Tab::Templates,
        }
    }
}

/// A tab's digit leads back to it, and going on and back again stays put.
pub proof fn tabs_go_around(tab: Tab)
    ensures
        tab_of_digit((tab_index(tab) + 1) as u32) == Some(tab),
        tab_before(tab_after(tab)) == tab,
        tab_after(tab_before(tab)) == tab,
        tab_after(tab_after(tab_after(tab_after(tab)))) == tab,
{
}

// -------------------------------------------------------------------- prompts

/// What the event loop must do after a transition. The hand-over variants carry
/// no target: the loop asks the active tab which row it is on, so a selection
/// can never be recorded here and then go stale.
#[derive(Debug, Clone, Copy, PartialEq, Eq, Structural)]
pub enum Action {
    /// State updated, or nothing happened; just redraw.
    Nothing,
    /// Reload the active tab's data before redrawing.
    Refresh,
    /// Leave the screen and attach to the selection's master.
    Attach,
    /// Leave the screen and page the selection's brief.
    Brief,
    /// Leave the screen and page the selected session's pane.
    Peek,
    /// Run the selected template and land in its master.
    Run,
    /// Leave the screen and page the selected template.
    Export,
    /// Run the command behind a key on the machine the selection lives on.
    Proxy(char),
    /// Run the open modal's prompt.
    Submit,
    Quit,
}

/// The quest a prompt was opened against, and enough of what the box said about
/// it to notice if it stopped being true.
#[derive(Debug, Clone, PartialEq, Eq)]
pub struct Target {
    pub quest: String,
    /// The slug the box named.
    pub slug: String,
    /// The one column nothing can change: an id can be minted twice.
    pub created_at: i64,
    /// Whether the quest was finished when the box was drawn.
    pub finished: bool,
    /// The beads epic the box named.
    pub epic: Option<String>,
}

/// A target as a value.
pub ghost struct TargetV {
    pub quest: Seq<char>,
    pub slug: Seq<char>,
    pub created_at: i64,
    pub finished: bool,
    pub epic: Option<Seq<char>>,
}

impl View for Target {
    type V = TargetV;

    open spec fn view(&self) -> TargetV {
        TargetV {
            quest: self.quest@,
            slug: self.slug@,
            created_at: self.created_at,
            finished: self.finished,
            epic: opt_text(self.epic),
        }
    }
}

/// What an open form will do when it is submitted.
#[derive(Debug, Clone, PartialEq, Eq)]
pub enum Prompt {
    NewQuest,
    Rename(Target),
    Close(Target),
    Resume(Target),
}

/// A prompt as a value.
pub ghost enum PromptV {
    NewQuest,
    Rename(TargetV),
    Close(TargetV),
    Resume(TargetV),
}

impl View for Prompt {
    type V = PromptV;

    open spec fn view(&self) -> PromptV {
        match *self {
            Prompt::NewQuest => PromptV::NewQuest,
            Prompt::Rename(t) => PromptV::Rename(t@),
            Prompt::Close(t) => PromptV::Close(t@),
            Prompt::Resume(t) => PromptV::Resume(t@),
        }
    }
}

/// The quest a prompt was opened against.
pub open spec fn target_in(p: PromptV) -> Option<TargetV> {
    match p {
        PromptV::NewQuest => None,
        PromptV::Rename(t) => Some(t),
        PromptV::Close(t) => Some(t),
        PromptV::Resume(t) => Some(t),
    }
}

impl Prompt {
    /// The id of the quest the prompt was opened against, if any.
    pub fn quest(&self) -> (r: Option<&str>)
        ensures
            match r {
                Some(id) => target_in(self@) is Some && target_in(self@)->0.quest == id@,
                None => target_in(self@) is None,
            },
    {
        match self.target() {
            Some(t) => Some(t.quest.as_str()),
            None => None,
        }
    }

    /// The quest the prompt was opened against, if any.
    pub fn target(&self) -> (r: Option<&Target>)
        ensures
            match r {
                Some(t) => target_in(self@) == Some(t@),
                None => target_in(self@) is None,
            },
    {
        match self {
            Prompt::NewQuest => None,
            Prompt::Rename(t) => Some(t),
            Prompt::Close(t) => Some(t),
            Prompt::Resume(t) => Some(t),
        }
    }
}

/// A form on screen, holding the keyboard, together with what submitting it
/// means.
#[derive(Debug, Clone, PartialEq, Eq)]
pub struct Modal {
    pub prompt: Prompt,
    pub form: Form,
}

/// A modal as a value.
pub ghost struct ModalV {
    pub prompt: PromptV,
    pub form: FormV,
}

impl View for Modal {
    type V = ModalV;

    open spec fn view(&self) -> ModalV {
        ModalV { prompt: self.prompt@, form: self.form@ }
    }
}

// ----------------------------------------------------------------------- help

/// A row of the help overlay as a value.
pub open spec fn pair_view(p: (&'static str, &'static str)) -> (Seq<char>, Seq<char>) {
    (p.0@, p.1@)
}

/// Some rows of the help overlay as values.
pub open spec fn rows_view(v: Seq<(&'static str, &'static str)>) -> Seq<(Seq<char>, Seq<char>)> {
    Seq::new(v.len(), |i: int| pair_view(v[i]))
}

/// The keys every tab answers to.
pub open spec fn shell_help() -> Seq<(Seq<char>, Seq<char>)> {
    seq![
        ("Tab / S-Tab"@, "next / previous tab"@),
        ("1 2 3 4"@, "jump to a tab (phone keyboards: no Enter needed)"@),
        ("\u{2191} \u{2193} / k j"@, "move the selection"@),
        ("Enter / Ctrl-J"@, "the active tab's Enter (Ctrl-J is its alias)"@),
        ("x"@, "refresh now"@),
        ("?"@, "toggle this help"@),
        ("q / Esc"@, "close the help, or quit"@),
        ("Ctrl-C"@, "quit"@),
    ]
}

/// The keys of the Quests tab.
pub open spec fn quests_help() -> Seq<(Seq<char>, Seq<char>)> {
    seq![
        ("o"@, "enter the master (attach to its tmux session)"@),
        ("Enter"@, "toggle the detail panel"@),
        ("s"@, "this Quest's sessions"@),
        ("e"@, "this Quest's events, in the tail"@),
        ("n"@, "new Quest (a form)"@),
        ("r / c / R"@, "rename \u{b7} close \u{b7} resume (each prompts)"@),
        ("b"@, "brief in a pager"@),
        ("l"@, "links"@),
        ("f"@, "show finished Quests"@),
        ("m"@, "cycle the machine filter"@),
        ("/"@, "search (Esc clears, Enter keeps)"@),
        ("g / G"@, "first / last row"@),
    ]
}

/// The keys of the Events tab.
pub open spec fn events_help() -> Seq<(Seq<char>, Seq<char>)> {
    seq![
        ("\u{2191} \u{2193} / k j"@, "move (leaving the last row pauses the tail)"@),
        ("Enter / d"@, "toggle the whole event, payload and all"@),
        ("/"@, "filter by kind \u{2014} `note`, `session.*`, several at once"@),
        ("Esc"@, "close the panel, then the kind filter, then the quest"@),
        ("g / G"@, "oldest / newest (G resumes the tail)"@),
    ]
}

/// The keys of one tab; a tab may have none of its own.
pub open spec fn own_help(tab: Tab) -> Seq<(Seq<char>, Seq<char>)> {
    match tab {
        Tab::Quests => quests_help(),
        Tab::Events => events_help(),
        _ => Seq::empty(),
    }
}

/// The overlay for one tab: the shell's keys, then that tab's own behind a gap.
/// A tab with no keys of its own shows only the first half.
pub fn help_rows(tab: Tab) -> (r: Vec<(&'static str, &'static str)>)
    ensures
        rows_view(r@) == shell_help() + if own_help(tab).len() == 0 {
            Seq::empty()
        } else {
            seq![(""@, ""@)] + own_help(tab)
        },
{
    let mut rows: Vec<(&'static str, &'static str)> = Vec::new();
    rows.push(("Tab / S-Tab", "next / previous tab"));
    rows.push(("1 2 3 4", "jump to a tab (phone keyboards: no Enter needed)"));
    rows.push(("\u{2191} \u{2193} / k j", "move the selection"));
    rows.push(("Enter / Ctrl-J", "the active tab's Enter (Ctrl-J is its alias)"));
    rows.push(("x", "refresh now"));
    rows.push(("?", "toggle this help"));
    rows.push(("q / Esc", "close the help, or quit"));
    rows.push(("Ctrl-C", "quit"));
    match tab {
        Tab::Quests => {
            rows.push(("", ""));
            rows.push(("o", "enter the master (attach to its tmux session)"));
            rows.push(("Enter", "toggle the detail panel"));
            rows.push(("s", "this Quest's sessions"));
            rows.push(("e", "this Quest's events, in the tail"));
            rows.push(("n", "new Quest (a form)"));
            rows.push(("r / c / R", "rename \u{b7} close \u{b7} resume (each prompts)"));
            rows.push(("b", "brief in a pager"));
            rows.push(("l", "links"));
            rows.push(("f", "show finished Quests"));
            rows.push(("m", "cycle the machine filter"));
            rows.push(("/", "search (Esc clears, Enter keeps)"));
            rows.push(("g / G", "first / last row"));
        },
        Tab::Events => {
            rows.push(("", ""));
            rows.push(("\u{2191} \u{2193} / k j", "move (leaving the last row pauses the tail)"));
            rows.push(("Enter / d", "toggle the whole event, payload and all"));
            rows.push(("/", "filter by kind \u{2014} `note`, `session.*`, several at once"));
            rows.push(("Esc", "close the panel, then the kind filter, then the quest"));
            rows.push(("g / G", "oldest / newest (G resumes the tail)"));
        },
        _ => {},
    }
    proof {
        assert(rows_view(rows@) =~= shell_help() + if own_help(tab).len() == 0 {
            Seq::empty()
        } else {
            seq![(""@, ""@)] + own_help(tab)
        });
    }
    rows
}

// -------------------------------------------------------------------- the bar

/// One space before the first tab label, so the bar is not flush to the edge.
pub const TAB_LEAD: u16 = 1;

/// Rendered between tab labels.
pub const TAB_SEP: &'static str = " \u{2502} ";

/// What the bar says of a tab: its digit and its title.
pub open spec fn tab_label(tab: Tab) -> Seq<char> {
    decimal((tab_index(tab) + 1) as nat) + " "@ + tab_title(tab)
}

/// The column a tab's label starts in.
pub open spec fn tab_column(i: int) -> int
    decreases i,
{
    if i <= 0 {
        TAB_LEAD as int
    } else {
        tab_column(i - 1) + display_width(tab_label(tab_at(i - 1))) + display_width(TAB_SEP@)
    }
}

/// The columns a tab's label covers.
pub open spec fn tab_covers(tab: Tab, col: int) -> bool {
    let at = tab_column(tab_index(tab));
    at <= col < at + display_width(tab_label(tab))
}

fn label(tab: Tab) -> (r: String)
    ensures
        r@ == tab_label(tab),
        layout::is_plain(r@),
        2 < r@.len() <= 12,
{
    let digit = number(tab.digit() as u64);
    let r = concat3(digit.as_str(), " ", tab.title());
    proof {
        reveal_strlit(" ");
        reveal_strlit("Quests");
        reveal_strlit("Sessions");
        reveal_strlit("Templates");
        reveal_strlit("Events");
        crate::text::decimal_reads_back((tab_index(tab) + 1) as nat);
        let d = decimal((tab_index(tab) + 1) as nat);
        assert(d.len() == 1);
        assert(crate::text::is_digit(d[0]));
    }
    r
}

/// Each tab's label and the columns it occupies in the header bar. Shared by the
/// renderer and by mouse hit-testing, so a click always lands where the label is
/// drawn. No two labels share a column.
pub fn tab_layout() -> (r: Vec<(Tab, String, u16, u16)>)
    ensures
        r.len() == 4,
        forall|i: int|
            0 <= i < 4 ==> {
                &&& (#[trigger] r[i]).0 == tab_at(i)
                &&& r[i].1@ == tab_label(tab_at(i))
                &&& r[i].2 == tab_column(i)
                &&& r[i].3 == display_width(tab_label(tab_at(i)))
                &&& r[i].3 > 0
                &&& r[i].2 + r[i].3 <= u16::MAX
            },
        forall|i: int, j: int|
            0 <= i < j < 4 ==> (#[trigger] r[i]).2 + r[i].3 <= (#[trigger] r[j]).2,
{
    let sep = layout::width(TAB_SEP);
    proof {
        reveal_strlit(" \u{2502} ");
        assert(sep <= 9);
    }
    let mut out: Vec<(Tab, String, u16, u16)> = Vec::new();
    let mut x: u16 = TAB_LEAD;
    let mut i: usize = 0;
    while i < 4
        invariant
            i <= 4,
            sep <= 9,
            sep == display_width(TAB_SEP@),
            x == tab_column(i as int),
            x <= 1 + 21 * i,
            out.len() == i,
            forall|j: int|
                0 <= j < i ==> {
                    &&& (#[trigger] out[j]).0 == tab_at(j)
                    &&& out[j].1@ == tab_label(tab_at(j))
                    &&& out[j].2 == tab_column(j)
                    &&& out[j].3 == display_width(tab_label(tab_at(j)))
                    &&& out[j].3 > 0
                    &&& out[j].2 + out[j].3 <= x
                },
            forall|j: int, k: int|
                0 <= j < k < i ==> (#[trigger] out[j]).2 + out[j].3 <= (#[trigger] out[k]).2,
        decreases 4 - i,
    {
        let tab = if i == 0 {
            Tab::Quests
        } else if i == 1 {
            Tab::Sessions
        } else if i == 2 {
            Tab::Templates
        } else {
            Tab::Events
        };
        let text = label(tab);
        let w = layout::width(text.as_str()) as u16;
        proof {
            assert(tab_column(i as int + 1) == tab_column(i as int) + display_width(
                tab_label(tab_at(i as int)),
            ) + display_width(TAB_SEP@));
        }
        out.push((tab, text, x, w));
        x = x + w + sep as u16;
        i += 1;
    }
    out
}

/// The tab whose label covers column `col` of a tab bar `bar_width` columns
/// wide. Columns past the bar belong to the machine label, not to the tab whose
/// label was clipped there.
pub fn tab_at_column(col: u16, bar_width: u16) -> (r: Option<Tab>)
    ensures
        match r {
            Some(tab) => col < bar_width && tab_covers(tab, col as int),
            None => col >= bar_width || forall|tab: Tab| !#[trigger] tab_covers(tab, col as int),
        },
        forall|a: Tab, b: Tab|
            #[trigger] tab_covers(a, col as int) && #[trigger] tab_covers(b, col as int) ==> a == b,
{
    let slots = tab_layout();
    proof {
        assert forall|a: Tab, b: Tab|
            #[trigger] tab_covers(a, col as int) && #[trigger] tab_covers(
                b,
                col as int,
            ) implies a == b by {
            let i = tab_index(a);
            let j = tab_index(b);
            assert(slots[i].2 == tab_column(i));
            assert(slots[j].2 == tab_column(j));
            assert(tab_at(i) == a && tab_at(j) == b);
        }
    }
    if col >= bar_width {
        return None;
    }
    let mut i: usize = 0;
    while i < slots.len()
        invariant
            i <= slots.len() == 4,
            col < bar_width,
            forall|a: Tab, b: Tab|
                #[trigger] tab_covers(a, col as int) && #[trigger] tab_covers(b, col as int)
                    ==> a == b,
            forall|j: int|
                0 <= j < 4 ==> {
                    &&& (#[trigger] slots[j]).0 == tab_at(j)
                    &&& slots[j].2 == tab_column(j)
                    &&& slots[j].3 == display_width(tab_label(tab_at(j)))
                    &&& slots[j].2 + slots[j].3 <= u16::MAX
                },
            forall|j: int| 0 <= j < i ==> !tab_covers((#[trigger] slots[j]).0, col as int),
        decreases 4 - i,
    {
        let x = slots[i].2;
        let w = slots[i].3;
        assert(slots[i as int].0 == tab_at(i as int));
        if col >= x && col - x < w {
            return Some(slots[i].0);
        }
        assert(tab_index(slots[i as int].0) == i);
        i += 1;
    }
    proof {
        assert forall|tab: Tab| !#[trigger] tab_covers(tab, col as int) by {
            assert(slots[tab_index(tab)].0 == tab);
        }
    }
    None
}

// -------------------------------------------------------------------- the app

/// How long a status message holds the bar, in seconds.
pub const STATUS_SECS: u64 = 8;

/// Everything the screen is made of.
#[derive(Debug, Clone, PartialEq, Eq)]
pub struct App {
    /// The machine this dashboard speaks for.
    pub machine: String,
    pub tab: Tab,
    pub help: bool,
    pub should_quit: bool,
    /// The configured row height, where the width leaves a choice.
    pub rows: u8,
    pub mouse: bool,
    /// Seconds between two looks at the local state.
    pub tick_secs: u64,
    /// Last known terminal size.
    pub width: u16,
    pub height: u16,
    /// Columns the tab bar was last drawn into, so a click can only select a
    /// visible tab.
    pub tab_bar_width: u16,
    /// Ticks elapsed, and refreshes asked for.
    pub ticks: u64,
    pub refreshes: u64,
    /// One line of feedback, and the tick it was set on.
    pub status: String,
    pub status_at: u64,
    /// The last reload that failed, kept apart so that a tick's success cannot
    /// wipe a message a keypress just wrote.
    pub refresh_error: Option<String>,
    /// What the last remote round had to complain about.
    pub remote_note: Option<String>,
    /// What stands before a slug in the names of each machine's tmux sessions,
    /// as that machine last said; no machine occurs twice.
    pub remote_tmux: Vec<(String, String)>,
    /// The quest a tab handed to another tab.
    pub focus_quest: Option<String>,
    /// Whether the detail panel is up.
    pub detail: bool,
    /// The open form, drawn over the whole frame whatever tab is behind it.
    pub modal: Option<Modal>,
    /// Every machine there is: the local one first, then the remotes.
    pub machines: Vec<String>,
    /// What stands before a slug in the name of its tmux session.
    pub tmux_prefix: String,
    pub quests: quests::State,
    pub events: events::State,
}

/// The dashboard as a value.
pub ghost struct AppV {
    pub machine: Seq<char>,
    pub tab: Tab,
    pub help: bool,
    pub should_quit: bool,
    pub rows: u8,
    pub mouse: bool,
    pub tick_secs: u64,
    pub width: u16,
    pub height: u16,
    pub tab_bar_width: u16,
    pub ticks: u64,
    pub refreshes: u64,
    pub status: Seq<char>,
    pub status_at: u64,
    pub refresh_error: Option<Seq<char>>,
    pub remote_note: Option<Seq<char>>,
    pub remote_tmux: Map<Seq<char>, Seq<char>>,
    pub focus_quest: Option<Seq<char>>,
    pub detail: bool,
    pub modal: Option<ModalV>,
    pub machines: Seq<Seq<char>>,
    pub tmux_prefix: Seq<char>,
    pub quests: QuestsV,
    pub events: EventsV,
}

/// What an optional modal is as a value.
pub open spec fn opt_modal(m: Option<Modal>) -> Option<ModalV> {
    match m {
        Some(m) => Some(m@),
        None => None,
    }
}

impl View for App {
    type V = AppV;

    open spec fn view(&self) -> AppV {
        AppV {
            machine: self.machine@,
            tab: self.tab,
            help: self.help,
            should_quit: self.should_quit,
            rows: self.rows,
            mouse: self.mouse,
            tick_secs: self.tick_secs,
            width: self.width,
            height: self.height,
            tab_bar_width: self.tab_bar_width,
            ticks: self.ticks,
            refreshes: self.refreshes,
            status: self.status@,
            status_at: self.status_at,
            refresh_error: opt_text(self.refresh_error),
            remote_note: opt_text(self.remote_note),
            remote_tmux: table_of(pairs_view(self.remote_tmux@)),
            focus_quest: opt_text(self.focus_quest),
            detail: self.detail,
            modal: opt_modal(self.modal),
            machines: texts(self.machines@),
            tmux_prefix: self.tmux_prefix@,
            quests: self.quests@,
            events: self.events@,
        }
    }
}

/// The names of some remotes, each once and none that is already there.
pub open spec fn with_remotes(known: Seq<Seq<char>>, remotes: Seq<Remote>) -> Seq<Seq<char>>
    decreases remotes.len(),
{
    if remotes.len() == 0 {
        known
    } else {
        let before = with_remotes(known, remotes.drop_last());
        if before.contains(remotes.last().name@) {
            before
        } else {
            before.push(remotes.last().name@)
        }
    }
}

/// A dashboard that has just started.
pub open spec fn started(config: Config, machine: Seq<char>) -> AppV {
    AppV {
        machine,
        tab: Tab::Quests,
        help: false,
        should_quit: false,
        rows: config.ui.rows,
        mouse: config.ui.mouse,
        tick_secs: if config.ui.tick_local >= 1 {
            config.ui.tick_local
        } else {
            1
        },
        width: 0,
        height: 0,
        tab_bar_width: 0,
        ticks: 0,
        refreshes: 0,
        status: Seq::empty(),
        status_at: 0,
        refresh_error: None,
        remote_note: None,
        remote_tmux: Map::empty(),
        focus_quest: None,
        detail: false,
        modal: None,
        machines: with_remotes(seq![machine], config.remotes@),
        tmux_prefix: config.tmux.session_prefix@,
        quests: empty_quests(),
        events: empty_events(),
    }
}

/// A message on the status bar.
pub open spec fn saying(a: AppV, message: Seq<char>) -> AppV {
    AppV { status: message, status_at: a.ticks, ..a }
}

/// A cleared status bar.
pub open spec fn hushed(a: AppV) -> AppV {
    AppV { status: Seq::empty(), ..a }
}

/// The row height the dashboard draws with.
pub open spec fn mode_of(a: AppV) -> RowMode {
    mode_at(a.width, a.rows)
}

/// Something is reading raw text rather than commands.
pub open spec fn is_capturing(a: AppV) -> bool {
    a.modal is Some || match a.tab {
        Tab::Quests => a.quests.searching,
        Tab::Events => a.events.filtering,
        _ => false,
    }
}

/// How many ticks a message stays.
pub open spec fn status_ticks(a: AppV) -> int {
    let secs = if a.tick_secs >= 1 {
        a.tick_secs as int
    } else {
        1
    };
    if STATUS_SECS as int / secs >= 1 {
        STATUS_SECS as int / secs
    } else {
        1
    }
}

/// The message to show, or none once it has had its time. Text being typed never
/// expires.
pub open spec fn status_shown(a: AppV) -> Option<Seq<char>> {
    if a.status.len() == 0 {
        None
    } else if is_capturing(a) || a.ticks - a.status_at < status_ticks(a) {
        Some(a.status)
    } else {
        None
    }
}

/// The active tab's filter indicator.
pub open spec fn filters_shown(a: AppV) -> Seq<char> {
    match a.tab {
        Tab::Quests => joined(filter_parts(a.quests), " "@),
        Tab::Events => joined(tail_parts(a.events), " "@),
        _ => Seq::empty(),
    }
}

/// Everything that leads the status bar.
pub open spec fn chips_shown(a: AppV) -> Seq<char> {
    let filters = filters_shown(a);
    match a.remote_note {
        Some(note) => if filters.len() == 0 {
            note
        } else {
            filters + " \u{b7} "@ + note
        },
        None => filters,
    }
}

/// The keyboard given back, whatever was holding it.
pub open spec fn released(a: AppV) -> AppV {
    AppV {
        modal: None,
        quests: if a.tab == Tab::Quests {
            uncaptured(a.quests)
        } else {
            a.quests
        },
        events: if a.tab == Tab::Events {
            events_uncaptured(a.events)
        } else {
            a.events
        },
        ..a
    }
}

/// Another tab in front. What was being typed is abandoned with the tab it was
/// typed on.
pub open spec fn on_tab(a: AppV, tab: Tab) -> AppV {
    if a.tab == tab {
        a
    } else {
        AppV { tab, status: Seq::empty(), ..released(a) }
    }
}

/// The active tab's rows were fetched under a filter that is no longer in force.
pub open spec fn owes_reload(a: AppV) -> bool {
    a.tab == Tab::Events && is_stale(a.events)
}

/// What arriving on a tab asks for.
pub open spec fn arrival(a: AppV) -> Action {
    if owes_reload(a) {
        Action::Refresh
    } else {
        Action::Nothing
    }
}

/// Arriving on a tab: nothing where it was already in front.
pub open spec fn arrived(a: AppV, tab: Tab) -> (Action, AppV) {
    if a.tab == tab {
        (Action::Nothing, a)
    } else {
        (arrival(on_tab(a, tab)), on_tab(a, tab))
    }
}

/// Quitting.
pub open spec fn quitting(a: AppV) -> (Action, AppV) {
    (Action::Quit, AppV { should_quit: true, ..a })
}

/// What a key does to the help overlay: only closing it and a hard quit get
/// through.
pub open spec fn help_key(a: AppV, input: Input) -> (Action, AppV) {
    if input == Input::Ctrl('c') {
        quitting(a)
    } else if input == Input::Char('?') || input == Input::Char('q') || input == Input::Esc || input
        == Input::Enter {
        (Action::Nothing, AppV { help: false, ..a })
    } else {
        (Action::Nothing, a)
    }
}

/// The form taken down and the bar given back.
pub open spec fn dismissed(a: AppV) -> AppV {
    if a.modal is Some {
        AppV { modal: None, status: Seq::empty(), ..a }
    } else {
        a
    }
}

/// What a key does to the open form.
pub open spec fn modal_key(a: AppV, input: Input) -> (Action, AppV) {
    match a.modal {
        None => (Action::Nothing, a),
        Some(m) => {
            let (outcome, form) = handled(m.form, input);
            let edited = AppV { modal: Some(ModalV { form, ..m }), ..a };
            match outcome {
                Outcome::Editing => (Action::Nothing, edited),
                Outcome::Cancel => (Action::Nothing, dismissed(edited)),
                Outcome::Submit => (Action::Submit, edited),
            }
        },
    }
}

/// One more, as far as a counter goes.
pub open spec fn counted(n: u64) -> u64 {
    if n < u64::MAX {
        (n + 1) as u64
    } else {
        n
    }
}

/// What a key means to the shell; `None` when it is the active tab's business.
pub open spec fn shell_key(a: AppV, input: Input) -> Option<(Action, AppV)> {
    match input {
        Input::Ctrl('c') => Some(quitting(a)),
        Input::Char('q') => Some(quitting(a)),
        Input::Char('?') => Some((Action::Nothing, AppV { help: true, ..a })),
        Input::Tab => Some(arrived(a, tab_after(a.tab))),
        Input::BackTab => Some(arrived(a, tab_before(a.tab))),
        Input::Char('x') => Some(
            (Action::Refresh, AppV { refreshes: counted(a.refreshes), ..a }),
        ),
        _ => match digit_of(input) {
            Some(d) => match tab_of_digit(d) {
                Some(tab) => Some(arrived(a, tab)),
                None => Some((Action::Nothing, a)),
            },
            None => None,
        },
    }
}

/// What a key means to the active tab.
pub open spec fn tab_key(a: AppV, input: Input) -> (Action, AppV) {
    match a.tab {
        Tab::Quests => quests::key(a, input),
        Tab::Events => events::key(a, input),
        _ => (Action::Nothing, a),
    }
}

/// What a key does to the dashboard: the overlay first, then a form, then a tab
/// that is reading text, then the shell, then the tab.
pub open spec fn app_key(a: AppV, input: Input) -> (Action, AppV) {
    if a.help {
        help_key(a, input)
    } else if a.modal is Some {
        if input == Input::Ctrl('c') {
            quitting(a)
        } else {
            modal_key(a, input)
        }
    } else if is_capturing(a) {
        if input == Input::Ctrl('c') {
            quitting(a)
        } else {
            tab_key(a, input)
        }
    } else {
        match shell_key(a, input) {
            Some(done) => done,
            None => tab_key(a, input),
        }
    }
}

/// What pasted text does to the dashboard: whether anything changed, and the
/// state then. It goes into the focused text field of whatever is capturing, and
/// nowhere else.
pub open spec fn app_paste(a: AppV, text: Seq<char>) -> (bool, AppV) {
    if a.help {
        (false, a)
    } else {
        match a.modal {
            Some(m) => {
                let (changed, form) = pasted(m.form, text);
                (changed, AppV { modal: Some(ModalV { form, ..m }), ..a })
            },
            None => match a.tab {
                Tab::Quests => quests::pasted_into(a, text),
                Tab::Events => events::pasted_into(a, text),
                _ => (false, a),
            },
        }
    }
}

/// What the mouse does to the dashboard. A click on the tab bar selects a tab;
/// the wheel is the active tab's vertical movement, but never a form's.
pub open spec fn app_mouse(a: AppV, ev: MouseInput) -> (Action, AppV) {
    if a.help {
        match ev {
            MouseInput::Click { .. } => (Action::Nothing, AppV { help: false, ..a }),
            _ => (Action::Nothing, a),
        }
    } else {
        match ev {
            MouseInput::Click { col, row } => if row == 0 && col < a.tab_bar_width && (exists|
                tab: Tab,
            | #[trigger] tab_covers(tab, col as int)) {
                arrived(a, choose|tab: Tab| #[trigger] tab_covers(tab, col as int))
            } else {
                (Action::Nothing, a)
            },
            MouseInput::ScrollUp => if a.modal is Some {
                (Action::Nothing, a)
            } else {
                app_key(a, Input::Up)
            },
            MouseInput::ScrollDown => if a.modal is Some {
                (Action::Nothing, a)
            } else {
                app_key(a, Input::Down)
            },
        }
    }
}

/// The local machine, then every configured remote, each once and in a stable
/// order.
fn machines(config: &Config, machine: &str) -> (r: Vec<String>)
    ensures
        texts(r@) == with_remotes(seq![machine@], config.remotes@),
{
    let mut out: Vec<String> = Vec::new();
    out.push(owned(machine));
    let mut i: usize = 0;
    proof {
        assert(config.remotes@.take(0) =~= Seq::empty());
        assert(texts(out@) =~= seq![machine@]);
    }
    while i < config.remotes.len()
        invariant
            i <= config.remotes.len(),
            texts(out@) == with_remotes(seq![machine@], config.remotes@.take(i as int)),
        decreases config.remotes.len() - i,
    {
        let name = config.remotes[i].name.as_str();
        proof {
            assert(config.remotes@.take(i as int + 1).drop_last() =~= config.remotes@.take(
                i as int,
            ));
        }
        let mut known: bool = false;
        let mut j: usize = 0;
        while j < out.len()
            invariant
                j <= out.len(),
                known <==> exists|k: int| 0 <= k < j && #[trigger] texts(out@)[k] == name@,
            decreases out.len() - j,
        {
            assert(texts(out@)[j as int] == out[j as int]@);
            if same(out[j].as_str(), name) {
                known = true;
            }
            j += 1;
        }
        assert(known == texts(out@).contains(name@)) by {
            if texts(out@).contains(name@) {
                let k = choose|k: int| 0 <= k < texts(out@).len() && texts(out@)[k] == name@;
                assert(0 <= k < out.len() && texts(out@)[k] == name@);
            }
        }
        if !known {
            let ghost before = out@;
            out.push(owned(name));
            proof {
                assert(texts(out@) =~= texts(before).push(name@));
            }
        }
        i += 1;
    }
    proof {
        assert(config.remotes@.take(config.remotes.len() as int) =~= config.remotes@);
    }
    out
}

impl App {
    /// The open form, if there is one, is well formed, and no machine has two
    /// prefixes.
    pub open spec fn wf(&self) -> bool {
        &&& self.modal is Some ==> self.modal->0.form.wf()
        &&& keys_differ(pairs_view(self.remote_tmux@))
    }

    /// A dashboard that has just started.
    pub fn new(config: &Config, machine: &str) -> (r: App)
        ensures
            r.wf(),
            r@ == started(*config, machine@),
    {
        let app = App {
            machine: owned(machine),
            tab: Tab::Quests,
            help: false,
            should_quit: false,
            rows: config.ui.rows,
            mouse: config.ui.mouse,
            tick_secs: if config.ui.tick_local >= 1 {
                config.ui.tick_local
            } else {
                1
            },
            width: 0,
            height: 0,
            tab_bar_width: 0,
            ticks: 0,
            refreshes: 0,
            status: String::new(),
            status_at: 0,
            refresh_error: None,
            remote_note: None,
            remote_tmux: Vec::new(),
            focus_quest: None,
            detail: false,
            modal: None,
            machines: machines(config, machine),
            tmux_prefix: config.tmux.session_prefix.clone(),
            quests: quests::State::new(),
            events: events::State::new(),
        };
        proof {
            assert(pairs_view(app.remote_tmux@) =~= Seq::empty());
        }
        app
    }

    /// Row height for the current width.
    pub fn row_mode(&self) -> (r: RowMode)
        ensures
            r == mode_of(self@),
    {
        layout::row_mode(self.width, self.rows)
    }

    /// The terminal has that size now.
    pub fn set_size(&mut self, width: u16, height: u16)
        ensures
            *final(self) == (App { width, height, ..*old(self) }),
    {
        self.width = width;
        self.height = height;
    }

    /// A tick has passed.
    pub fn tick(&mut self)
        requires
            old(self).ticks < u64::MAX,
        ensures
            *final(self) == (App { ticks: (old(self).ticks + 1) as u64, ..*old(self) }),
    {
        self.ticks = self.ticks + 1;
    }

    /// Global keys first, then the active tab's own. The only way it reaches the
    /// outside world is the [`Action`] it returns.
    pub fn handle(&mut self, input: Input) -> (r: Action)
        requires
            old(self).wf(),
        ensures
            final(self).wf(),
            (r, final(self)@) == app_key(old(self)@, input),
    {
        if self.help {
            return self.handle_help(input);
        }
        let hard_quit = match input {
            Input::Ctrl('c') => true,
            _ => false,
        };
        if self.modal.is_some() {
            if hard_quit {
                return self.quit();
            }
            return self.handle_modal(input);
        }
        if self.capturing() {
            if hard_quit {
                return self.quit();
            }
        } else {
            match self.handle_global(input) {
                Some(action) => {
                    return action;
                },
                None => {},
            }
        }
        match self.tab {
            Tab::Quests => quests::handle(self, input),
            Tab::Events => events::handle(self, input),
            _ => Action::Nothing,
        }
    }

    /// A bracketed paste. Text, and only ever text: nothing here can return an
    /// [`Action`]. With no capture on screen a paste is dropped outright rather
    /// than replayed as keys. Returns whether anything on screen changed.
    pub fn paste(&mut self, text: &str) -> (r: bool)
        requires
            old(self).wf(),
        ensures
            final(self).wf(),
            (r, final(self)@) == app_paste(old(self)@, text@),
    {
        if self.help {
            return false;
        }
        match self.modal.take() {
            Some(modal) => {
                let mut modal = modal;
                let changed = modal.form.paste(text);
                self.modal = Some(modal);
                changed
            },
            None => match self.tab {
                Tab::Quests => quests::paste(self, text),
                Tab::Events => events::paste(self, text),
                _ => false,
            },
        }
    }

    /// While the overlay is up it swallows everything: only closing it and a
    /// hard quit get through.
    fn handle_help(&mut self, input: Input) -> (r: Action)
        requires
            old(self).wf(),
        ensures
            final(self).wf(),
            (r, final(self)@) == help_key(old(self)@, input),
    {
        match input {
            Input::Ctrl('c') => self.quit(),
            Input::Char('?') | Input::Char('q') | Input::Esc | Input::Enter => {
                self.help = false;
                Action::Nothing
            },
            _ => Action::Nothing,
        }
    }

    /// The open form's key. Submitting leaves through an [`Action`].
    fn handle_modal(&mut self, input: Input) -> (r: Action)
        requires
            old(self).wf(),
        ensures
            final(self).wf(),
            (r, final(self)@) == modal_key(old(self)@, input),
    {
        match self.modal.take() {
            Some(modal) => {
                let mut modal = modal;
                let outcome = modal.form.handle(input);
                self.modal = Some(modal);
                match outcome {
                    Outcome::Editing => Action::Nothing,
                    Outcome::Cancel => {
                        self.dismiss();
                        Action::Nothing
                    },
                    Outcome::Submit => Action::Submit,
                }
            },
            None => Action::Nothing,
        }
    }

    /// Puts a form up. The hint goes in the status bar as well as in the box: on
    /// a terminal too short for the box the bar is what says the keyboard is
    /// captured.
    pub fn open(&mut self, prompt: Prompt, form: Form)
        requires
            old(self).wf(),
            form.wf(),
        ensures
            final(self).wf(),
            final(self)@ == opened(old(self)@, prompt@, form@),
    {
        let message = concat3(form.title_text(), " \u{b7} ", form.hint_text());
        self.say(message.as_str());
        self.modal = Some(Modal { prompt, form });
    }

    /// Takes the form down and gives the bar back.
    pub fn dismiss(&mut self)
        requires
            old(self).wf(),
        ensures
            final(self).wf(),
            final(self)@ == dismissed(old(self)@),
    {
        if self.modal.is_some() {
            self.modal = None;
            self.status = String::new();
        }
    }

    /// `None` when the key is the active tab's business rather than the shell's.
    /// An out-of-range digit is still the shell's to swallow.
    fn handle_global(&mut self, input: Input) -> (r: Option<Action>)
        requires
            old(self).wf(),
        ensures
            final(self).wf(),
            match shell_key(old(self)@, input) {
                Some((action, a)) => r == Some(action) && final(self)@ == a,
                None => r is None && *final(self) == *old(self),
            },
    {
        match input {
            Input::Ctrl('c') | Input::Char('q') => Some(self.quit()),
            Input::Char('?') => {
                self.help = true;
                Some(Action::Nothing)
            },
            Input::Tab => {
                let tab = self.tab.next();
                Some(self.arrive(tab))
            },
            Input::BackTab => {
                let tab = self.tab.prev();
                Some(self.arrive(tab))
            },
            Input::Char('x') => {
                self.refreshes = self.refreshes.saturating_add(1);
                Some(Action::Refresh)
            },
            _ => match input.digit() {
                Some(d) => match Tab::from_digit(d) {
                    Some(tab) => Some(self.arrive(tab)),
                    None => Some(Action::Nothing),
                },
                None => None,
            },
        }
    }

    /// Brings a tab to the front and says whether it has to reload first.
    fn arrive(&mut self, tab: Tab) -> (r: Action)
        requires
            old(self).wf(),
        ensures
            final(self).wf(),
            (r, final(self)@) == arrived(old(self)@, tab),
    {
        if self.tab == tab {
            return Action::Nothing;
        }
        self.select(tab);
        if self.needs_reload() {
            Action::Refresh
        } else {
            Action::Nothing
        }
    }

    /// Whether the active tab's rows were fetched under a filter that is no
    /// longer in force.
    pub fn needs_reload(&self) -> (r: bool)
        ensures
            r == owes_reload(self@),
    {
        match self.tab {
            Tab::Events => self.events.stale(),
            _ => false,
        }
    }

    /// Whether something is reading raw text rather than commands. True only
    /// while that something is on screen.
    pub fn capturing(&self) -> (r: bool)
        ensures
            r == is_capturing(self@),
    {
        if self.modal.is_some() {
            return true;
        }
        match self.tab {
            Tab::Quests => self.quests.capturing(),
            Tab::Events => self.events.capturing(),
            _ => false,
        }
    }

    /// One-line feedback for the next redraw.
    pub fn say(&mut self, message: &str)
        ensures
            final(self)@ == saying(old(self)@, message@),
            final(self).modal == old(self).modal,
            *final(self) == (App {
                status: final(self).status,
                status_at: old(self).ticks,
                ..*old(self)
            }),
    {
        self.status = owned(message);
        self.status_at = self.ticks;
    }

    /// The message to show, or `None` once it has had its time.
    pub fn current_status(&self) -> (r: Option<&str>)
        ensures
            match r {
                Some(text) => status_shown(self@) == Some(text@),
                None => status_shown(self@) is None,
            },
    {
        if self.status.as_str().is_empty() {
            return None;
        }
        if self.capturing() {
            return Some(self.status.as_str());
        }
        let secs: u64 = if self.tick_secs >= 1 {
            self.tick_secs
        } else {
            1
        };
        let ttl: u64 = if STATUS_SECS / secs >= 1 {
            STATUS_SECS / secs
        } else {
            1
        };
        let age: u64 = if self.ticks >= self.status_at {
            self.ticks - self.status_at
        } else {
            0
        };
        if age < ttl {
            Some(self.status.as_str())
        } else {
            None
        }
    }

    /// The active tab's filter indicator, empty when nothing is filtered.
    pub fn filters(&self) -> (r: String)
        ensures
            r@ == filters_shown(self@),
    {
        match self.tab {
            Tab::Quests => self.quests.filters(),
            Tab::Events => self.events.filters(),
            _ => String::new(),
        }
    }

    /// Everything that leads the status bar: the filters, and what the remotes
    /// had to complain about. Modes rather than messages, so they outlive a
    /// keypress.
    pub fn chips(&self) -> (r: String)
        ensures
            r@ == chips_shown(self@),
    {
        let filters = self.filters();
        match &self.remote_note {
            Some(note) => if filters.as_str().is_empty() {
                note.clone()
            } else {
                concat3(filters.as_str(), " \u{b7} ", note.as_str())
            },
            None => filters,
        }
    }

    /// The one way to change tabs: every tab switch goes through the capture
    /// teardown, not only the ones the tab bar drives.
    pub fn select(&mut self, tab: Tab)
        requires
            old(self).wf(),
        ensures
            final(self).wf(),
            final(self)@ == on_tab(old(self)@, tab),
    {
        if self.tab != tab {
            self.cancel_capture();
            self.tab = tab;
            self.status = String::new();
        }
    }

    /// Gives the keyboard back, whatever was holding it.
    fn cancel_capture(&mut self)
        requires
            old(self).wf(),
        ensures
            final(self).wf(),
            final(self)@ == released(old(self)@),
    {
        self.modal = None;
        match self.tab {
            Tab::Quests => self.quests.cancel_capture(),
            Tab::Events => self.events.cancel_capture(),
            _ => {},
        }
    }

    fn quit(&mut self) -> (r: Action)
        requires
            old(self).wf(),
        ensures
            final(self).wf(),
            (r, final(self)@) == quitting(old(self)@),
    {
        self.should_quit = true;
        Action::Quit
    }

    /// Mouse. A click on the tab bar selects a tab; a click dismisses the help
    /// overlay, and a wheel scroll over it must not. A wheel nudge over an open
    /// box would step its focus with nothing about the gesture saying so, so it
    /// does nothing.
    pub fn handle_mouse(&mut self, ev: MouseInput) -> (r: Action)
        requires
            old(self).wf(),
        ensures
            final(self).wf(),
            (r, final(self)@) == app_mouse(old(self)@, ev),
    {
        if self.help {
            match ev {
                MouseInput::Click { .. } => {
                    self.help = false;
                },
                _ => {},
            }
            return Action::Nothing;
        }
        match ev {
            MouseInput::Click { col, row } => {
                if row != 0 {
                    return Action::Nothing;
                }
                let hit = tab_at_column(col, self.tab_bar_width);
                proof {
                    if let Some(tab) = hit {
                        let chosen = choose|tab: Tab| #[trigger] tab_covers(tab, col as int);
                        assert(tab_covers(tab, col as int));
                        assert(chosen == tab);
                    }
                }
                match hit {
                    Some(tab) => self.arrive(tab),
                    None => Action::Nothing,
                }
            },
            MouseInput::ScrollUp => if self.modal.is_some() {
                Action::Nothing
            } else {
                self.handle(Input::Up)
            },
            MouseInput::ScrollDown => if self.modal.is_some() {
                Action::Nothing
            } else {
                self.handle(Input::Down)
            },
        }
    }
}

/// A form put up, with its hint on the bar.
pub open spec fn opened(a: AppV, prompt: PromptV, form: FormV) -> AppV {
    AppV {
        modal: Some(ModalV { prompt, form }),
        ..saying(a, form.title + " \u{b7} "@ + form.hint)
    }
}

} // verus!
