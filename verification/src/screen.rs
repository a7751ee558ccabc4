//! The whole screen as a value: which lines go where.
use vstd::prelude::*;
use vstd::string::*;
use crate::app::{
    chips_shown, help_rows, is_capturing, mode_of, own_help, rows_view, shell_help, status_shown,
    tab_at, tab_label, tab_layout, App, AppV, Tab, TAB_SEP,
};
use crate::event_lines;
use crate::event_lines::{cell, cell_text, empty_tail, event_panel, tail_lines, KIND_COLS};
use crate::events;
use crate::events::{event_selected, events_on_screen};
use crate::form;
use crate::form::{drawing, DrawingV, Drawing};
use crate::json::json_pretty;
use crate::layout::{
    bands, box_inside, centered, chrome, cut_right, display_width, indented, inset, inside,
    listing_and_panel, middle, mode_lines, panel_split, split_right, truncate, truncated, width,
    Rect,
};
use crate::list::places;
use crate::model::{EventRow, QuestRow};
use crate::paint::{line, lines_view, Line, LineV, Style};
use crate::quest_lines;
use crate::quest_lines::{bold, dim, empty_text, listing_text, panel_text, plain, put};
use crate::quests;
use crate::quests::{on_screen, selection, selection_events, selection_links};
use crate::text::{concat, concat3, decimal, number, owned, pad_left, padded_left};

verus! {

// ------------------------------------------------------------------ the header

/// The tab bar and the machine label.
#[derive(Debug, Clone, PartialEq, Eq)]
pub struct Header {
    pub bar: Rect,
    /// What the bar is made of, from left to right.
    pub spans: Vec<Line>,
    pub right: Rect,
    pub machine: Line,
}

/// A header as a value.
pub ghost struct HeaderV {
    pub bar: Rect,
    pub spans: Seq<LineV>,
    pub right: Rect,
    pub machine: LineV,
}

impl View for Header {
    type V = HeaderV;

    open spec fn view(&self) -> HeaderV {
        HeaderV {
            bar: self.bar,
            spans: lines_view(self.spans@),
            right: self.right,
            machine: self.machine@,
        }
    }
}

/// A width as a number of cells.
pub open spec fn cells(w: int) -> u16 {
    (w % 0x1_0000) as u16
}

fn cells_of(w: usize) -> (r: u16)
    ensures
        r == cells(w as int),
{
    (w % 0x1_0000) as u16
}

/// The first `n` tabs of the bar, the one in front marked.
pub open spec fn bar_spans(front: Tab, n: int) -> Seq<LineV>
    decreases n,
{
    if n <= 0 {
        seq![plain(" "@)]
    } else {
        bar_spans(front, n - 1) + (if n > 1 {
            seq![dim(TAB_SEP@)]
        } else {
            Seq::empty()
        }) + seq![
            LineV {
                text: tab_label(tab_at(n - 1)),
                style: if tab_at(n - 1) == front {
                    Style::Selected
                } else {
                    Style::Plain
                },
            },
        ]
    }
}

/// The header of a dashboard.
pub open spec fn header_of(a: AppV, area: Rect) -> HeaderV {
    let machine = " "@ + a.machine + " "@;
    let (bar, right) = cut_right(area, cells(display_width(machine) as int));
    HeaderV {
        bar,
        spans: bar_spans(a.tab, 4),
        right,
        machine: bold(truncated(machine, right.width as int)),
    }
}

/// Lays the header out, and records how wide the tab bar is: hit-testing must
/// agree with what is drawn.
pub fn render_header(app: &mut App, area: Rect) -> (r: Option<Header>)
    requires
        old(app).wf(),
        area.x + area.width <= u16::MAX,
    ensures
        final(app).wf(),
        if area.height == 0 {
            r is None && final(app)@ == (AppV { tab_bar_width: 0, ..old(app)@ })
        } else {
            r is Some && r->0@ == header_of(old(app)@, area) && final(app)@ == (AppV {
                tab_bar_width: r->0@.bar.width,
                ..old(app)@
            })
        },
{
    if area.height == 0 {
        app.tab_bar_width = 0;
        return None;
    }
    let machine = concat3(" ", app.machine.as_str(), " ");
    let (bar, right) = split_right(area, cells_of(width(machine.as_str())));
    app.tab_bar_width = bar.width;
    let slots = tab_layout();
    let mut spans: Vec<Line> = Vec::new();
    put(&mut spans, owned(" "), Style::Plain);
    proof {
        assert(lines_view(spans@) =~= bar_spans(app.tab, 0));
    }
    let mut i: usize = 0;
    while i < slots.len()
        invariant
            i <= slots.len() == 4,
            forall|j: int|
                0 <= j < 4 ==> (#[trigger] slots[j]).0 == tab_at(j) && slots[j].1@ == tab_label(
                    tab_at(j),
                ),
            lines_view(spans@) == bar_spans(app.tab, i as int),
        decreases 4 - i,
    {
        let ghost before = lines_view(spans@);
        if i > 0 {
            put(&mut spans, owned(TAB_SEP), Style::Dim);
        }
        let front = slots[i].0 == app.tab;
        let style = if front {
            Style::Selected
        } else {
            Style::Plain
        };
        put(&mut spans, slots[i].1.clone(), style);
        proof {
            assert(slots[i as int].0 == tab_at(i as int));
            assert(lines_view(spans@) =~= bar_spans(app.tab, i as int + 1));
        }
        i += 1;
    }
    Some(
        Header {
            bar,
            spans,
            right,
            machine: line(truncate(machine.as_str(), right.width as usize), Style::Bold),
        },
    )
}

// -------------------------------------------------------------- the status bar

/// The keys worth advertising.
pub open spec fn hint_text(a: AppV) -> Seq<char> {
    if a.modal is Some {
        " Tab field \u{b7} \u{2190}\u{2192} choose \u{b7} Esc cancel "@
    } else {
        match a.tab {
            Tab::Quests => " ? help \u{b7} o attach \u{b7} b brief \u{b7} q quit "@,
            Tab::Sessions => " ? help \u{b7} \u{23ce} enter \u{b7} p peek \u{b7} q quit "@,
            Tab::Events => " ? help \u{b7} / kind \u{b7} G tail \u{b7} q quit "@,
            Tab::Templates => " ? help \u{b7} \u{23ce} run \u{b7} X export \u{b7} q quit "@,
        }
    }
}

/// The keys worth advertising. With a form up the shell's letters are text, so
/// they are not advertised.
pub fn hint(app: &App) -> (r: &'static str)
    ensures
        r@ == hint_text(app@),
{
    if app.modal.is_some() {
        return " Tab field \u{b7} \u{2190}\u{2192} choose \u{b7} Esc cancel ";
    }
    match app.tab {
        Tab::Quests => " ? help \u{b7} o attach \u{b7} b brief \u{b7} q quit ",
        Tab::Sessions => " ? help \u{b7} \u{23ce} enter \u{b7} p peek \u{b7} q quit ",
        Tab::Events => " ? help \u{b7} / kind \u{b7} G tail \u{b7} q quit ",
        Tab::Templates => " ? help \u{b7} \u{23ce} run \u{b7} X export \u{b7} q quit ",
    }
}

/// What the bar says when nothing else has something to say.
pub open spec fn idle_text(a: AppV) -> Seq<char> {
    " "@ + a.machine + " \u{b7} rows "@ + decimal(mode_lines(mode_of(a)) as nat) + " \u{b7} tick "@
        + decimal(a.tick_secs as nat) + "s \u{b7} mouse "@ + if a.mouse {
        "on"@
    } else {
        "off"@
    }
}

/// What the bar says: a capture owns its head, a failed reload outranks
/// feedback, and the machine's own line comes last.
pub open spec fn message_text(a: AppV) -> Seq<char> {
    match (a.refresh_error, status_shown(a)) {
        (Some(e), Some(status)) => if is_capturing(a) {
            " "@ + status + " \u{b7} "@ + e
        } else {
            " "@ + e
        },
        (Some(e), None) => " "@ + e,
        (None, Some(status)) => " "@ + status,
        (None, None) => idle_text(a),
    }
}

/// The left of the status bar: the chips lead, whatever else is said.
pub open spec fn left_text(a: AppV) -> Seq<char> {
    if chips_shown(a).len() == 0 {
        message_text(a)
    } else {
        " ["@ + chips_shown(a) + "]"@ + message_text(a)
    }
}

/// The status bar.
#[derive(Debug, Clone, PartialEq, Eq)]
pub struct StatusBar {
    pub left: Rect,
    pub message: Line,
    pub right: Rect,
    pub hint: Line,
}

/// A status bar as a value.
pub ghost struct StatusV {
    pub left: Rect,
    pub message: LineV,
    pub right: Rect,
    pub hint: LineV,
}

impl View for StatusBar {
    type V = StatusV;

    open spec fn view(&self) -> StatusV {
        StatusV {
            left: self.left,
            message: self.message@,
            right: self.right,
            hint: self.hint@,
        }
    }
}

/// The status bar of a dashboard.
pub open spec fn status_of(a: AppV, area: Rect) -> StatusV {
    let (left, right) = cut_right(area, cells(display_width(hint_text(a)) as int));
    StatusV {
        left,
        message: plain(truncated(left_text(a), left.width as int)),
        right,
        hint: dim(truncated(hint_text(a), right.width as int)),
    }
}

fn message(app: &App) -> (r: String)
    ensures
        r@ == message_text(app@),
{
    match (&app.refresh_error, app.current_status()) {
        (Some(e), Some(status)) => if app.capturing() {
            let mut text = concat3(" ", status, " \u{b7} ");
            text.append(e.as_str());
            text
        } else {
            concat(" ", e.as_str())
        },
        (Some(e), None) => concat(" ", e.as_str()),
        (None, Some(status)) => concat(" ", status),
        (None, None) => {
            let mut text = concat3(" ", app.machine.as_str(), " \u{b7} rows ");
            text.append(number(app.row_mode().lines() as u64).as_str());
            text.append(" \u{b7} tick ");
            text.append(number(app.tick_secs).as_str());
            text.append("s \u{b7} mouse ");
            text.append(
                if app.mouse {
                    "on"
                } else {
                    "off"
                },
            );
            text
        },
    }
}

/// Lays the status bar out.
pub fn render_status(app: &App, area: Rect) -> (r: Option<StatusBar>)
    requires
        area.x + area.width <= u16::MAX,
    ensures
        if area.height == 0 {
            r is None
        } else {
            r is Some && r->0@ == status_of(app@, area)
        },
{
    if area.height == 0 {
        return None;
    }
    let keys = hint(app);
    let said = message(app);
    let chips = app.chips();
    let text = if chips.as_str().is_empty() {
        said
    } else {
        let mut text = concat3(" [", chips.as_str(), "]");
        text.append(said.as_str());
        text
    };
    let (left, right) = split_right(area, cells_of(width(keys)));
    Some(
        StatusBar {
            left,
            message: line(truncate(text.as_str(), left.width as usize), Style::Plain),
            right,
            hint: line(truncate(keys, right.width as usize), Style::Dim),
        },
    )
}

// -------------------------------------------------------------------- the body

/// Lines in an area.
#[derive(Debug, Clone, PartialEq, Eq)]
pub struct Listing {
    pub area: Rect,
    pub lines: Vec<Line>,
}

/// A bordered box with one column of padding.
#[derive(Debug, Clone, PartialEq, Eq)]
pub struct Panel {
    pub area: Rect,
    pub title: String,
    pub lines: Vec<Line>,
    /// Long lines are wrapped rather than cut.
    pub wrap: bool,
}

/// A tab's own area.
#[derive(Debug, Clone, PartialEq, Eq)]
pub struct Body {
    pub list: Option<Listing>,
    pub panel: Option<Panel>,
}

/// A listing as a value.
pub ghost struct ListingV {
    pub area: Rect,
    pub lines: Seq<LineV>,
}

/// A panel as a value.
pub ghost struct PanelV {
    pub area: Rect,
    pub title: Seq<char>,
    pub lines: Seq<LineV>,
    pub wrap: bool,
}

/// A body as a value.
pub ghost struct BodyV {
    pub list: Option<ListingV>,
    pub panel: Option<PanelV>,
}

impl View for Body {
    type V = BodyV;

    open spec fn view(&self) -> BodyV {
        BodyV {
            list: match self.list {
                Some(l) => Some(ListingV { area: l.area, lines: lines_view(l.lines@) }),
                None => None,
            },
            panel: match self.panel {
                Some(p) => Some(
                    PanelV {
                        area: p.area,
                        title: p.title@,
                        lines: lines_view(p.lines@),
                        wrap: p.wrap,
                    },
                ),
                None => None,
            },
        }
    }
}

/// The most lines an area is taken to have room for.
pub open spec fn capacity_of(area: Rect) -> int {
    if area.height >= 1 {
        area.height as int
    } else {
        1
    }
}

/// The quest listing in an area.
pub open spec fn quest_list(a: AppV, area: Rect) -> ListingV {
    if on_screen(a.quests).len() == 0 {
        ListingV { area: indented(area), lines: empty_text(a.quests) }
    } else {
        ListingV {
            area,
            lines: listing_text(a.quests, mode_of(a), area.width as int, capacity_of(area)),
        }
    }
}

/// A line cut to a number of columns.
pub open spec fn clipped(l: LineV, columns: int) -> LineV {
    LineV { text: truncated(l.text, columns), style: l.style }
}

/// The first lines of some, each cut to the box they go into.
pub open spec fn boxed_lines(all: Seq<LineV>, columns: int, height: int) -> Seq<LineV> {
    if columns == 0 || height == 0 {
        Seq::empty()
    } else {
        let n = if all.len() <= height {
            all.len() as int
        } else {
            height
        };
        Seq::new(n as nat, |i: int| clipped(all[i], columns))
    }
}

/// The panel of the selected quest.
pub open spec fn quest_panel(a: AppV, row: QuestRow, area: Rect) -> PanelV {
    let (columns, height) = box_inside(area);
    PanelV {
        area,
        title: " "@ + row.view.quest.slug@ + " "@,
        lines: boxed_lines(
            panel_text(row, selection_links(a.quests), selection_events(a.quests)),
            columns,
            height,
        ),
        wrap: false,
    }
}

/// The Quests tab in its area.
pub open spec fn quests_body(a: AppV, area: Rect) -> BodyV {
    if area.height == 0 || area.width == 0 {
        BodyV { list: None, panel: None }
    } else {
        let chosen = selection(a.quests);
        let (list, panel) = listing_and_panel(area, a.detail && chosen is Some);
        BodyV {
            list: match list {
                Some(l) => Some(quest_list(a, l)),
                None => None,
            },
            panel: match panel {
                Some(p) => Some(quest_panel(a, chosen->0, p)),
                None => None,
            },
        }
    }
}

/// The tail in an area.
pub open spec fn event_list(a: AppV, area: Rect) -> ListingV {
    if events_on_screen(a.events).len() == 0 {
        ListingV { area: indented(area), lines: empty_tail(a.events) }
    } else {
        ListingV {
            area,
            lines: tail_lines(
                a.events,
                area.width as int,
                capacity_of(area),
                mode_lines(mode_of(a)) as int,
            ),
        }
    }
}

/// The panel of the selected event.
pub open spec fn event_box(row: EventRow, area: Rect) -> PanelV {
    let (columns, height) = box_inside(area);
    PanelV {
        area,
        title: " "@ + cell_text(row.event.kind@, KIND_COLS as int) + " "@,
        lines: if columns == 0 || height == 0 {
            Seq::empty()
        } else {
            event_panel(
                row,
                match row.event.payload {
                    Some(raw) => json_pretty(raw@),
                    None => None,
                },
            )
        },
        wrap: true,
    }
}

/// The Events tab in its area.
pub open spec fn events_body(a: AppV, area: Rect) -> BodyV {
    if area.height == 0 || area.width == 0 {
        BodyV { list: None, panel: None }
    } else {
        let chosen = event_selected(a.events);
        let (list, panel) = listing_and_panel(area, a.detail && chosen is Some);
        BodyV {
            list: match list {
                Some(l) => Some(event_list(a, l)),
                None => None,
            },
            panel: match panel {
                Some(p) => Some(event_box(chosen->0, p)),
                None => None,
            },
        }
    }
}

/// The active tab in its area. The size that was just recorded is the one this
/// frame is drawn for, so the selection is settled first.
pub open spec fn body_of(a: AppV, area: Rect) -> (AppV, BodyV) {
    if area.height == 0 || area.width == 0 {
        (a, BodyV { list: None, panel: None })
    } else {
        match a.tab {
            Tab::Quests => (
                quests::view_settled(a),
                quests_body(quests::view_settled(a), area),
            ),
            Tab::Events => (
                events::view_settled(a),
                events_body(events::view_settled(a), area),
            ),
            _ => (a, BodyV { list: None, panel: None }),
        }
    }
}

fn clip_all(all: &Vec<Line>, columns: usize, height: usize) -> (r: Vec<Line>)
    ensures
        lines_view(r@) == boxed_lines(lines_view(all@), columns as int, height as int),
{
    let mut out: Vec<Line> = Vec::new();
    if columns == 0 || height == 0 {
        proof {
            assert(lines_view(out@) =~= Seq::empty());
        }
        return out;
    }
    let n: usize = if all.len() <= height {
        all.len()
    } else {
        height
    };
    let ghost whole = boxed_lines(lines_view(all@), columns as int, height as int);
    let mut i: usize = 0;
    while i < n
        invariant
            i <= n <= all.len(),
            whole.len() == n,
            forall|j: int|
                0 <= j < n ==> #[trigger] whole[j] == clipped(all[j]@, columns as int),
            lines_view(out@) =~= whole.take(i as int),
        decreases n - i,
    {
        assert(whole[i as int] == clipped(all[i as int]@, columns as int));
        put(&mut out, truncate(all[i].text.as_str(), columns), all[i].style);
        i += 1;
    }
    proof {
        assert(whole.take(n as int) =~= whole);
    }
    out
}

fn capacity(area: Rect) -> (r: usize)
    ensures
        r == capacity_of(area),
{
    if area.height >= 1 {
        area.height as usize
    } else {
        1
    }
}

fn render_quests(app: &App, area: Rect) -> (r: Body)
    requires
        area.x + area.width <= u16::MAX,
        area.width > 0,
        area.height > 0,
    ensures
        r@ == quests_body(app@, area),
{
    let chosen = app.quests.selected_row();
    let (list, panel) = panel_split(area, app.detail && chosen.is_some());
    let list = match list {
        Some(l) => {
            let visible = app.quests.visible();
            proof {
                assert(places(visible@).len() == visible.len());
            }
            if visible.len() == 0 {
                Some(Listing { area: inset(l), lines: quest_lines::empty_lines(&app.quests) })
            } else {
                Some(
                    Listing {
                        area: l,
                        lines: quest_lines::listing_lines(
                            &app.quests,
                            app.row_mode(),
                            l.width as usize,
                            capacity(l),
                        ),
                    },
                )
            }
        },
        None => None,
    };
    let panel = match (panel, chosen) {
        (Some(p), Some(row)) => {
            let (columns, height) = inside(p);
            let no_links: Vec<crate::model::Link> = Vec::new();
            let no_events: Vec<crate::model::Event> = Vec::new();
            let links = match app.quests.selected_links() {
                Some(links) => links.as_slice(),
                None => {
                    proof {
                        assert(no_links@ =~= selection_links(app@.quests));
                    }
                    no_links.as_slice()
                },
            };
            let log = match app.quests.selected_events() {
                Some(log) => log.as_slice(),
                None => {
                    proof {
                        assert(no_events@ =~= selection_events(app@.quests));
                    }
                    no_events.as_slice()
                },
            };
            let all = quest_lines::panel_lines(row, links, log);
            Some(
                Panel {
                    area: p,
                    title: concat3(" ", row.view.quest.slug.as_str(), " "),
                    lines: clip_all(&all, columns as usize, height as usize),
                    wrap: false,
                },
            )
        },
        _ => None,
    };
    Body { list, panel }
}

fn render_events(app: &App, area: Rect) -> (r: Body)
    requires
        area.x + area.width <= u16::MAX,
        area.width > 0,
        area.height > 0,
    ensures
        r@ == events_body(app@, area),
{
    let chosen = app.events.selected_row();
    let (list, panel) = panel_split(area, app.detail && chosen.is_some());
    let list = match list {
        Some(l) => {
            let visible = app.events.visible();
            proof {
                assert(places(visible@).len() == visible.len());
            }
            if visible.len() == 0 {
                Some(Listing { area: inset(l), lines: event_lines::empty_lines(&app.events) })
            } else {
                Some(
                    Listing {
                        area: l,
                        lines: event_lines::listing_lines(
                            &app.events,
                            l.width as usize,
                            capacity(l),
                            app.row_mode().lines() as usize,
                        ),
                    },
                )
            }
        },
        None => None,
    };
    let panel = match (panel, chosen) {
        (Some(p), Some(row)) => {
            let (columns, height) = inside(p);
            let lines = if columns == 0 || height == 0 {
                let none: Vec<Line> = Vec::new();
                proof {
                    assert(lines_view(none@) =~= Seq::empty());
                }
                none
            } else {
                event_lines::panel_lines(row)
            };
            Some(
                Panel {
                    area: p,
                    title: concat3(" ", cell(row.event.kind.as_str(), KIND_COLS).as_str(), " "),
                    lines,
                    wrap: true,
                },
            )
        },
        _ => None,
    };
    Body { list, panel }
}

/// Lays the active tab out.
pub fn render_body(app: &mut App, area: Rect) -> (r: Body)
    requires
        old(app).wf(),
        area.x + area.width <= u16::MAX,
    ensures
        final(app).wf(),
        (final(app)@, r@) == body_of(old(app)@, area),
{
    if area.height == 0 || area.width == 0 {
        return Body { list: None, panel: None };
    }
    match app.tab {
        Tab::Quests => {
            quests::settle_view(app);
            render_quests(app, area)
        },
        Tab::Events => {
            events::settle_view(app);
            render_events(app, area)
        },
        _ => Body { list: None, panel: None },
    }
}

// ---------------------------------------------------------------- the overlay

/// The help overlay.
#[derive(Debug, Clone, PartialEq, Eq)]
pub struct HelpBox {
    pub area: Rect,
    /// Each row's keys, right-aligned, and what they do.
    pub rows: Vec<(String, String)>,
}

/// The rows of the overlay for a tab.
pub open spec fn overlay_rows(tab: Tab) -> Seq<(Seq<char>, Seq<char>)> {
    shell_help() + if own_help(tab).len() == 0 {
        Seq::empty()
    } else {
        seq![(""@, ""@)] + own_help(tab)
    }
}

/// The widest keys of some rows.
pub open spec fn key_columns(rows: Seq<(Seq<char>, Seq<char>)>) -> usize
    decreases rows.len(),
{
    if rows.len() == 0 {
        0
    } else {
        let before = key_columns(rows.drop_last());
        let w = display_width(rows.last().0);
        if w > before {
            w
        } else {
            before
        }
    }
}

/// `a + b`, and no more than fits.
pub open spec fn plus(a: int, b: int) -> int {
    if a + b > usize::MAX {
        usize::MAX as int
    } else {
        a + b
    }
}

/// The widest of some rows, with their keys that wide.
pub open spec fn row_columns(rows: Seq<(Seq<char>, Seq<char>)>, keys: int) -> int
    decreases rows.len(),
{
    if rows.len() == 0 {
        0
    } else {
        let before = row_columns(rows.drop_last(), keys);
        let w = plus(plus(keys, 2), display_width(rows.last().1) as int);
        if w > before {
            w
        } else {
            before
        }
    }
}

/// The rows with their keys right-aligned.
pub open spec fn aligned(rows: Seq<(Seq<char>, Seq<char>)>, keys: int) -> Seq<
    (Seq<char>, Seq<char>),
> {
    Seq::new(rows.len(), |i: int| (padded_left(rows[i].0, keys), rows[i].1))
}

/// Where the overlay for a tab goes, and its rows.
pub open spec fn help_of(tab: Tab, area: Rect) -> (Rect, Seq<(Seq<char>, Seq<char>)>) {
    let rows = overlay_rows(tab);
    let keys = key_columns(rows) as int;
    (
        middle(
            area,
            cells(plus(row_columns(rows, keys), 4)),
            cells(rows.len() as int + 2),
        ),
        aligned(rows, keys),
    )
}

/// Lays the help overlay out.
pub fn render_help(tab: Tab, area: Rect) -> (r: HelpBox)
    requires
        area.x + area.width <= u16::MAX,
        area.y + area.height <= u16::MAX,
    ensures
        (r.area, crate::table::pairs_view(r.rows@)) == help_of(tab, area),
{
    let rows = help_rows(tab);
    let ghost all = rows_view(rows@);
    let mut keys: usize = 0;
    let mut i: usize = 0;
    proof {
        assert(all.take(0) =~= Seq::empty());
        assert(all == overlay_rows(tab));
    }
    while i < rows.len()
        invariant
            i <= rows.len(),
            all == rows_view(rows@),
            keys == key_columns(all.take(i as int)),
        decreases rows.len() - i,
    {
        let w = width(rows[i].0);
        proof {
            assert(all.take(i as int + 1).drop_last() =~= all.take(i as int));
            assert(all[i as int].0 == rows[i as int].0@);
        }
        if w > keys {
            keys = w;
        }
        i += 1;
    }
    proof {
        assert(all.take(all.len() as int) =~= all);
    }
    let mut columns: usize = 0;
    let mut out: Vec<(String, String)> = Vec::new();
    let mut i: usize = 0;
    while i < rows.len()
        invariant
            i <= rows.len(),
            all == rows_view(rows@),
            columns == row_columns(all.take(i as int), keys as int),
            crate::table::pairs_view(out@) =~= aligned(all, keys as int).take(i as int),
        decreases rows.len() - i,
    {
        let w = keys.saturating_add(2).saturating_add(width(rows[i].1));
        proof {
            assert(all.take(i as int + 1).drop_last() =~= all.take(i as int));
            assert(all[i as int] == (rows[i as int].0@, rows[i as int].1@));
        }
        if w > columns {
            columns = w;
        }
        let ghost before = out@;
        let pair = (pad_left(rows[i].0, keys), owned(rows[i].1));
        out.push(pair);
        proof {
            assert(crate::table::pairs_view(out@) =~= crate::table::pairs_view(before).push(
                (pair.0@, pair.1@),
            ));
        }
        i += 1;
    }
    proof {
        assert(all.take(all.len() as int) =~= all);
        assert(aligned(all, keys as int).take(all.len() as int) =~= aligned(all, keys as int));
        assert(rows.len() == all.len());
        assert(overlay_rows(tab).len() <= 30);
    }
    let place = centered(
        area,
        cells_of(columns.saturating_add(4)),
        cells_of(rows.len() + 2),
    );
    HelpBox { area: place, rows: out }
}

// ------------------------------------------------------------------ all of it

/// Everything on screen.
#[derive(Debug, Clone, PartialEq, Eq)]
pub struct Screen {
    pub header: Option<Header>,
    pub body: Body,
    pub status: Option<StatusBar>,
    /// The open form, over everything but the overlay.
    pub modal: Option<Drawing>,
    pub help: Option<HelpBox>,
}

/// A screen as a value.
pub ghost struct ScreenV {
    pub header: Option<HeaderV>,
    pub body: BodyV,
    pub status: Option<StatusV>,
    pub modal: Option<DrawingV>,
    pub help: Option<(Rect, Seq<(Seq<char>, Seq<char>)>)>,
}

impl View for Screen {
    type V = ScreenV;

    open spec fn view(&self) -> ScreenV {
        ScreenV {
            header: match self.header {
                Some(h) => Some(h@),
                None => None,
            },
            body: self.body@,
            status: match self.status {
                Some(s) => Some(s@),
                None => None,
            },
            modal: match self.modal {
                Some(d) => Some(d@),
                None => None,
            },
            help: match self.help {
                Some(h) => Some((h.area, crate::table::pairs_view(h.rows@))),
                None => None,
            },
        }
    }
}

/// The dashboard once a frame is laid out: it knows its size and how wide its
/// tab bar is, and its selection is in view.
pub open spec fn framed(a: AppV, area: Rect) -> AppV {
    let b = AppV { width: area.width, height: area.height, ..a };
    let c = AppV {
        tab_bar_width: if bands(area).header.height == 0 {
            0
        } else {
            header_of(b, bands(area).header).bar.width
        },
        ..b
    };
    body_of(c, bands(area).body).0
}

/// Everything on screen.
pub open spec fn screen_of(a: AppV, area: Rect) -> ScreenV {
    let b = AppV { width: area.width, height: area.height, ..a };
    let c = AppV {
        tab_bar_width: if bands(area).header.height == 0 {
            0
        } else {
            header_of(b, bands(area).header).bar.width
        },
        ..b
    };
    let (d, body) = body_of(c, bands(area).body);
    ScreenV {
        header: if bands(area).header.height == 0 {
            None
        } else {
            Some(header_of(b, bands(area).header))
        },
        body,
        status: if bands(area).status.height == 0 {
            None
        } else {
            Some(status_of(d, bands(area).status))
        },
        modal: match a.modal {
            Some(m) => Some(drawing(area, m.form)),
            None => None,
        },
        help: if a.help {
            Some(help_of(a.tab, area))
        } else {
            None
        },
    }
}

/// Lays out the whole screen. The form goes over the whole frame whatever tab is
/// behind it: "the keyboard is captured" and "there is a box on screen" are the
/// same condition.
pub fn render(app: &mut App, area: Rect) -> (r: Screen)
    requires
        old(app).wf(),
        area.x + area.width <= u16::MAX,
        area.y + area.height <= u16::MAX,
    ensures
        final(app).wf(),
        final(app)@ == framed(old(app)@, area),
        r@ == screen_of(old(app)@, area),
{
    app.set_size(area.width, area.height);
    let parts = chrome(area);
    let header = render_header(app, parts.header);
    let body = render_body(app, parts.body);
    let status = render_status(app, parts.status);
    let modal = match &app.modal {
        Some(m) => Some(form::render(area, &m.form)),
        None => None,
    };
    let help = if app.help {
        Some(render_help(app.tab, area))
    } else {
        None
    };
    Screen { header, body, status, modal, help }
}

/// While the keyboard is captured something on screen says so: an open form is
/// drawn, and an open box is the status bar.
pub proof fn a_capture_is_never_invisible(a: AppV, area: Rect)
    requires
        area.width > 0,
        area.height > 0,
        is_capturing(a),
        a.status.len() > 0,
    ensures
        a.modal is Some ==> screen_of(a, area).modal is Some && !(screen_of(a, area).modal->0
            is Nothing),
        status_shown(a) == Some(a.status),
{
}

} // verus!
