//! What each screen of the TUI shows: the text of every line, with the
//! colour and weight of each part. The terminal drawing itself happens
//! elsewhere; this module decides the content.
use vstd::prelude::*;
use crate::text::{byte_len, byte_len_exceeds, byte_prefix, byte_prefix_chars, chars_of, is_boundary, string_of, decimal, pad_left, pad_right, push_decimal, push_padded_left, push_padded_right, push_signed_decimal, signed_decimal};
use crate::tui::{count_selected, count_selected_where, App, DeletionResult, Mode};
use crate::order::SortOrder;
use crate::clock::{format_ymd, utc_representable, utc_timestamp_valid, ymd_text};
use crate::branch::Branch;

verus! {

/// The colour of a piece of text.
#[derive(Debug, Clone, Copy, PartialEq, Eq, Structural)]
pub enum Tone {
    /// The terminal's default colour
    Default,
    Green,
    Yellow,
    Red,
    Cyan,
    Blue,
    Gray,
    White,
}

/// A piece of text in one colour, bold or not.
#[derive(Debug)]
pub struct StyledSpan {
    pub text: String,
    pub tone: Tone,
    pub bold: bool,
}

/// The model of a span: its text, colour and weight.
pub type SpanV = (Seq<char>, Tone, bool);

impl View for StyledSpan {
    type V = SpanV;

    open spec fn view(&self) -> SpanV {
        (self.text@, self.tone, self.bold)
    }
}

/// One line of the screen: spans side by side.
#[derive(Debug)]
pub struct StyledLine {
    pub spans: Vec<StyledSpan>,
}

impl View for StyledLine {
    type V = Seq<SpanV>;

    open spec fn view(&self) -> Seq<SpanV> {
        self.spans@.map_values(|s: StyledSpan| s@)
    }
}

/// The model of `lines`.
pub open spec fn lines_view(lines: Seq<StyledLine>) -> Seq<Seq<SpanV>> {
    lines.map_values(|l: StyledLine| l@)
}

/// A span.
pub fn span(text: String, tone: Tone, bold: bool) -> (s: StyledSpan)
    ensures
        s@ == (text@, tone, bold),
{
    StyledSpan { text, tone, bold }
}

/// A span of literal text.
pub fn lit(text: &str, tone: Tone, bold: bool) -> (s: StyledSpan)
    ensures
        s@ == (text@, tone, bold),
{
    StyledSpan { text: String::from_str(text), tone, bold }
}

/// A line of one span.
pub fn single(s: StyledSpan) -> (l: StyledLine)
    ensures
        l@ == seq![s@],
{
    let mut spans: Vec<StyledSpan> = Vec::new();
    spans.push(s);
    let l = StyledLine { spans };
    assert(l@ =~= seq![s@]);
    l
}

/// A line of two spans.
pub fn pair(a: StyledSpan, b: StyledSpan) -> (l: StyledLine)
    ensures
        l@ == seq![a@, b@],
{
    let mut spans: Vec<StyledSpan> = Vec::new();
    spans.push(a);
    spans.push(b);
    let l = StyledLine { spans };
    assert(l@ =~= seq![a@, b@]);
    l
}

/// A line of three spans.
pub fn triple(a: StyledSpan, b: StyledSpan, c: StyledSpan) -> (l: StyledLine)
    ensures
        l@ == seq![a@, b@, c@],
{
    let mut spans: Vec<StyledSpan> = Vec::new();
    spans.push(a);
    spans.push(b);
    spans.push(c);
    let l = StyledLine { spans };
    assert(l@ =~= seq![a@, b@, c@]);
    l
}

/// An empty line.
pub open spec fn blank_spec() -> Seq<SpanV> {
    seq![(""@, Tone::Default, false)]
}

/// An empty line (as `Line::from("")`).
pub fn blank() -> (l: StyledLine)
    ensures
        l@ == blank_spec(),
{
    single(lit("", Tone::Default, false))
}

/// Appends `line` to `lines`.
pub fn push_line(lines: &mut Vec<StyledLine>, line: StyledLine)
    ensures
        lines_view(final(lines)@) == lines_view(old(lines)@).push(line@),
{
    let ghost before = lines@;
    lines.push(line);
    assert(lines_view(lines@) =~= lines_view(before).push(line@));
}

// ── Help overlay ────────────────────────────────────────────────────

/// A help line: the key right-aligned in 12 columns, then its description.
pub open spec fn help_line_spec(key: Seq<char>, desc: Seq<char>) -> Seq<SpanV> {
    seq![("  "@ + pad_left(key, 12), Tone::Yellow, false), ("  "@ + desc, Tone::White, false)]
}

/// Build a single help line with key and description.
pub fn help_line(key: &str, desc: &str) -> (l: StyledLine)
    ensures
        l@ == help_line_spec(key@, desc@),
{
    let mut k = String::from_str("  ");
    push_padded_left(&mut k, key, 12);
    let mut d = String::from_str("  ");
    d.append(desc);
    pair(span(k, Tone::Yellow, false), span(d, Tone::White, false))
}

/// A section heading of the help overlay.
pub open spec fn help_heading_spec(title: Seq<char>) -> Seq<SpanV> {
    seq![(title, Tone::Cyan, true)]
}

/// The lines of the help overlay.
pub open spec fn help_spec() -> Seq<Seq<SpanV>> {
    seq![
        help_heading_spec(" Navigation"@),
        help_line_spec("j / Down"@, "Move down"@),
        help_line_spec("k / Up"@, "Move up"@),
        blank_spec(),
        help_heading_spec(" Selection"@),
        help_line_spec("Space"@, "Toggle selection"@),
        help_line_spec("a"@, "Select all merged"@),
        help_line_spec("A"@, "Select all (force mode)"@),
        help_line_spec("n"@, "Deselect all"@),
        blank_spec(),
        help_heading_spec(" Actions"@),
        help_line_spec("d"@, "Delete selected"@),
        help_line_spec("q / Esc"@, "Quit"@),
        blank_spec(),
        help_heading_spec(" Filtering"@),
        help_line_spec("/"@, "Search filter"@),
        help_line_spec("s"@, "Cycle sort order"@),
        help_line_spec("m"@, "Toggle merged filter"@),
        help_line_spec("l"@, "Toggle local filter"@),
        help_line_spec("R"@, "Toggle remote filter"@),
        blank_spec(),
        seq![(" Use --force to select unmerged branches"@, Tone::Gray, false)],
    ]
}

/// The lines of the help overlay.
pub fn help_lines() -> (lines: Vec<StyledLine>)
    ensures
        lines_view(lines@) == help_spec(),
{
    let mut lines: Vec<StyledLine> = Vec::new();
    push_line(&mut lines, single(lit(" Navigation", Tone::Cyan, true)));
    push_line(&mut lines, help_line("j / Down", "Move down"));
    push_line(&mut lines, help_line("k / Up", "Move up"));
    push_line(&mut lines, blank());
    push_line(&mut lines, single(lit(" Selection", Tone::Cyan, true)));
    push_line(&mut lines, help_line("Space", "Toggle selection"));
    push_line(&mut lines, help_line("a", "Select all merged"));
    push_line(&mut lines, help_line("A", "Select all (force mode)"));
    push_line(&mut lines, help_line("n", "Deselect all"));
    push_line(&mut lines, blank());
    push_line(&mut lines, single(lit(" Actions", Tone::Cyan, true)));
    push_line(&mut lines, help_line("d", "Delete selected"));
    push_line(&mut lines, help_line("q / Esc", "Quit"));
    push_line(&mut lines, blank());
    push_line(&mut lines, single(lit(" Filtering", Tone::Cyan, true)));
    push_line(&mut lines, help_line("/", "Search filter"));
    push_line(&mut lines, help_line("s", "Cycle sort order"));
    push_line(&mut lines, help_line("m", "Toggle merged filter"));
    push_line(&mut lines, help_line("l", "Toggle local filter"));
    push_line(&mut lines, help_line("R", "Toggle remote filter"));
    push_line(&mut lines, blank());
    push_line(&mut lines, single(lit(" Use --force to select unmerged branches", Tone::Gray, false)));
    assert(lines_view(lines@) =~= help_spec());
    lines
}

/// `a - b`, or 0 when `b > a` (`saturating_sub`).
pub open spec fn sat_sub(a: int, b: int) -> int {
    if a >= b {
        a - b
    } else {
        0
    }
}

/// Where the help overlay goes in a `width` x `height` area, as
/// (x, y, width, height): at most 50 x 22, 2 cells clear of each edge where
/// the area allows, centred.
pub fn help_overlay_rect(area_width: u16, area_height: u16) -> (r: (u16, u16, u16, u16))
    ensures
        r.2 == if 50 <= sat_sub(area_width as int, 4) {
            50
        } else {
            sat_sub(area_width as int, 4)
        },
        r.3 == if 22 <= sat_sub(area_height as int, 4) {
            22
        } else {
            sat_sub(area_height as int, 4)
        },
        r.0 == sat_sub(area_width as int, r.2 as int) / 2,
        r.1 == sat_sub(area_height as int, r.3 as int) / 2,
{
    let w_room = area_width.saturating_sub(4);
    let h_room = area_height.saturating_sub(4);
    let width: u16 = if 50 <= w_room {
        50
    } else {
        w_room
    };
    let height: u16 = if 22 <= h_room {
        22
    } else {
        h_room
    };
    let x = area_width.saturating_sub(width) / 2;
    let y = area_height.saturating_sub(height) / 2;
    (x, y, width, height)
}

// ── Scrolling ───────────────────────────────────────────────────────

/// The first line that holds row `cursor`, or 0 when none does.
pub open spec fn cursor_line_of(rows: Seq<Option<usize>>, cursor: usize) -> int {
    if exists|k: int| 0 <= k < rows.len() && rows[k] == Some(cursor) {
        choose|k: int|
            0 <= k < rows.len() && rows[k] == Some(cursor) && forall|j: int|
                0 <= j < k ==> rows[j] != Some(cursor)
    } else {
        0
    }
}

/// The scroll offset for a cursor on line `line`: unchanged while that
/// line is on screen, else just far enough to bring it to the top or the
/// bottom.
pub open spec fn next_scroll_offset(line: int, current_offset: int, list_height: int) -> int {
    if line < current_offset {
        line
    } else if line >= current_offset + list_height {
        sat_sub(line, list_height - 1)
    } else {
        current_offset
    }
}

/// Compute the scroll offset so the cursor row stays visible: `rows[k]`
/// is the list row shown on line `k` (`None` for a section heading).
pub fn compute_scroll_offset(
    rows: &Vec<Option<usize>>,
    cursor: usize,
    current_offset: usize,
    list_height: usize,
) -> (offset: usize)
    requires
        list_height > 0,
    ensures
        offset == next_scroll_offset(cursor_line_of(rows@, cursor), current_offset as int, list_height as int),
{
    // Find the line index of the cursor
    let mut cursor_line: usize = 0;
    let mut k: usize = 0;
    let mut found = false;
    while k < rows.len()
        invariant
            k <= rows@.len(),
            !found ==> forall|j: int| 0 <= j < k ==> rows@[j] != Some(cursor),
            !found ==> cursor_line == 0,
            found ==> cursor_line < rows@.len() && rows@[cursor_line as int] == Some(cursor)
                && forall|j: int| 0 <= j < cursor_line ==> rows@[j] != Some(cursor),
        decreases rows@.len() - k,
    {
        if !found && rows[k] == Some(cursor) {
            cursor_line = k;
            found = true;
        }
        k = k + 1;
    }
    proof {
        let line = cursor_line_of(rows@, cursor);
        if found {
            let c = choose|c: int|
                0 <= c < rows@.len() && rows@[c] == Some(cursor) && forall|j: int|
                    0 <= j < c ==> rows@[j] != Some(cursor);
            assert(c == cursor_line as int) by {
                if c < cursor_line {
                } else if c > cursor_line {
                }
            }
        }
    }
    if cursor_line < current_offset {
        // Cursor is above the visible area
        cursor_line
    } else if cursor_line - current_offset >= list_height {
        // Cursor is below the visible area
        cursor_line.saturating_sub(list_height - 1)
    } else {
        current_offset
    }
}

/// The scroll offset keeps the cursor's line on screen: it lies in
/// `offset .. offset + list_height`.
pub proof fn lemma_scroll_keeps_cursor_visible(line: int, current_offset: int, list_height: int)
    requires
        0 <= line,
        0 <= current_offset,
        list_height > 0,
    ensures
        next_scroll_offset(line, current_offset, list_height) <= line < next_scroll_offset(
            line,
            current_offset,
            list_height,
        ) + list_height,
{
}

} // verus!

verus! {

// ── Browse mode: header ─────────────────────────────────────────────

/// The label of a sort order.
pub open spec fn sort_label(o: SortOrder) -> Seq<char> {
    match o {
        SortOrder::Age => "Age"@,
        SortOrder::Name => "Name"@,
        SortOrder::Status => "Status"@,
    }
}

/// `"{visible} of {total} branches"` when some are hidden, else `"{total} branches"`.
pub open spec fn branch_count_text(visible: nat, total: nat) -> Seq<char> {
    if visible < total {
        decimal(visible) + " of "@ + decimal(total) + " branches"@
    } else {
        decimal(total) + " branches"@
    }
}

/// `names` joined with `", "`.
pub open spec fn join_comma(names: Seq<Seq<char>>) -> Seq<char>
    decreases names.len(),
{
    if names.len() == 0 {
        seq![]
    } else if names.len() == 1 {
        names[0]
    } else {
        join_comma(names.drop_last()) + ", "@ + names.last()
    }
}

/// The names of the active filters, in the order merged, local, remote.
pub open spec fn active_filters(merged: bool, local: bool, remote: bool) -> Seq<Seq<char>> {
    (if merged { seq!["merged"@] } else { seq![] }) + (if local { seq!["local"@] } else { seq![] }) + (
    if remote {
        seq!["remote"@]
    } else {
        seq![]
    })
}

/// The header line of the browse screen.
pub open spec fn header_spec(app: &App) -> Seq<SpanV> {
    let filters = active_filters(app.filter_merged_only, app.filter_local_only, app.filter_remote_only);
    seq![
        (" deadbranch clean"@, Tone::Default, true),
        (" \u{2500}\u{2500} "@ + app.default_branch@ + " \u{2500}\u{2500} "@ + branch_count_text(
            app.visible@.len(),
            app.all_branches@.len(),
        ), Tone::Gray, false),
    ] + (if filters.len() > 0 {
        seq![("  ["@ + join_comma(filters) + "]"@, Tone::Cyan, false)]
    } else {
        seq![]
    }) + (if app.sort_order != SortOrder::Age {
        seq![("  sort:"@ + sort_label(app.sort_order), Tone::Gray, false)]
    } else {
        seq![]
    }) + (if app.mode == Mode::Filter {
        seq![
            ("  filter: "@, Tone::Yellow, false),
            (app.search_query@, Tone::White, false),
            ("\u{2588}"@, Tone::Yellow, false),
        ]
    } else if app.search_query@.len() > 0 {
        seq![("  /"@ + app.search_query@, Tone::Gray, false)]
    } else {
        seq![]
    })
}

/// Appends `span` to `spans`.
fn push_span(spans: &mut Vec<StyledSpan>, s: StyledSpan)
    ensures
        final(spans)@.map_values(|x: StyledSpan| x@) == old(spans)@.map_values(|x: StyledSpan| x@).push(s@),
{
    let ghost before = spans@;
    spans.push(s);
    assert(spans@.map_values(|x: StyledSpan| x@) =~= before.map_values(|x: StyledSpan| x@).push(s@));
}

/// Top-of-screen line: title, default branch, branch count, active
/// filters, sort order and search text.
pub fn header_line(app: &App) -> (line: StyledLine)
    ensures
        line@ == header_spec(app),
{
    let total = app.all_branches.len();
    let visible = app.visible.len();
    let mut count = String::new();
    if visible < total {
        push_decimal(&mut count, visible as u64);
        count.append(" of ");
        push_decimal(&mut count, total as u64);
        count.append(" branches");
    } else {
        push_decimal(&mut count, total as u64);
        count.append(" branches");
    }
    assert(count@ =~= branch_count_text(visible as nat, total as nat));
    let mut title = String::from_str(" \u{2500}\u{2500} ");
    title.append(app.default_branch.as_str());
    title.append(" \u{2500}\u{2500} ");
    title.append(count.as_str());
    let mut spans: Vec<StyledSpan> = Vec::new();
    push_span(&mut spans, lit(" deadbranch clean", Tone::Default, true));
    push_span(&mut spans, span(title, Tone::Gray, false));
    let ghost base = spans@.map_values(|x: StyledSpan| x@);

    // Active filters
    let ghost names = active_filters(app.filter_merged_only, app.filter_local_only, app.filter_remote_only);
    let mut joined = String::new();
    let mut n: usize = 0;
    let ghost mut parts: Seq<Seq<char>> = seq![];
    if app.filter_merged_only {
        joined.append("merged");
        n = n + 1;
        proof { parts = parts.push("merged"@); }
    }
    assert(joined@ == join_comma(parts));
    if app.filter_local_only {
        if n > 0 {
            joined.append(", ");
        }
        joined.append("local");
        n = n + 1;
        proof {
            assert(parts.push("local"@).drop_last() =~= parts);
            parts = parts.push("local"@);
        }
    }
    assert(joined@ =~= join_comma(parts));
    if app.filter_remote_only {
        if n > 0 {
            joined.append(", ");
        }
        joined.append("remote");
        n = n + 1;
        proof {
            assert(parts.push("remote"@).drop_last() =~= parts);
            parts = parts.push("remote"@);
        }
    }
    assert(joined@ =~= join_comma(parts));
    assert(parts =~= names);
    if n > 0 {
        let mut f = String::from_str("  [");
        f.append(joined.as_str());
        f.append("]");
        push_span(&mut spans, span(f, Tone::Cyan, false));
    }
    let ghost with_filters = spans@.map_values(|x: StyledSpan| x@);

    // Sort order
    if app.sort_order != SortOrder::Age {
        let mut s = String::from_str("  sort:");
        s.append(app.sort_order.label());
        push_span(&mut spans, span(s, Tone::Gray, false));
    }
    let ghost with_sort = spans@.map_values(|x: StyledSpan| x@);

    // Filter mode: show query
    if app.mode == Mode::Filter {
        push_span(&mut spans, lit("  filter: ", Tone::Yellow, false));
        push_span(&mut spans, span(app.search_query.clone(), Tone::White, false));
        push_span(&mut spans, lit("\u{2588}", Tone::Yellow, false));
    } else if !app.search_query.as_str().is_empty() {
        let mut s = String::from_str("  /");
        s.append(app.search_query.as_str());
        push_span(&mut spans, span(s, Tone::Gray, false));
    }
    let line = StyledLine { spans };
    assert(line@ =~= header_spec(app));
    line
}

} // verus!

verus! {

// ── Browse mode: status bar ─────────────────────────────────────────

/// The key-binding hints on the status bar.
pub open spec fn hints_spec(mode: Mode) -> Seq<SpanV> {
    if mode == Mode::Filter {
        seq![
            (" Enter"@, Tone::Cyan, false),
            (" apply  "@, Tone::Gray, false),
            ("Esc"@, Tone::Cyan, false),
            (" clear  "@, Tone::Gray, false),
        ]
    } else {
        seq![
            (" j/k"@, Tone::Cyan, false),
            (" move  "@, Tone::Gray, false),
            ("Space"@, Tone::Cyan, false),
            (" select  "@, Tone::Gray, false),
            ("a"@, Tone::Cyan, false),
            (" merged  "@, Tone::Gray, false),
            ("d"@, Tone::Cyan, false),
            (" delete  "@, Tone::Gray, false),
            ("/"@, Tone::Cyan, false),
            (" filter  "@, Tone::Gray, false),
            ("s"@, Tone::Cyan, false),
            (" sort  "@, Tone::Gray, false),
            ("?"@, Tone::Cyan, false),
            (" help  "@, Tone::Gray, false),
            ("q"@, Tone::Cyan, false),
            (" quit"@, Tone::Gray, false),
        ]
    }
}

/// Line 1 of the status bar: keybinding hints
pub fn hints_line(mode: Mode) -> (line: StyledLine)
    ensures
        line@ == hints_spec(mode),
{
    let mut spans: Vec<StyledSpan> = Vec::new();
    if mode == Mode::Filter {
        push_span(&mut spans, lit(" Enter", Tone::Cyan, false));
        push_span(&mut spans, lit(" apply  ", Tone::Gray, false));
        push_span(&mut spans, lit("Esc", Tone::Cyan, false));
        push_span(&mut spans, lit(" clear  ", Tone::Gray, false));
    } else {
        push_span(&mut spans, lit(" j/k", Tone::Cyan, false));
        push_span(&mut spans, lit(" move  ", Tone::Gray, false));
        push_span(&mut spans, lit("Space", Tone::Cyan, false));
        push_span(&mut spans, lit(" select  ", Tone::Gray, false));
        push_span(&mut spans, lit("a", Tone::Cyan, false));
        push_span(&mut spans, lit(" merged  ", Tone::Gray, false));
        push_span(&mut spans, lit("d", Tone::Cyan, false));
        push_span(&mut spans, lit(" delete  ", Tone::Gray, false));
        push_span(&mut spans, lit("/", Tone::Cyan, false));
        push_span(&mut spans, lit(" filter  ", Tone::Gray, false));
        push_span(&mut spans, lit("s", Tone::Cyan, false));
        push_span(&mut spans, lit(" sort  ", Tone::Gray, false));
        push_span(&mut spans, lit("?", Tone::Cyan, false));
        push_span(&mut spans, lit(" help  ", Tone::Gray, false));
        push_span(&mut spans, lit("q", Tone::Cyan, false));
        push_span(&mut spans, lit(" quit", Tone::Gray, false));
    }
    let line = StyledLine { spans };
    assert(line@ =~= hints_spec(mode));
    line
}

/// Line 2 of the status bar: what is selected.
pub open spec fn selection_spec(app: &App) -> Seq<SpanV> {
    let count = count_selected(app.selected@);
    if count == 0 {
        seq![(" No branches selected"@, Tone::Gray, false)]
    } else {
        seq![(" Selected: "@ + decimal(count) + " branches ("@ + decimal(
            count_selected_where(app.selected@, app.all_branches@, false),
        ) + " local, "@ + decimal(count_selected_where(app.selected@, app.all_branches@, true))
            + " remote)"@, Tone::White, false)]
    }
}

/// Line 2 of the status bar: selection info
pub fn selection_line(app: &App) -> (line: StyledLine)
    requires
        app.wf(),
    ensures
        line@ == selection_spec(app),
{
    let count = app.selected_count();
    if count == 0 {
        single(lit(" No branches selected", Tone::Gray, false))
    } else {
        let local = app.selected_local_count();
        let remote = app.selected_remote_count();
        let mut s = String::from_str(" Selected: ");
        push_decimal(&mut s, count as u64);
        s.append(" branches (");
        push_decimal(&mut s, local as u64);
        s.append(" local, ");
        push_decimal(&mut s, remote as u64);
        s.append(" remote)");
        single(span(s, Tone::White, false))
    }
}

} // verus!

verus! {

// ── Browse mode: branch list ────────────────────────────────────────

/// The name as the list shows it: cut to its first 28 bytes plus `..`
/// when longer than 30 bytes.
pub open spec fn display_name(name: Seq<char>) -> Seq<char> {
    if byte_len(name) > 30 {
        byte_prefix(name, 28) + ".."@
    } else {
        name
    }
}

/// Whether the list can show `b`: a long name is cut on a character
/// boundary, and the commit date is one chrono can represent (elsewhere
/// drawing the list panics).
pub open spec fn row_drawable(b: Branch) -> bool {
    &&& byte_len(b.name@) > 30 ==> is_boundary(b.name@, 28)
    &&& utc_representable(b.last_commit_date as int)
}

/// Whether every visible branch can be shown.
pub open spec fn list_drawable(app: &App) -> bool {
    forall|k: int| 0 <= k < app.visible@.len() ==> row_drawable(#[trigger] app.all_branches@[app.visible@[k] as int])
}

/// The heading above a group of merged or unmerged branches.
pub open spec fn section_heading_spec(merged: bool, force: bool) -> Seq<SpanV> {
    if merged {
        seq![("  MERGED (safe to delete)"@, Tone::Green, true)]
    } else if force {
        seq![("  UNMERGED (review carefully)"@, Tone::Yellow, true)]
    } else {
        seq![("  UNMERGED (use --force to unlock)"@, Tone::Yellow, true)]
    }
}

/// The line for list row `r` (the `r`-th visible branch).
pub open spec fn row_spec(app: &App, r: int) -> Seq<SpanV> {
    let i = app.visible@[r] as int;
    let b = app.all_branches@[i];
    let focused = r == app.cursor;
    let locked = !b.is_merged && !app.force;
    seq![
        if focused {
            (" \u{25b6} "@, Tone::White, false)
        } else {
            ("   "@, Tone::Default, false)
        },
        if locked {
            ("\u{2591}\u{2591}"@, Tone::Gray, false)
        } else if app.selected@[i] {
            ("[x]"@, Tone::Green, false)
        } else {
            ("[ ]"@, Tone::Gray, false)
        },
        (" "@ + pad_right(display_name(b.name@), 30), if locked {
            Tone::Gray
        } else {
            Tone::White
        }, !locked && focused),
        (pad_left(signed_decimal(b.age_days as int), 4) + "d"@, Tone::Gray, false),
        if b.is_merged {
            (" merged  "@, Tone::Green, false)
        } else {
            (" unmerged"@, Tone::Yellow, false)
        },
        if b.is_remote {
            (" remote"@, Tone::Blue, false)
        } else {
            (" local "@, Tone::Cyan, false)
        },
        ("  "@ + ymd_text(b.last_commit_date), Tone::Gray, false),
    ]
}

/// The lines for the first `k` visible branches: each group of merged or
/// unmerged branches gets a heading (row `None`), then one line per branch
/// (row `Some(r)`).
pub open spec fn rows_spec(app: &App, k: int) -> Seq<(Option<usize>, Seq<SpanV>)>
    decreases k,
{
    if k <= 0 {
        seq![]
    } else {
        let b = app.all_branches@[app.visible@[k - 1] as int];
        let heading = k == 1 || app.all_branches@[app.visible@[k - 2] as int].is_merged != b.is_merged;
        rows_spec(app, k - 1) + (if heading {
            seq![(None::<usize>, section_heading_spec(b.is_merged, app.force))]
        } else {
            seq![]
        }) + seq![(Some((k - 1) as usize), row_spec(app, k - 1))]
    }
}

/// A line of the branch list and the list row it shows (`None` for a
/// group heading).
#[derive(Debug)]
pub struct ListRow {
    pub row: Option<usize>,
    pub line: StyledLine,
}

/// The model of `rows`.
pub open spec fn rows_view(rows: Seq<ListRow>) -> Seq<(Option<usize>, Seq<SpanV>)> {
    rows.map_values(|r: ListRow| (r.row, r.line@))
}

/// The name as the list shows it.
fn display_name_string(name: &String) -> (s: String)
    requires
        byte_len(name@) > 30 ==> is_boundary(name@, 28),
    ensures
        s@ == display_name(name@),
{
    let chars = chars_of(name.as_str());
    if byte_len_exceeds(&chars, 30) {
        let head = byte_prefix_chars(&chars, 28).unwrap();
        let mut s = string_of(&head);
        s.append("..");
        s
    } else {
        name.clone()
    }
}

/// The line of list row `r`.
fn row_line(app: &App, r: usize) -> (line: StyledLine)
    requires
        app.wf(),
        r < app.visible@.len(),
        row_drawable(app.all_branches@[app.visible@[r as int] as int]),
    ensures
        line@ == row_spec(app, r as int),
{
    let idx = app.visible[r];
    let branch = &app.all_branches[idx];
    let is_focused = r == app.cursor;
    let is_locked = !branch.is_merged && !app.force;
    let is_selected = app.selected[idx];

    let cursor_span = if is_focused {
        lit(" \u{25b6} ", Tone::White, false)
    } else {
        lit("   ", Tone::Default, false)
    };
    let checkbox_span = if is_locked {
        lit("\u{2591}\u{2591}", Tone::Gray, false)
    } else if is_selected {
        lit("[x]", Tone::Green, false)
    } else {
        lit("[ ]", Tone::Gray, false)
    };
    let name_tone = if is_locked {
        Tone::Gray
    } else {
        Tone::White
    };
    let display = display_name_string(&branch.name);
    let mut name_text = String::from_str(" ");
    push_padded_right(&mut name_text, display.as_str(), 30);
    let name_span = span(name_text, name_tone, !is_locked && is_focused);

    let mut age_digits = String::new();
    push_signed_decimal(&mut age_digits, branch.age_days);
    let mut age_text = String::new();
    push_padded_left(&mut age_text, age_digits.as_str(), 4);
    age_text.append("d");
    let age_span = span(age_text, Tone::Gray, false);

    let status_span = if branch.is_merged {
        lit(" merged  ", Tone::Green, false)
    } else {
        lit(" unmerged", Tone::Yellow, false)
    };
    let type_span = if branch.is_remote {
        lit(" remote", Tone::Blue, false)
    } else {
        lit(" local ", Tone::Cyan, false)
    };
    let date = format_ymd(branch.last_commit_date);
    let mut date_text = String::from_str("  ");
    date_text.append(date.as_str());
    let date_span = span(date_text, Tone::Gray, false);

    let mut spans: Vec<StyledSpan> = Vec::new();
    push_span(&mut spans, cursor_span);
    push_span(&mut spans, checkbox_span);
    push_span(&mut spans, name_span);
    push_span(&mut spans, age_span);
    push_span(&mut spans, status_span);
    push_span(&mut spans, type_span);
    push_span(&mut spans, date_span);
    let line = StyledLine { spans };
    assert(line@ =~= row_spec(app, r as int));
    line
}

/// The heading line of a merged or unmerged group.
fn section_heading(merged: bool, force: bool) -> (line: StyledLine)
    ensures
        line@ == section_heading_spec(merged, force),
{
    if merged {
        single(lit("  MERGED (safe to delete)", Tone::Green, true))
    } else if force {
        single(lit("  UNMERGED (review carefully)", Tone::Yellow, true))
    } else {
        single(lit("  UNMERGED (use --force to unlock)", Tone::Yellow, true))
    }
}

/// The lines of the branch list, each with the list row it shows.
pub fn branch_rows(app: &App) -> (rows: Vec<ListRow>)
    requires
        app.wf(),
        list_drawable(app),
    ensures
        rows_view(rows@) == rows_spec(app, app.visible@.len() as int),
{
    let mut rows: Vec<ListRow> = Vec::new();
    let mut last_was_merged: Option<bool> = None;
    let mut r: usize = 0;
    while r < app.visible.len()
        invariant
            app.wf(),
            list_drawable(app),
            r <= app.visible@.len(),
            rows_view(rows@) == rows_spec(app, r as int),
            r == 0 ==> last_was_merged is None,
            r > 0 ==> last_was_merged == Some(app.all_branches@[app.visible@[r - 1] as int].is_merged),
        decreases app.visible@.len() - r,
    {
        let idx = app.visible[r];
        let merged = app.all_branches[idx].is_merged;
        let ghost before = rows@;
        let heading = match last_was_merged {
            Some(m) => m != merged,
            None => true,
        };
        if heading {
            rows.push(ListRow { row: None, line: section_heading(merged, app.force) });
            last_was_merged = Some(merged);
        }
        let ghost mid = rows@;
        assert(row_drawable(app.all_branches@[app.visible@[r as int] as int]));
        rows.push(ListRow { row: Some(r), line: row_line(app, r) });
        proof {
            if heading {
                assert(rows_view(rows@) =~= rows_view(before) + seq![(None::<usize>, section_heading_spec(merged, app.force))]
                    + seq![(Some(r), row_spec(app, r as int))]);
            } else {
                assert(rows_view(rows@) =~= rows_view(before) + seq![(Some(r), row_spec(app, r as int))]);
            }
            assert(rows_spec(app, r + 1) =~= rows_view(rows@));
        }
        last_was_merged = Some(merged);
        r = r + 1;
    }
    rows
}

/// The message the list shows when no branch is visible.
pub open spec fn empty_list_spec(app: &App) -> Seq<SpanV> {
    if app.search_query@.len() == 0 {
        seq![("  No branches match current filters"@, Tone::Gray, false)]
    } else {
        seq![("  No branches match search query"@, Tone::Gray, false)]
    }
}

/// The message the list shows when no branch is visible.
pub fn empty_list_line(app: &App) -> (line: StyledLine)
    ensures
        line@ == empty_list_spec(app),
{
    if app.search_query.as_str().is_empty() {
        single(lit("  No branches match current filters", Tone::Gray, false))
    } else {
        single(lit("  No branches match search query", Tone::Gray, false))
    }
}

} // verus!

verus! {

// ── Confirm mode ────────────────────────────────────────────────────

/// The selected positions whose branch is merged (`merged`) or unmerged,
/// in order.
pub open spec fn group_positions(sel: Seq<bool>, bs: Seq<Branch>, merged: bool) -> Seq<int>
    decreases sel.len(),
{
    if sel.len() == 0 {
        seq![]
    } else {
        let i = sel.len() - 1;
        let prev = group_positions(sel.drop_last(), bs, merged);
        if sel.last() && bs[i].is_merged == merged {
            prev.push(i)
        } else {
            prev
        }
    }
}

/// How many of the branches at `pos` are remote.
pub open spec fn remote_in(bs: Seq<Branch>, pos: Seq<int>) -> nat
    decreases pos.len(),
{
    if pos.len() == 0 {
        0
    } else {
        remote_in(bs, pos.drop_last()) + if bs[pos.last()].is_remote {
            1nat
        } else {
            0nat
        }
    }
}

/// The first 7 bytes of the SHA, or all of it when shorter.
pub open spec fn short_sha(sha: Seq<char>) -> Seq<char> {
    if byte_len(sha) >= 7 {
        byte_prefix(sha, 7)
    } else {
        sha
    }
}

/// The details after a branch name in the confirm list.
pub open spec fn branch_details(b: Branch) -> Seq<char> {
    "  "@ + (if b.is_remote {
        "remote"@
    } else {
        "local"@
    }) + "  "@ + signed_decimal(b.age_days as int) + "d  "@ + short_sha(b.last_commit_sha@)
}

/// One branch in the confirm list.
pub open spec fn confirm_item_spec(b: Branch, merged: bool) -> Seq<SpanV> {
    if merged {
        seq![("    \u{2713} "@, Tone::Green, false), (b.name@, Tone::White, false), (branch_details(b), Tone::Gray, false)]
    } else {
        seq![("    \u{2717} "@, Tone::Red, false), (b.name@, Tone::Yellow, false), (branch_details(b), Tone::Gray, false)]
    }
}

/// The heading of the safe or the unmerged group, with its size.
pub open spec fn confirm_heading_spec(merged: bool, n: nat) -> Seq<SpanV> {
    if merged {
        seq![("  \u{2713} Safe to delete ("@ + decimal(n) + "):"@, Tone::Green, true)]
    } else {
        seq![("  \u{26a0} Unmerged branches ("@ + decimal(n) + "):"@, Tone::Yellow, true)]
    }
}

/// The lines of one group: nothing when it is empty, else its heading,
/// one line per branch and a blank line.
pub open spec fn confirm_group_spec(bs: Seq<Branch>, pos: Seq<int>, merged: bool) -> Seq<Seq<SpanV>> {
    if pos.len() == 0 {
        seq![]
    } else {
        seq![confirm_heading_spec(merged, pos.len())] + pos.map_values(|i: int| confirm_item_spec(bs[i], merged))
            + seq![blank_spec()]
    }
}

/// The selected positions of merged and of unmerged branches, and how many
/// selected branches are remote.
fn gather_groups(app: &App) -> (r: (Vec<usize>, Vec<usize>, usize))
    requires
        app.wf(),
    ensures
        r.0@.map_values(|u: usize| u as int) == group_positions(app.selected@, app.all_branches@, true),
        r.1@.map_values(|u: usize| u as int) == group_positions(app.selected@, app.all_branches@, false),
        forall|t: int| 0 <= t < r.0@.len() ==> #[trigger] r.0@[t] < app.selected@.len() && app.selected@[r.0@[t] as int],
        forall|t: int| 0 <= t < r.1@.len() ==> #[trigger] r.1@[t] < app.selected@.len() && app.selected@[r.1@[t] as int],
        r.2 == remote_in(app.all_branches@, group_positions(app.selected@, app.all_branches@, true)) + remote_in(
            app.all_branches@,
            group_positions(app.selected@, app.all_branches@, false),
        ),
        r.0@.len() + r.1@.len() <= app.selected@.len(),
{
    let ghost bs = app.all_branches@;
    // Gather selected branches grouped by merge status
    let mut safe: Vec<usize> = Vec::new();
    let mut dangerous: Vec<usize> = Vec::new();
    let mut remote_count: usize = 0;
    let mut i: usize = 0;
    while i < app.selected.len()
        invariant
            app.wf(),
            i <= app.selected@.len(),
            safe@.map_values(|u: usize| u as int) == group_positions(app.selected@.take(i as int), bs, true),
            dangerous@.map_values(|u: usize| u as int) == group_positions(app.selected@.take(i as int), bs, false),
            forall|t: int| 0 <= t < safe@.len() ==> #[trigger] safe@[t] < i && app.selected@[safe@[t] as int],
            forall|t: int| 0 <= t < dangerous@.len() ==> #[trigger] dangerous@[t] < i && app.selected@[dangerous@[t] as int],
            remote_count == remote_in(bs, group_positions(app.selected@.take(i as int), bs, true)) + remote_in(
                bs,
                group_positions(app.selected@.take(i as int), bs, false),
            ),
            remote_count <= i,
            safe@.len() + dangerous@.len() <= i,
            bs == app.all_branches@,
        decreases app.selected@.len() - i,
    {
        assert(app.selected@.take(i + 1).drop_last() =~= app.selected@.take(i as int));
        if app.selected[i] {
            let b = &app.all_branches[i];
            if b.is_merged {
                let ghost before = safe@;
                safe.push(i);
                assert(safe@.map_values(|u: usize| u as int) =~= before.map_values(|u: usize| u as int).push(i as int));
                assert(before.map_values(|u: usize| u as int).push(i as int).drop_last() =~= before.map_values(|u: usize| u as int));
            } else {
                let ghost before = dangerous@;
                dangerous.push(i);
                assert(dangerous@.map_values(|u: usize| u as int) =~= before.map_values(|u: usize| u as int).push(i as int));
                assert(before.map_values(|u: usize| u as int).push(i as int).drop_last() =~= before.map_values(|u: usize| u as int));
            }
            if b.is_remote {
                remote_count = remote_count + 1;
            }
        }
        i = i + 1;
    }
    assert(app.selected@.take(app.selected@.len() as int) =~= app.selected@);
    (safe, dangerous, remote_count)
}

/// The lines of the confirm screen.
pub open spec fn confirm_spec(app: &App) -> Seq<Seq<SpanV>> {
    let bs = app.all_branches@;
    let safe = group_positions(app.selected@, bs, true);
    let dangerous = group_positions(app.selected@, bs, false);
    let total = safe.len() + dangerous.len();
    let remote = remote_in(bs, safe) + remote_in(bs, dangerous);
    confirm_group_spec(bs, safe, true) + confirm_group_spec(bs, dangerous, false) + seq![
        seq![("  "@ + decimal(total) + " branches will be deleted"@ + (if remote > 0 {
            " ("@ + decimal(remote) + " remote)"@
        } else {
            ""@
        }), Tone::White, false)],
        blank_spec(),
        seq![("  A backup will be created automatically"@, Tone::Gray, false)],
        seq![("  Restore with: deadbranch backup restore <branch-name>"@, Tone::Gray, false)],
        blank_spec(),
        if app.needs_strict_confirm() {
            seq![
                ("  Type 'yes' to confirm, Esc to go back: "@, Tone::Yellow, false),
                (app.confirm_input@, Tone::White, false),
                ("\u{2588}"@, Tone::Yellow, false),
            ]
        } else {
            seq![("  Press Enter or y to confirm, Esc to go back"@, Tone::Gray, false)]
        },
    ]
}

/// Whether every selected branch's SHA can be cut to 7 bytes on a
/// character boundary (elsewhere drawing the confirm screen panics).
pub open spec fn confirm_drawable(app: &App) -> bool {
    forall|i: int|
        0 <= i < app.selected@.len() && #[trigger] app.selected@[i] && byte_len(app.all_branches@[i].last_commit_sha@) >= 7
            ==> is_boundary(app.all_branches@[i].last_commit_sha@, 7)
}

/// The short SHA text.
fn short_sha_string(sha: &String) -> (s: String)
    requires
        byte_len(sha@) >= 7 ==> is_boundary(sha@, 7),
    ensures
        s@ == short_sha(sha@),
{
    let chars = chars_of(sha.as_str());
    if byte_len_exceeds(&chars, 6) {
        let head = byte_prefix_chars(&chars, 7).unwrap();
        string_of(&head)
    } else {
        sha.clone()
    }
}

/// One branch line of the confirm list.
fn confirm_item(b: &Branch, merged: bool) -> (line: StyledLine)
    requires
        byte_len(b.last_commit_sha@) >= 7 ==> is_boundary(b.last_commit_sha@, 7),
    ensures
        line@ == confirm_item_spec(*b, merged),
{
    let mut details = String::from_str("  ");
    if b.is_remote {
        details.append("remote");
    } else {
        details.append("local");
    }
    details.append("  ");
    push_signed_decimal(&mut details, b.age_days);
    details.append("d  ");
    let sha = short_sha_string(&b.last_commit_sha);
    details.append(sha.as_str());
    assert(details@ =~= branch_details(*b));
    if merged {
        triple(
            lit("    \u{2713} ", Tone::Green, false),
            span(b.name.clone(), Tone::White, false),
            span(details, Tone::Gray, false),
        )
    } else {
        triple(
            lit("    \u{2717} ", Tone::Red, false),
            span(b.name.clone(), Tone::Yellow, false),
            span(details, Tone::Gray, false),
        )
    }
}

/// Appends the lines of one confirm group.
fn push_confirm_group(lines: &mut Vec<StyledLine>, app: &App, pos: &Vec<usize>, merged: bool)
    requires
        app.wf(),
        confirm_drawable(app),
        forall|t: int| 0 <= t < pos@.len() ==> #[trigger] pos@[t] < app.selected@.len() && app.selected@[pos@[t] as int],
    ensures
        lines_view(final(lines)@) == lines_view(old(lines)@) + confirm_group_spec(
            app.all_branches@,
            pos@.map_values(|u: usize| u as int),
            merged,
        ),
{
    let ghost ipos = pos@.map_values(|u: usize| u as int);
    let ghost start = lines_view(lines@);
    if pos.len() == 0 {
        assert(lines_view(lines@) =~= start + confirm_group_spec(app.all_branches@, ipos, merged));
        return;
    }
    let mut head = String::new();
    if merged {
        head.append("  \u{2713} Safe to delete (");
    } else {
        head.append("  \u{26a0} Unmerged branches (");
    }
    push_decimal(&mut head, pos.len() as u64);
    head.append("):");
    let tone = if merged {
        Tone::Green
    } else {
        Tone::Yellow
    };
    push_line(lines, single(span(head, tone, true)));
    let ghost after_head = lines_view(lines@);
    let mut k: usize = 0;
    while k < pos.len()
        invariant
            k <= pos@.len(),
            app.wf(),
            confirm_drawable(app),
            forall|t: int| 0 <= t < pos@.len() ==> #[trigger] pos@[t] < app.selected@.len() && app.selected@[pos@[t] as int],
            ipos == pos@.map_values(|u: usize| u as int),
            lines_view(lines@) == after_head + ipos.take(k as int).map_values(
                |i: int| confirm_item_spec(app.all_branches@[i], merged),
            ),
        decreases pos@.len() - k,
    {
        let i = pos[k];
        assert(app.selected@[i as int]);
        let ghost before = lines_view(lines@);
        push_line(lines, confirm_item(&app.all_branches[i], merged));
        assert(ipos.take(k + 1) =~= ipos.take(k as int).push(i as int));
        assert(ipos.take(k + 1).map_values(|i: int| confirm_item_spec(app.all_branches@[i], merged))
            =~= ipos.take(k as int).map_values(|i: int| confirm_item_spec(app.all_branches@[i], merged)).push(
            confirm_item_spec(app.all_branches@[i as int], merged),
        ));
        k = k + 1;
    }
    push_line(lines, blank());
    assert(ipos.take(pos@.len() as int) =~= ipos);
    assert(lines_view(lines@) =~= start + confirm_group_spec(app.all_branches@, ipos, merged));
}

/// The lines of the confirm screen: the selected branches grouped by merge
/// status, what will happen, and the prompt.
pub fn confirm_lines(app: &App) -> (lines: Vec<StyledLine>)
    requires
        app.wf(),
        confirm_drawable(app),
    ensures
        lines_view(lines@) == confirm_spec(app),
{
    let (safe, dangerous, remote_count) = gather_groups(app);
    let ghost bs = app.all_branches@;
    let ghost sp = group_positions(app.selected@, bs, true);
    let ghost dp = group_positions(app.selected@, bs, false);
    let mut lines: Vec<StyledLine> = Vec::new();
    assert(lines_view(lines@) =~= Seq::<Seq<SpanV>>::empty());
    // Safe section
    push_confirm_group(&mut lines, app, &safe, true);
    // Dangerous section
    push_confirm_group(&mut lines, app, &dangerous, false);
    assert(lines_view(lines@) =~= confirm_group_spec(bs, sp, true) + confirm_group_spec(bs, dp, false));
    let ghost groups = lines_view(lines@);

    // Summary
    let total = safe.len() + dangerous.len();
    let mut summary = String::from_str("  ");
    push_decimal(&mut summary, total as u64);
    summary.append(" branches will be deleted");
    if remote_count > 0 {
        summary.append(" (");
        push_decimal(&mut summary, remote_count as u64);
        summary.append(" remote)");
    } else {
        summary.append("");
    }
    push_line(&mut lines, single(span(summary, Tone::White, false)));
    push_line(&mut lines, blank());
    push_line(&mut lines, single(lit("  A backup will be created automatically", Tone::Gray, false)));
    push_line(&mut lines, single(lit("  Restore with: deadbranch backup restore <branch-name>", Tone::Gray, false)));
    push_line(&mut lines, blank());

    // Confirmation prompt
    if app.requires_strict_confirm() {
        push_line(
            &mut lines,
            triple(
                lit("  Type 'yes' to confirm, Esc to go back: ", Tone::Yellow, false),
                span(app.confirm_input.clone(), Tone::White, false),
                lit("\u{2588}", Tone::Yellow, false),
            ),
        );
    } else {
        push_line(&mut lines, single(lit("  Press Enter or y to confirm, Esc to go back", Tone::Gray, false)));
    }
    assert(summary@ == "  "@ + decimal((sp.len() + dp.len()) as nat) + " branches will be deleted"@ + (if remote_count > 0 {
            " ("@ + decimal(remote_count as nat) + " remote)"@
        } else {
            ""@
        }));
    assert(lines_view(lines@) =~= confirm_spec(app));
    lines
}

} // verus!

verus! {

// ── Executing mode ──────────────────────────────────────────────────

/// The line for one deletion result: a tick or a cross, the branch name,
/// and the error when there is one.
pub open spec fn result_line_spec(r: DeletionResult) -> Seq<SpanV> {
    seq![
        if r.success {
            ("  \u{2713} "@, Tone::Green, false)
        } else {
            ("  \u{2717} "@, Tone::Red, false)
        },
        (r.branch.name@, Tone::White, false),
    ] + match r.error {
        Some(e) => seq![("  "@ + e@, Tone::Red, false)],
        None => seq![],
    }
}

/// The lines of the executing screen.
pub open spec fn executing_spec(app: &App) -> Seq<Seq<SpanV>> {
    let total = count_selected(app.selected@);
    let completed = app.deletion_results@.len();
    (match app.backup_path {
        Some(p) => seq![seq![("  Backup: "@ + p@, Tone::Gray, false)], blank_spec()],
        None => seq![],
    }) + app.deletion_results@.map_values(|r: DeletionResult| result_line_spec(r)) + (if completed < total {
        seq![blank_spec(), seq![("  "@ + decimal(completed) + " of "@ + decimal(total) + " completed"@, Tone::Gray, false)]]
    } else {
        seq![]
    })
}

/// The line for one deletion result.
fn result_line(r: &DeletionResult) -> (line: StyledLine)
    ensures
        line@ == result_line_spec(*r),
{
    let mut spans: Vec<StyledSpan> = Vec::new();
    if r.success {
        push_span(&mut spans, lit("  \u{2713} ", Tone::Green, false));
    } else {
        push_span(&mut spans, lit("  \u{2717} ", Tone::Red, false));
    }
    push_span(&mut spans, span(r.branch.name.clone(), Tone::White, false));
    match &r.error {
        Some(e) => {
            let mut t = String::from_str("  ");
            t.append(e.as_str());
            push_span(&mut spans, span(t, Tone::Red, false));
        },
        None => {},
    }
    let line = StyledLine { spans };
    assert(line@ =~= result_line_spec(*r));
    line
}

/// The lines of the executing screen: the backup path, one line per
/// finished deletion, and progress while some remain.
pub fn executing_lines(app: &App) -> (lines: Vec<StyledLine>)
    ensures
        lines_view(lines@) == executing_spec(app),
{
    let mut lines: Vec<StyledLine> = Vec::new();
    match &app.backup_path {
        Some(path) => {
            let mut t = String::from_str("  Backup: ");
            t.append(path.as_str());
            push_line(&mut lines, single(span(t, Tone::Gray, false)));
            push_line(&mut lines, blank());
        },
        None => {},
    }
    let ghost start = lines_view(lines@);
    let total = app.selected_count();
    let mut k: usize = 0;
    while k < app.deletion_results.len()
        invariant
            k <= app.deletion_results@.len(),
            lines_view(lines@) == start + app.deletion_results@.take(k as int).map_values(
                |r: DeletionResult| result_line_spec(r),
            ),
        decreases app.deletion_results@.len() - k,
    {
        push_line(&mut lines, result_line(&app.deletion_results[k]));
        assert(app.deletion_results@.take(k + 1).map_values(|r: DeletionResult| result_line_spec(r))
            =~= app.deletion_results@.take(k as int).map_values(|r: DeletionResult| result_line_spec(r)).push(
            result_line_spec(app.deletion_results@[k as int]),
        ));
        k = k + 1;
    }
    assert(app.deletion_results@.take(app.deletion_results@.len() as int) =~= app.deletion_results@);
    let completed = app.deletion_results.len();
    if completed < total {
        push_line(&mut lines, blank());
        let mut t = String::from_str("  ");
        push_decimal(&mut t, completed as u64);
        t.append(" of ");
        push_decimal(&mut t, total as u64);
        t.append(" completed");
        push_line(&mut lines, single(span(t, Tone::Gray, false)));
    }
    assert(lines_view(lines@) =~= executing_spec(app));
    lines
}

// ── Summary mode ────────────────────────────────────────────────────

/// How many results succeeded (`ok`) or failed.
pub open spec fn count_results(rs: Seq<DeletionResult>, ok: bool) -> nat
    decreases rs.len(),
{
    if rs.len() == 0 {
        0
    } else {
        count_results(rs.drop_last(), ok) + if rs.last().success == ok {
            1nat
        } else {
            0nat
        }
    }
}

/// The failed results, in order.
pub open spec fn failed_results(rs: Seq<DeletionResult>) -> Seq<DeletionResult>
    decreases rs.len(),
{
    if rs.len() == 0 {
        seq![]
    } else if !rs.last().success {
        failed_results(rs.drop_last()).push(rs.last())
    } else {
        failed_results(rs.drop_last())
    }
}

/// The line for one failure in the summary.
pub open spec fn failure_line_spec(r: DeletionResult) -> Seq<SpanV> {
    seq![
        ("    \u{2717} "@, Tone::Red, false),
        (r.branch.name@, Tone::White, false),
        (": "@ + match r.error {
            Some(e) => e@,
            None => "unknown error"@,
        }, Tone::Red, false),
    ]
}

/// The lines of the summary screen.
pub open spec fn summary_spec(app: &App) -> Seq<Seq<SpanV>> {
    let rs = app.deletion_results@;
    let successes = count_results(rs, true);
    let failures = count_results(rs, false);
    seq![
        seq![("  "@ + decimal(successes) + " deleted \u{00b7} "@ + decimal(failures) + " failed"@, if failures > 0 {
            Tone::Yellow
        } else {
            Tone::Green
        }, false)],
        blank_spec(),
    ] + (if failures > 0 {
        seq![seq![("  Failures:"@, Tone::Red, true)]] + failed_results(rs).map_values(
            |r: DeletionResult| failure_line_spec(r),
        ) + seq![blank_spec()]
    } else {
        seq![]
    }) + (if successes > 0 {
        seq![
            seq![("  To restore:"@, Tone::Gray, false)],
            seq![("    deadbranch backup restore <branch-name>"@, Tone::Gray, false)],
            blank_spec(),
        ]
    } else {
        seq![]
    }) + seq![seq![("  Press any key to exit"@, Tone::Gray, false)]]
}

/// The line for one failure.
fn failure_line(r: &DeletionResult) -> (line: StyledLine)
    ensures
        line@ == failure_line_spec(*r),
{
    let mut t = String::from_str(": ");
    match &r.error {
        Some(e) => t.append(e.as_str()),
        None => t.append("unknown error"),
    }
    triple(lit("    \u{2717} ", Tone::Red, false), span(r.branch.name.clone(), Tone::White, false), span(t, Tone::Red, false))
}

/// The lines of the summary screen: counts, the failures, how to restore,
/// and the exit prompt.
pub fn summary_lines(app: &App) -> (lines: Vec<StyledLine>)
    ensures
        lines_view(lines@) == summary_spec(app),
{
    let ghost rs = app.deletion_results@;
    let n = app.deletion_results.len();
    // Count successes and failures, and collect the failures
    let mut successes: usize = 0;
    let mut failures: usize = 0;
    let mut failed_lines: Vec<StyledLine> = Vec::new();
    let mut k: usize = 0;
    while k < n
        invariant
            k <= n == rs.len(),
            rs == app.deletion_results@,
            successes == count_results(rs.take(k as int), true),
            failures == count_results(rs.take(k as int), false),
            successes + failures == k,
            lines_view(failed_lines@) == failed_results(rs.take(k as int)).map_values(
                |r: DeletionResult| failure_line_spec(r),
            ),
        decreases n - k,
    {
        let r = &app.deletion_results[k];
        assert(rs.take(k + 1).drop_last() =~= rs.take(k as int));
        if r.success {
            successes = successes + 1;
        } else {
            failures = failures + 1;
            push_line(&mut failed_lines, failure_line(r));
            assert(failed_results(rs.take(k + 1)).map_values(|r: DeletionResult| failure_line_spec(r))
                =~= failed_results(rs.take(k as int)).map_values(|r: DeletionResult| failure_line_spec(r)).push(
                failure_line_spec(rs[k as int]),
            ));
        }
        k = k + 1;
    }
    assert(rs.take(n as int) =~= rs);
    let mut lines: Vec<StyledLine> = Vec::new();
    let mut head = String::from_str("  ");
    push_decimal(&mut head, successes as u64);
    head.append(" deleted \u{00b7} ");
    push_decimal(&mut head, failures as u64);
    head.append(" failed");
    let tone = if failures > 0 {
        Tone::Yellow
    } else {
        Tone::Green
    };
    push_line(&mut lines, single(span(head, tone, false)));
    push_line(&mut lines, blank());
    let ghost top = lines_view(lines@);

    // List failures
    if failures > 0 {
        push_line(&mut lines, single(lit("  Failures:", Tone::Red, true)));
        let ghost before = lines_view(lines@);
        let ghost fl = lines_view(failed_lines@);
        lines.append(&mut failed_lines);
        assert(lines_view(lines@) =~= before + fl);
        push_line(&mut lines, blank());
    }
    let ghost mid = lines_view(lines@);

    // Restore info
    if successes > 0 {
        push_line(&mut lines, single(lit("  To restore:", Tone::Gray, false)));
        push_line(&mut lines, single(lit("    deadbranch backup restore <branch-name>", Tone::Gray, false)));
        push_line(&mut lines, blank());
    }
    push_line(&mut lines, single(lit("  Press any key to exit", Tone::Gray, false)));
    assert(lines_view(lines@) =~= summary_spec(app));
    lines
}

} // verus!

verus! {

/// Which screen the TUI draws.
#[derive(Debug, Clone, Copy, PartialEq, Eq, Structural)]
pub enum Screen {
    /// The branch list with header and status bar
    Browse,
    /// The deletion confirmation
    Confirm,
    /// Deletion progress
    Executing,
    /// The results summary
    Summary,
}

/// The screen for a mode: browsing and typing a filter share the list.
pub fn screen_for(mode: Mode) -> (s: Screen)
    ensures
        s == match mode {
            Mode::Browse | Mode::Filter => Screen::Browse,
            Mode::Confirm => Screen::Confirm,
            Mode::Executing => Screen::Executing,
            Mode::Summary => Screen::Summary,
        },
{
    match mode {
        Mode::Browse | Mode::Filter => Screen::Browse,
        Mode::Confirm => Screen::Confirm,
        Mode::Executing => Screen::Executing,
        Mode::Summary => Screen::Summary,
    }
}

} // verus!

verus! {

/// Whether the list can show `b`.
fn row_drawable_check(b: &Branch) -> (r: bool)
    ensures
        r == row_drawable(*b),
{
    let chars = chars_of(b.name.as_str());
    if byte_len_exceeds(&chars, 30) && byte_prefix_chars(&chars, 28).is_none() {
        return false;
    }
    utc_timestamp_valid(b.last_commit_date)
}

/// Whether every visible branch can be shown (where not, drawing the list
/// panics).
pub fn list_drawable_check(app: &App) -> (r: bool)
    requires
        app.wf(),
    ensures
        r == list_drawable(app),
{
    let mut k: usize = 0;
    while k < app.visible.len()
        invariant
            app.wf(),
            k <= app.visible@.len(),
            forall|j: int| 0 <= j < k ==> row_drawable(#[trigger] app.all_branches@[app.visible@[j] as int]),
        decreases app.visible@.len() - k,
    {
        if !row_drawable_check(&app.all_branches[app.visible[k]]) {
            return false;
        }
        k = k + 1;
    }
    true
}

/// Whether every selected branch's SHA can be shortened (where not,
/// drawing the confirm screen panics).
pub fn confirm_drawable_check(app: &App) -> (r: bool)
    requires
        app.wf(),
    ensures
        r == confirm_drawable(app),
{
    let mut i: usize = 0;
    while i < app.selected.len()
        invariant
            app.wf(),
            i <= app.selected@.len(),
            forall|j: int|
                0 <= j < i && #[trigger] app.selected@[j] && byte_len(app.all_branches@[j].last_commit_sha@) >= 7
                    ==> is_boundary(app.all_branches@[j].last_commit_sha@, 7),
        decreases app.selected@.len() - i,
    {
        if app.selected[i] {
            let sha = chars_of(app.all_branches[i].last_commit_sha.as_str());
            if byte_len_exceeds(&sha, 6) && byte_prefix_chars(&sha, 7).is_none() {
                return false;
            }
        }
        i = i + 1;
    }
    true
}

} // verus!
