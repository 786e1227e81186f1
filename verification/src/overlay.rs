//! The overlay that a paused playback shows: its text, and where it stands.
use crate::decimal::to_padded;
use ratatui::layout::{Constraint, Flex, Layout, Rect};
use vstd::prelude::*;

verus! {

/// How wide the overlay is where there is room.
pub const POPUP_WIDTH: u16 = 30;

/// How many lines of text the overlay has.
pub const TEXT_LINES: u16 = 7;

/// Nanoseconds in a second.
pub const SECOND: u128 = 1_000_000_000;

/// A part of the screen, in columns and rows.
#[derive(Debug, Clone, Copy, PartialEq, Eq, Structural)]
pub struct Area {
    pub x: u16,
    pub y: u16,
    pub width: u16,
    pub height: u16,
}

/// What is drawn over a paused playback.
#[derive(Debug)]
pub struct Overlay {
    /// Where it stands. What is there is wiped out first.
    pub area: Area,
    /// Whether there is a border along the edge of the area, with the title in
    /// it and the lines inside.
    pub bordered: bool,
    pub title: String,
    /// The lines of text, from the top, each starting on the left.
    pub lines: Vec<String>,
    /// Whether border and text are white.
    pub white: bool,
}

/// A time in whole minutes and seconds, each with at least two digits.
pub open spec fn clock(time: u128) -> Seq<char> {
    let seconds = time as nat / 1_000_000_000;
    crate::decimal::padded(seconds / 60) + ":"@ + crate::decimal::padded(seconds % 60)
}

/// The position in a recording and its length.
pub open spec fn position(current_time: u128, total_duration: u128) -> Seq<char> {
    clock(current_time) + " / "@ + clock(total_duration)
}

/// The lines of the overlay.
pub open spec fn text_lines(current_time: u128, total_duration: u128) -> Seq<Seq<char>> {
    seq![
        ""@,
        position(current_time, total_duration),
        ""@,
        "space   pause/resume"@,
        "\u{2190}/\u{2192}     seek \u{00b1}5s"@,
        "o       toggle overlay"@,
        "q       quit"@,
    ]
}

/// The area with `height` of its rows, in the middle. Where the rows left over
/// are odd in number, one more is above than below.
pub open spec fn middle_rows(height: u16, area: Area) -> Area {
    Area { y: (area.y + (area.height - height + 1) / 2) as u16, height, ..area }
}

/// The area with `width` of its columns, in the middle. Where the columns left
/// over are odd in number, one more is on the left than on the right.
pub open spec fn middle_columns(width: u16, area: Area) -> Area {
    Area { x: (area.x + (area.width - width + 1) / 2) as u16, width, ..area }
}

/// Whether an area ends where positions can still be counted.
pub open spec fn countable(area: Area) -> bool {
    area.x + area.width <= 0xffff && area.y + area.height <= 0xffff
}

/// The area of the overlay on a screen of this size: as wide and as high as it
/// should be, but with some room around it, and in the middle.
pub open spec fn popup(cols: u16, rows: u16) -> Area {
    let width = if cols < 4 {
        0
    } else if cols - 4 < POPUP_WIDTH {
        (cols - 4) as u16
    } else {
        POPUP_WIDTH
    };
    let height = if rows < 2 {
        0
    } else if rows - 2 < TEXT_LINES + 2 {
        (rows - 2) as u16
    } else {
        (TEXT_LINES + 2) as u16
    };
    middle_columns(
        width,
        middle_rows(height, Area { x: 0, y: 0, width: cols, height: rows }),
    )
}

/// Calls `Layout::areas` of a vertical `Layout` with one `Constraint::Length`
/// and `Flex::Center`. For a length that the area has room for, the part is
/// taken to have exactly that many rows, with equal space above and below it;
/// its first row is rounded from the exact middle, with halves upwards. Its
/// columns are those of the area.
#[verifier::external_body]
fn center_rows(height: u16, area: Area) -> (r: Area)
    requires
        height <= area.height,
        countable(area),
    ensures
        r == middle_rows(height, area),
{
    let outer: Rect = Rect::new(area.x, area.y, area.width, area.height);
    let layout: Layout = Layout::vertical([Constraint::Length(height)]).flex(Flex::Center);
    let [part]: [Rect; 1] = layout.areas(outer);
    Area { x: part.x, y: part.y, width: part.width, height: part.height }
}

/// Calls `Layout::areas` of a horizontal `Layout` with one `Constraint::Length`
/// and `Flex::Center`. For a length that the area has room for, the part is
/// taken to have exactly that many columns, with equal space on both sides; its
/// first column is rounded from the exact middle, with halves upwards. Its rows
/// are those of the area.
#[verifier::external_body]
fn center_columns(width: u16, area: Area) -> (r: Area)
    requires
        width <= area.width,
        countable(area),
    ensures
        r == middle_columns(width, area),
{
    let outer: Rect = Rect::new(area.x, area.y, area.width, area.height);
    let layout: Layout = Layout::horizontal([Constraint::Length(width)]).flex(Flex::Center);
    let [part]: [Rect; 1] = layout.areas(outer);
    Area { x: part.x, y: part.y, width: part.width, height: part.height }
}

/// A time in minutes and seconds.
fn clock_text(time: u128) -> (r: String)
    ensures
        r@ == clock(time),
{
    let seconds: u128 = time / SECOND;
    let mut r: String = to_padded(seconds / 60);
    r.append(":");
    r.append(to_padded(seconds % 60).as_str());
    r
}

/// The position in a recording and its length, such as `00:05 / 01:30`.
pub fn position_text(current_time: u128, total_duration: u128) -> (r: String)
    ensures
        r@ == position(current_time, total_duration),
{
    let mut r: String = clock_text(current_time);
    r.append(" / ");
    r.append(clock_text(total_duration).as_str());
    r
}

/// The lines of the overlay.
pub fn overlay_text(current_time: u128, total_duration: u128) -> (r: Vec<String>)
    ensures
        r@.map_values(|line: String| line@) == text_lines(current_time, total_duration),
{
    let r: Vec<String> = vec![
        "".to_owned(),
        position_text(current_time, total_duration),
        "".to_owned(),
        "space   pause/resume".to_owned(),
        "\u{2190}/\u{2192}     seek \u{00b1}5s".to_owned(),
        "o       toggle overlay".to_owned(),
        "q       quit".to_owned(),
    ];
    assert(r@.map_values(|line: String| line@) =~= text_lines(current_time, total_duration));
    r
}

/// Where the overlay stands on a screen of this size.
pub fn popup_area(cols: u16, rows: u16) -> (r: Area)
    ensures
        r == popup(cols, rows),
{
    let room: u16 = cols.saturating_sub(4);
    let width: u16 = if room < POPUP_WIDTH {
        room
    } else {
        POPUP_WIDTH
    };
    let room: u16 = rows.saturating_sub(2);
    let height: u16 = if room < TEXT_LINES + 2 {
        room
    } else {
        TEXT_LINES + 2
    };
    let band: Area = center_rows(height, Area { x: 0, y: 0, width: cols, height: rows });
    center_columns(width, band)
}

/// What is drawn over a paused playback at this position, on a screen of this
/// size.
pub fn render_overlay(cols: u16, rows: u16, current_time: u128, total_duration: u128) -> (r:
    Overlay)
    ensures
        r.area == popup(cols, rows),
        r.bordered,
        r.title@ == " PAUSED "@,
        r.lines@.map_values(|line: String| line@) == text_lines(current_time, total_duration),
        r.white,
{
    Overlay {
        area: popup_area(cols, rows),
        bordered: true,
        title: " PAUSED ".to_owned(),
        lines: overlay_text(current_time, total_duration),
        white: true,
    }
}

/// The overlay lies within the screen and in its middle: on either axis the
/// space before it is that after it, or one more.
pub proof fn law_popup_is_centered(cols: u16, rows: u16)
    ensures
        ({
            let area = popup(cols, rows);
            let right = cols - area.x - area.width;
            let below = rows - area.y - area.height;
            &&& area.width <= POPUP_WIDTH && area.height <= TEXT_LINES + 2
            &&& right >= 0 && right <= area.x <= right + 1
            &&& below >= 0 && below <= area.y <= below + 1
        }),
{
}

/// A number below a hundred has two digits when it is padded.
proof fn lemma_padded_is_short(n: nat)
    requires
        n < 100,
    ensures
        crate::decimal::padded(n).len() == 2,
{
    if n >= 10 {
        assert(crate::decimal::decimal(n / 10).len() == 1);
        assert(crate::decimal::decimal(n).len() == 2);
    } else {
        assert(crate::decimal::decimal(n).len() == 1);
    }
}

/// On a screen that has room for it the overlay has its full size. Its title
/// and, for times below a hundred minutes, all of its lines then fit inside the
/// border: none is cut.
pub proof fn law_overlay_shows_everything(
    cols: u16,
    rows: u16,
    current_time: u128,
    total_duration: u128,
)
    requires
        cols >= POPUP_WIDTH + 4,
        rows >= TEXT_LINES + 4,
        current_time < 6_000 * SECOND,
        total_duration < 6_000 * SECOND,
    ensures
        popup(cols, rows).width == POPUP_WIDTH,
        popup(cols, rows).height == TEXT_LINES + 2,
        text_lines(current_time, total_duration).len() == popup(cols, rows).height - 2,
        " PAUSED "@.len() <= popup(cols, rows).width - 2,
        forall|i: int|
            0 <= i < text_lines(current_time, total_duration).len() ==> (
            #[trigger] text_lines(current_time, total_duration)[i]).len() <= popup(
                cols,
                rows,
            ).width - 2,
        position(current_time, total_duration).len() == 13,
{
    let (now, all) = (
        current_time as nat / 1_000_000_000,
        total_duration as nat / 1_000_000_000,
    );
    lemma_padded_is_short(now / 60);
    lemma_padded_is_short(now % 60);
    lemma_padded_is_short(all / 60);
    lemma_padded_is_short(all % 60);
    reveal_strlit("");
    reveal_strlit(":");
    reveal_strlit(" / ");
    reveal_strlit(" PAUSED ");
    reveal_strlit("space   pause/resume");
    reveal_strlit("\u{2190}/\u{2192}     seek \u{00b1}5s");
    reveal_strlit("o       toggle overlay");
    reveal_strlit("q       quit");
}

/// A time on the overlay reads back as the whole seconds of the time: minutes,
/// of two digits or as many as it takes, a colon, and two digits of seconds.
pub proof fn law_clock_reads_back(time: u128)
    ensures
        ({
            let text = clock(time);
            let colon = text.len() - 3;
            let minutes = text.take(colon);
            let seconds = text.skip(colon + 1);
            &&& colon >= 2
            &&& text[colon] == ':'
            &&& crate::decimal::all_digits(minutes)
            &&& crate::decimal::all_digits(seconds)
            &&& colon > 2 ==> text[0] != '0'
            &&& 0 <= crate::decimal::number(seconds) < 60
            &&& crate::decimal::number(minutes) * 60 + crate::decimal::number(seconds) == time as int
                / 1_000_000_000
        }),
{
    let all = time as nat / 1_000_000_000;
    let (m, s) = (crate::decimal::padded(all / 60), crate::decimal::padded(all % 60));
    crate::decimal::law_padded_reads_back(all / 60);
    crate::decimal::law_padded_reads_back(all % 60);
    lemma_padded_is_short(all % 60);
    reveal_strlit(":");
    let text = clock(time);
    assert(text.len() == m.len() + 3);
    assert(text.take(text.len() - 3) =~= m);
    assert(text.skip(text.len() - 3 + 1) =~= s);
    assert(text[0] == m[0]);
}

/// The overlay tells the position, then the length, in its second line; the
/// other lines are the same at every time.
pub proof fn law_overlay_tells_the_position(current_time: u128, total_duration: u128)
    ensures
        ({
            let lines = text_lines(current_time, total_duration);
            let position = lines[1];
            let now = clock(current_time);
            let all = clock(total_duration);
            &&& lines.len() == 7
            &&& position.len() == now.len() + 3 + all.len()
            &&& now.is_prefix_of(position)
            &&& position.subrange(now.len() as int, now.len() as int + 3) == seq![' ', '/', ' ']
            &&& all == position.skip(now.len() as int + 3)
            &&& lines[0] == Seq::<char>::empty()
            &&& lines[2] == Seq::<char>::empty()
            &&& lines[3] == "space   pause/resume"@
            &&& lines[4] == "\u{2190}/\u{2192}     seek \u{00b1}5s"@
            &&& lines[5] == "o       toggle overlay"@
            &&& lines[6] == "q       quit"@
        }),
{
    reveal_strlit("");
    reveal_strlit(" / ");
    let lines = text_lines(current_time, total_duration);
    let position = lines[1];
    let now = clock(current_time);
    let all = clock(total_duration);
    assert(position.take(now.len() as int) =~= now);
    assert(position.subrange(now.len() as int, now.len() as int + 3) =~= seq![' ', '/', ' ']);
    assert(position.skip(now.len() as int + 3) =~= all);
    assert(lines[0] =~= Seq::<char>::empty());
    assert(lines[2] =~= Seq::<char>::empty());
}

/// The overlay is as large as it can be: thirty columns and nine rows, or, where
/// there is less room, all of the screen but four columns and two rows.
pub proof fn law_popup_is_as_large_as_fits(cols: u16, rows: u16)
    ensures
        ({
            let area = popup(cols, rows);
            &&& cols >= 34 ==> area.width == 30
            &&& 4 <= cols <= 34 ==> area.width + 4 == cols
            &&& cols <= 4 ==> area.width == 0
            &&& rows >= 11 ==> area.height == 9
            &&& 2 <= rows <= 11 ==> area.height + 2 == rows
            &&& rows <= 2 ==> area.height == 0
        }),
{
}

/// What is drawn: a bordered box with the title ` PAUSED ` in the middle of the
/// screen, in white, and in it seven lines, of which the second tells the
/// position and the length.
pub proof fn law_overlay_is_drawn_whole(
    cols: u16,
    rows: u16,
    current_time: u128,
    total_duration: u128,
    overlay: Overlay,
    text: String,
)
    requires
        call_ensures(render_overlay, (cols, rows, current_time, total_duration), overlay),
        call_ensures(position_text, (current_time, total_duration), text),
    ensures
        overlay.bordered,
        overlay.white,
        overlay.title@ == " PAUSED "@,
        overlay.lines@.len() == 7,
        overlay.lines@[0]@.len() == 0,
        overlay.lines@[1]@ == text@,
        text@ == clock(current_time) + seq![' ', '/', ' '] + clock(total_duration),
        overlay.lines@[2]@.len() == 0,
        overlay.lines@[3]@ == "space   pause/resume"@,
        overlay.lines@[4]@ == "\u{2190}/\u{2192}     seek \u{00b1}5s"@,
        overlay.lines@[5]@ == "o       toggle overlay"@,
        overlay.lines@[6]@ == "q       quit"@,
        cols >= 34 ==> overlay.area.width == 30,
        4 <= cols <= 34 ==> overlay.area.width + 4 == cols,
        cols <= 4 ==> overlay.area.width == 0,
        rows >= 11 ==> overlay.area.height == 9,
        2 <= rows <= 11 ==> overlay.area.height + 2 == rows,
        rows <= 2 ==> overlay.area.height == 0,
        ({
            let area = overlay.area;
            let right = cols - area.x - area.width;
            let below = rows - area.y - area.height;
            0 <= right <= area.x <= right + 1 && 0 <= below <= area.y <= below + 1
        }),
{
    let said = overlay.lines@.map_values(|line: String| line@);
    let lines = text_lines(current_time, total_duration);
    assert(said == lines);
    assert(forall|i: int|
        0 <= i < overlay.lines@.len() ==> #[trigger] overlay.lines@[i]@ == said[i]);
    law_overlay_tells_the_position(current_time, total_duration);
    law_popup_is_as_large_as_fits(cols, rows);
    law_popup_is_centered(cols, rows);
    let now = clock(current_time);
    let at = now.len() as int;
    assert(text@ == lines[1]);
    assert(text@ =~= text@.take(at) + text@.subrange(at, at + 3) + text@.skip(at + 3));
}

} // verus!
