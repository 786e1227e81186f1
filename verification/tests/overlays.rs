use tailpipe::decimal::{to_decimal, to_padded};
use tailpipe::overlay::{overlay_text, popup_area, position_text, render_overlay, Area};

const SECOND: u128 = 1_000_000_000;

#[test]
fn positions_are_minutes_and_seconds() {
    assert_eq!(position_text(0, 0), "00:00 / 00:00");
    assert_eq!(position_text(5 * SECOND + SECOND - 1, 90 * SECOND), "00:05 / 01:30");
    assert_eq!(position_text(59 * SECOND, 6000 * SECOND), "00:59 / 100:00");
}

#[test]
fn overlay_has_the_controls() {
    assert_eq!(
        overlay_text(SECOND, 61 * SECOND),
        vec![
            "",
            "00:01 / 01:01",
            "",
            "space   pause/resume",
            "\u{2190}/\u{2192}     seek \u{00b1}5s",
            "o       toggle overlay",
            "q       quit",
        ]
    );
}

#[test]
fn overlay_is_a_titled_box() {
    let overlay = render_overlay(80, 24, SECOND, 61 * SECOND);
    assert_eq!(overlay.area, popup_area(80, 24));
    assert_eq!(overlay.title, " PAUSED ");
    assert_eq!(overlay.lines, overlay_text(SECOND, 61 * SECOND));
    assert!(overlay.bordered && overlay.white);
    let inner = usize::from(overlay.area.width) - 2;
    assert!(overlay.lines.iter().all(|line| line.chars().count() <= inner));
    assert_eq!(overlay.lines.len(), usize::from(overlay.area.height) - 2);
}

#[test]
fn overlay_stands_in_the_middle() {
    assert_eq!(popup_area(80, 24), Area { x: 25, y: 8, width: 30, height: 9 });
    assert_eq!(popup_area(81, 25), Area { x: 26, y: 8, width: 30, height: 9 });
    assert_eq!(popup_area(20, 5), Area { x: 2, y: 1, width: 16, height: 3 });
    assert_eq!(popup_area(0, 0), Area { x: 0, y: 0, width: 0, height: 0 });
}

#[test]
fn overlay_stands_in_the_middle_of_every_screen() {
    let sizes = (0..=150u16).chain([999, 1000, 32767, 32768, 65534, 65535]);
    for cols in sizes {
        for rows in [0u16, 1, 2, 3, 10, 11, 12, 24, 25, 301, 65534, 65535] {
            let width = 30.min(cols.saturating_sub(4));
            let height = 9.min(rows.saturating_sub(2));
            let expected = Area {
                x: (cols - width).div_ceil(2),
                y: (rows - height).div_ceil(2),
                width,
                height,
            };
            assert_eq!(popup_area(cols, rows), expected, "{cols}x{rows}");
        }
    }
    for rows in 0..=150u16 {
        let height = 9.min(rows.saturating_sub(2));
        let area = popup_area(80, rows);
        assert_eq!((area.y, area.height), ((rows - height).div_ceil(2), height), "{rows}");
    }
}

#[test]
fn numbers_are_written_in_decimal() {
    assert_eq!(to_decimal(0), "0");
    assert_eq!(to_decimal(1029384756), "1029384756");
    assert_eq!(to_decimal(u128::MAX), u128::MAX.to_string());
    assert_eq!(to_padded(7), "07");
    assert_eq!(to_padded(10), "10");
    assert_eq!(to_padded(123), "123");
}
