use questfleet::layout::{
    cap, centered, chrome, inset, inside, panel_split, right_segment, row_mode, split_right, truncate,
    width, Rect, RowMode, NARROW_COLS, WIDE_COLS,
};

#[test]
fn row_mode_at_the_breakpoints() {
    // Wide is two-line whatever the config says.
    assert_eq!(row_mode(WIDE_COLS, 3), RowMode::Two);
    assert_eq!(row_mode(200, 3), RowMode::Two);
    // Narrow is three-line whatever the config says.
    assert_eq!(row_mode(NARROW_COLS - 1, 2), RowMode::Three);
    assert_eq!(row_mode(0, 2), RowMode::Three);
    // The band in between is the config's to decide.
    assert_eq!(row_mode(NARROW_COLS, 2), RowMode::Two);
    assert_eq!(row_mode(NARROW_COLS, 3), RowMode::Three);
    assert_eq!(row_mode(WIDE_COLS - 1, 2), RowMode::Two);
    assert_eq!(row_mode(WIDE_COLS - 1, 3), RowMode::Three);
}

#[test]
fn row_mode_lines_match_the_variant() {
    assert_eq!(RowMode::Two.lines(), 2);
    assert_eq!(RowMode::Three.lines(), 3);
    assert_eq!(RowMode::from_config(2), RowMode::Two);
    assert_eq!(RowMode::from_config(3), RowMode::Three);
    // Out-of-range values never panic; config validation rejects them anyway.
    assert_eq!(RowMode::from_config(0), RowMode::Two);
    assert_eq!(RowMode::from_config(9), RowMode::Three);
}

#[test]
fn chrome_reserves_one_line_top_and_bottom() {
    let c = chrome(Rect::new(0, 0, 80, 24));
    assert_eq!(c.header, Rect::new(0, 0, 80, 1));
    assert_eq!(c.body, Rect::new(0, 1, 80, 22));
    assert_eq!(c.status, Rect::new(0, 23, 80, 1));
}

#[test]
fn chrome_survives_a_terminal_too_short_for_it() {
    let c = chrome(Rect::new(0, 0, 20, 1));
    assert_eq!(c.header.height, 1);
    assert_eq!(c.body.height, 0);
    assert_eq!(c.status.height, 0);
}

#[test]
fn right_segment_never_starves_the_left_band() {
    // Room for everything: the segment gets exactly what it asked for.
    assert_eq!(right_segment(100, 8), 8);
    assert_eq!(right_segment(80, 29), 29);
    // Cramped: the left band keeps at least a third of the row.
    assert_eq!(right_segment(30, 29), 20);
    assert_eq!(right_segment(20, 29), 13);
    // A machine name longer than the terminal cannot wipe the tab bar.
    assert_eq!(right_segment(60, 302), 40);
    for total in 0..=200u16 {
        let left = total - right_segment(total, u16::MAX);
        assert!(left >= total / 3, "total {total} left {left}");
    }
}

#[test]
fn centered_is_clamped_to_its_parent() {
    assert_eq!(
        centered(Rect::new(0, 0, 80, 24), 40, 10),
        Rect::new(20, 7, 40, 10)
    );
    assert_eq!(
        centered(Rect::new(0, 0, 10, 4), 40, 10),
        Rect::new(0, 0, 10, 4)
    );
}

#[test]
fn width_measures_clusters_not_chars() {
    // A base letter plus a combining acute paints one cell.
    assert_eq!(width("e\u{301}"), 1);
    assert_eq!(width("nai\u{308}ve"), 5);
    // The row glyphs are one column each.
    assert_eq!(width("▸ ⏸ ▓░"), 6);
}

#[test]
fn truncate_never_splits_a_combining_sequence() {
    // The cut lands between clusters, and the marks travel with their base.
    let s = "e\u{301}e\u{301}e\u{301}e\u{301}";
    assert_eq!(truncate(s, 3), "e\u{301}e\u{301}…");
    assert_eq!(width(&truncate(s, 3)), 3);
    // A string that is only marks has no cluster to join.
    assert_eq!(truncate("\u{301}\u{301}", 5), "\u{301}\u{301}");
}

#[test]
fn truncate_counts_display_columns() {
    assert_eq!(truncate("abcdef", 10), "abcdef");
    assert_eq!(truncate("abcdef", 6), "abcdef");
    assert_eq!(truncate("abcdef", 5), "abcd…");
    assert_eq!(truncate("abcdef", 0), "");
    // Wide characters take two columns each.
    assert_eq!(width("日本語"), 6);
    assert_eq!(truncate("日本語", 6), "日本語");
    assert_eq!(truncate("日本語", 5), "日本…");
    assert!(width(&truncate("日本語", 5)) <= 5);
}

#[test]
fn truncate_keeps_a_glyph_of_several_characters_whole() {
    // A heart and its variation selector are one glyph of two columns.
    let hearts = "\u{2764}\u{fe0f}".repeat(5);
    for max in 0..12usize {
        let cut = truncate(&hearts, max);
        assert!(width(&cut) <= max, "{max}: {cut:?}");
        let kept = cut.trim_end_matches('…');
        assert_eq!(kept.chars().count() % 2, 0, "half a heart in {cut:?}");
    }
    // A flag is a pair of letters.
    assert_eq!(truncate("\u{1f1ed}\u{1f1f7}xxxx", 3), "\u{1f1ed}\u{1f1f7}…");
}

#[test]
fn a_text_of_printable_ascii_is_as_wide_as_it_is_long() {
    assert_eq!(width("plain text, 42%"), 15);
    assert_eq!(width(""), 0);
}

#[test]
fn a_panel_takes_half_of_a_wide_body_and_all_of_a_narrow_one() {
    let wide = Rect::new(0, 1, 120, 20);
    assert_eq!(panel_split(wide, false), (Some(wide), None));
    assert_eq!(
        panel_split(wide, true),
        (
            Some(Rect::new(0, 1, 60, 20)),
            Some(Rect::new(60, 1, 60, 20))
        )
    );
    let narrow = Rect::new(0, 1, 60, 20);
    assert_eq!(panel_split(narrow, true), (None, Some(narrow)));
}

#[test]
fn the_parts_of_a_row_and_of_a_box() {
    assert_eq!(
        split_right(Rect::new(2, 0, 100, 1), 8),
        (Rect::new(2, 0, 92, 1), Rect::new(94, 0, 8, 1))
    );
    assert_eq!(inset(Rect::new(0, 1, 10, 4)), Rect::new(1, 1, 9, 4));
    assert_eq!(inset(Rect::new(0, 1, 0, 4)), Rect::new(1, 1, 0, 4));
    assert_eq!(inside(Rect::new(0, 0, 20, 10)), (16, 8));
    assert_eq!(inside(Rect::new(0, 0, 3, 1)), (0, 0));
}

#[test]
fn a_cut_text_never_takes_more_columns_than_it_was_given() {
    assert_eq!(width("…"), 1);
    for text in [
        "plain enough text",
        "日本語のテキストはとても長い",
        "\u{644}\u{627}\u{644}\u{627}\u{644}\u{627}\u{644}\u{627}",
        "\u{1780}\u{17d2}\u{1780}\u{17d2}\u{1780}\u{1780}\u{1780}",
        "\u{1f1ed}\u{1f1f7}\u{1f1ed}\u{1f1f7}\u{1f1ed}",
        "1\u{fe0f}\u{20e3}2\u{fe0f}\u{20e3}3\u{fe0f}\u{20e3}",
        "\u{1f469}\u{200d}\u{1f469}\u{200d}\u{1f467}\u{1f469}\u{1f3fd}",
        "a\u{fe0f}\u{301}b\u{200d}c",
    ] {
        for max in 1..30usize {
            let cut = truncate(text, max);
            assert!(width(&cut) <= max, "{max}: {cut:?}");
        }
    }
}

#[test]
fn a_cap_counts_characters() {
    assert_eq!(cap("abc", 3), "abc");
    assert_eq!(cap("abcd", 3), "ab…");
    assert_eq!(cap("日本語", 3), "日本語");
    assert_eq!(cap("日本語の", 3), "日本…");
    assert_eq!(cap("abc", 1), "…");
    assert_eq!(cap("abc", 0), "");
}
