//! Columns, rows, and the pieces every table is made of.

use spot_ui::columns::{
    facets, heard, playlists, queue, right, sort_label, stations, tracks, ColKey, Column,
    Layout, AGO_MIN, COL_GAP, DUR_W, NO_W, PREFIX_W, YEAR_W,
};
use spot_ui::geometry::{Position, Rect};
use spot_ui::help::{group_len, key_at, mouse_hint, version, GROUPS, HINTS};
use spot_ui::play_state::{or_paused, status, PlayState};
use spot_ui::rows::{cell_spans, printed_w, track_no};
use spot_ui::scene::{Line, Op, Scene, Target};
use spot_ui::state::{
    artists_line, clamp_offset, format_duration, Credit, Deck, Kept, Playback, RadioPlayback,
    Sort, SortedList, Station, Track, UpdateState,
};
use spot_ui::table::{
    action_spans, art_cells, art_rows, art_w, centered, credit_line, credit_links, credit_spans,
    ends_with_loading, hover_style, hovered_credit, hovered_row, knob_at, meter, placeholder,
    selection_style, slider, spinner, spinner_frame, Names, RowAction, ACTIONS_W, ADD_MARK,
    LIKED_MARK, SHARE_MARK, SPINNER_FRAME, SPINNER_LEN, VOL_TRACK_W,
};
use spot_ui::text::{clipped, dec, fit, low_half, pad_left, pad_right, trim_end, width, wrap};
use spot_ui::theme;
use spot_ui::theme::{
    accent_bright, accent_color, at_percent, led_percent, pack, set_cover_colors, unpack,
    viz_pair, CoverColors, Led, Style,
};

fn credits(list: &[(&str, Option<&str>)]) -> Vec<Credit> {
    list.iter()
        .map(|(name, id)| Credit { name: name.to_string(), id: id.map(str::to_string) })
        .collect()
}

fn block(x: u16, y: u16, width: u16, height: u16) -> Rect {
    Rect { x, y, width, height }
}

fn rows() -> Rect {
    block(10, 5, 20, 4)
}

fn at(x: u16, y: u16) -> Option<Position> {
    Some(Position { x, y })
}

fn printed(line: &Line) -> String {
    line.spans.iter().map(|s| s.text.as_str()).collect()
}

fn widths(layout: &Layout) -> Vec<(ColKey, usize, usize)> {
    layout.cells().iter().map(|c| (c.key, c.width, c.x)).collect()
}

fn track() -> Track {
    Track {
        uri: "spotify:track:new".into(),
        name: "Envejecer".into(),
        artists: "Erameld".into(),
        album: "Días Despejados".into(),
        release_year: "2020".into(),
        duration_ms: 1000,
        track_number: 7,
        album_id: None,
        credits: Vec::new(),
        cover_url: None,
    }
}

fn streaming() -> Deck {
    Deck {
        radio: None,
        playback: Some(Playback {
            is_playing: true,
            is_local_device: true,
            shuffle: false,
            volume_percent: 70,
            progress_ms: 0,
            track: track(),
        }),
        pending_play: false,
        tap_fresh: true,
    }
}

fn radio() -> Deck {
    Deck {
        radio: Some(RadioPlayback {
            station: Station {
                uuid: "s1".into(),
                name: "KEXP".into(),
                url: "https://kexp.example".into(),
                tags: String::new(),
                country: String::new(),
                countrycode: String::new(),
                quality: String::new(),
                hls: false,
            },
            is_playing: true,
            title: None,
            matched: None,
            volume_percent: 50,
            failure: None,
            off_air: false,
            elapsed_ms: 0,
            channel_label: None,
        }),
        playback: None,
        pending_play: false,
        tap_fresh: true,
    }
}

fn state_of(deck: &Deck) -> PlayState {
    status(deck).expect("a source is playing").state
}

// ---- columns ----

#[test]
fn flex_weights_split_what_the_fixed_columns_leave() {
    let layout = Layout::resolve(&tracks(false), 100, 12);
    // 100 less the marker, the number, the year, the run, the time and
    // six gaps.
    let flex: usize = layout
        .cells()
        .iter()
        .filter(|c| matches!(c.key, ColKey::Title | ColKey::Artist | ColKey::Album))
        .map(|c| c.width)
        .sum();
    assert_eq!(flex, 100 - (PREFIX_W + 3 + YEAR_W + ACTIONS_W + DUR_W) - 18);
    assert_eq!(layout.width_of(ColKey::Title), flex * 4 / 10);
    assert_eq!(layout.width_of(ColKey::Artist), flex * 3 / 10);
}

#[test]
fn every_cell_starts_where_the_one_before_it_ends() {
    for width in [30, 45, 60, 80, 120] {
        let layout = Layout::resolve(&tracks(false), width, 999);
        let mut x = 0;
        for (i, cell) in layout.cells().iter().enumerate() {
            if i > 0 && layout.cells()[i - 1].key != ColKey::Mark {
                x += COL_GAP.len();
            }
            assert_eq!(cell.x, x, "column {:?} at width {width}", cell.key);
            x += cell.width;
        }
        assert!(x <= width, "row overflows at width {width}");
    }
}

#[test]
fn narrow_panes_drop_columns_in_order() {
    let at = |w: usize| {
        let layout = Layout::resolve(&tracks(false), w, 9);
        (
            layout.cell(ColKey::Year).is_some(),
            layout.cell(ColKey::Album).is_some(),
            layout.cell(ColKey::No).is_some(),
            layout.cell(ColKey::Actions).is_some(),
        )
    };
    assert_eq!(at(80), (true, true, true, true));
    assert_eq!(at(69), (false, true, true, true));
    assert_eq!(at(49), (false, false, true, true));
    assert_eq!(at(39), (false, false, false, true));
    assert_eq!(at(29), (false, false, false, false));
}

#[test]
fn the_number_column_widens_to_fit_the_largest_number() {
    assert_eq!(Layout::resolve(&tracks(false), 100, 9).width_of(ColKey::No), NO_W);
    assert_eq!(Layout::resolve(&tracks(false), 100, 1234).width_of(ColKey::No), 4);
}

#[test]
fn the_queue_drops_its_artist_against_the_number_beside_it() {
    // The threshold moves with the digits of the largest row number.
    assert!(Layout::resolve(&queue(9), 42, 9).cell(ColKey::Artist).is_some());
    assert!(!Layout::resolve(&queue(9), 41, 9).cell(ColKey::Artist).is_some());
    assert!(!Layout::resolve(&queue(1000), 43, 1000).cell(ColKey::Artist).is_some());
    assert!(Layout::resolve(&queue(1000), 44, 1000).cell(ColKey::Artist).is_some());
}

/// A station's list is the queue's table with one cell more on the end,
/// and it is the first cell a tight row gives up — before the artist.
#[test]
fn a_stations_list_is_the_queue_plus_a_reading_it_sheds_first() {
    let keys = |cols: &Vec<Column>, width: usize| -> Vec<ColKey> {
        Layout::resolve(cols, width, 9).cells().iter().map(|c| c.key).collect()
    };
    let mut expected = keys(&queue(9), 90);
    expected.push(ColKey::Ago);
    assert_eq!(keys(&heard(9), 90), expected);

    assert!(keys(&heard(9), AGO_MIN).contains(&ColKey::Ago));
    let tight = keys(&heard(9), AGO_MIN - 1);
    assert!(!tight.contains(&ColKey::Ago));
    assert!(tight.contains(&ColKey::Artist), "the artist outlives it");
}

#[test]
fn a_dropped_column_gives_its_cells_and_its_gap_to_the_flex() {
    let wide = Layout::resolve(&stations(false), 65, 0);
    let narrow = Layout::resolve(&stations(false), 64, 0);
    assert!(wide.cell(ColKey::Tags).is_some());
    assert!(!narrow.cell(ColKey::Tags).is_some());
    assert_eq!(
        narrow.width_of(ColKey::Station),
        wide.width_of(ColKey::Station) + wide.width_of(ColKey::Tags) + COL_GAP.len() - 1
    );
}

#[test]
fn only_the_columns_on_screen_are_sortable() {
    let wide = Layout::resolve(&tracks(false), 100, 9);
    assert!(wide.sort_keys().contains(&ColKey::Year));
    let narrow = Layout::resolve(&tracks(false), 45, 9);
    assert!(!narrow.sort_keys().contains(&ColKey::Year));
    assert!(!narrow.sort_keys().contains(&ColKey::Album));
    assert!(narrow.sort_keys().contains(&ColKey::Title));
}

#[test]
fn the_marker_column_runs_into_the_one_beside_it() {
    let layout = Layout::resolve(&playlists(), 80, 0);
    let cells = widths(&layout);
    assert_eq!(cells[0].0, ColKey::Mark);
    assert_eq!(cells[1].2, PREFIX_W);
}

#[test]
fn a_sort_marks_its_own_column_alone() {
    let up = Sort { key: ColKey::Title, ascending: true };
    let down = Sort { key: ColKey::Title, ascending: false };
    assert_eq!(sort_label("Title", ColKey::Title, Some(up)), "Title ▲");
    assert_eq!(sort_label("Title", ColKey::Title, Some(down)), "Title ▼");
    assert_eq!(sort_label("", ColKey::Title, Some(up)), "▲");
    assert_eq!(sort_label("Year", ColKey::Year, Some(up)), "Year");
    assert_eq!(sort_label("Year", ColKey::Year, None), "Year");
}

#[test]
fn right_pads_and_cuts_from_the_left_edge() {
    assert_eq!(right("7", 3), "  7");
    assert_eq!(right("1:23", 5), " 1:23");
    assert_eq!(right("abcdef", 4), "abc…");
    assert_eq!(right("残", 4), "  残");
}

#[test]
fn a_facet_table_names_its_rows_and_drops_the_code() {
    let countries = Layout::resolve(&facets("Country", true), 80, 0);
    let genres = Layout::resolve(&facets("Genre", false), 80, 0);
    assert!(countries.cell(ColKey::Code).is_some());
    assert!(genres.cell(ColKey::Code).is_none());
    assert_eq!(countries.cell(ColKey::Name).unwrap().label, "Country");
    assert_eq!(genres.cell(ColKey::Name).unwrap().label, "Genre");
}

// ---- table ----

/// The cell prints exactly what one link ever printed — the joined line,
/// fitted — and the runs land on the names inside it.
#[test]
fn a_credit_line_splits_the_cell_it_prints() {
    let c = credits(&[("Zedd", Some("z")), ("Alessia Cara", Some("a"))]);
    let (cell, runs) = credit_line(&c, 20);
    assert_eq!(cell, "Zedd, Alessia Cara  ");
    assert_eq!(runs.len(), 2);
    assert_eq!((runs[0].dx, runs[0].width), (0, 4));
    // Past the two cells of `, `, which belong to neither name.
    assert_eq!((runs[1].dx, runs[1].width), (6, 12));
}

/// A name only part of which fits keeps a run as wide as what was printed:
/// the ellipsis stands for the rest of that name and belongs with it. A
/// name there was no room for at all gets no run.
#[test]
fn a_clipped_credit_line_stops_at_what_it_printed() {
    let c = credits(&[("Zedd", Some("z")), ("Alessia Cara", Some("a"))]);
    let (cell, runs) = credit_line(&c, 10);
    assert_eq!(cell, "Zedd, Ale…");
    assert_eq!(runs.len(), 2);
    // Four cells: `Ale` and the `…` that stands for the rest of the name.
    assert_eq!((runs[1].dx, runs[1].width), (6, 4));

    let (cell, runs) = credit_line(&c, 4);
    assert_eq!(cell, "Zed…");
    assert_eq!(runs.len(), 1, "a name with no room is not a target");
}

/// Only a name with an id is a target; one identified by name alone is
/// drawn and inert.
#[test]
fn a_credit_without_an_id_is_not_a_target() {
    let c = credits(&[("Zedd", None), ("Alessia Cara", Some("a"))]);
    let cell = block(10, 5, 20, 1);
    let (_, runs) = credit_line(&c, 20);
    let mut scene = Scene::empty();
    credit_links(cell, &runs, Names::Track, &mut scene);
    let links: Vec<(Rect, Credit)> = scene
        .ops
        .iter()
        .filter_map(|op| match op {
            Op::Hit { area, target: Target::TrackArtist(c) } => Some((*area, c.clone())),
            _ => None,
        })
        .collect();
    assert_eq!(links.len(), 1);
    assert_eq!(links[0].1.name, "Alessia Cara");
    assert_eq!(links[0].0, block(16, 5, 12, 1));
    // Nor does it light under the pointer.
    assert_eq!(hovered_credit(cell, &runs, at(11, 5)), None);
    assert_eq!(hovered_credit(cell, &runs, at(17, 5)), Some(1));
    // A row above or below the line is not on it at all.
    assert_eq!(hovered_credit(cell, &runs, at(17, 6)), None);
}

/// The spans put back together exactly what the credit line printed, so
/// splitting the cell to light one name cannot change the row.
#[test]
fn credit_spans_rebuild_the_cell_they_split() {
    let c = credits(&[("Zedd", Some("z")), ("Alessia Cara", Some("a"))]);
    for w in [0, 1, 4, 7, 10, 18, 20, 40] {
        let (cell, runs) = credit_line(&c, w);
        for lit in [None, Some(0), Some(1)] {
            let joined = printed(&credit_spans(&cell, &runs, Style::plain(), lit));
            assert_eq!(joined, cell, "width {w}, lit {lit:?}");
        }
    }
}

#[test]
fn a_hovered_row_is_the_one_under_the_pointer() {
    assert_eq!(hovered_row(rows(), 0, 4, at(12, 5)), Some(0));
    assert_eq!(hovered_row(rows(), 0, 4, at(29, 8)), Some(3));
}

/// The offset is added, so the answer names the item the pointer is on
/// rather than the screen row it landed on.
#[test]
fn a_scrolled_list_hovers_the_item_it_shows() {
    assert_eq!(hovered_row(rows(), 7, 20, at(12, 5)), Some(7));
}

#[test]
fn a_pointer_off_the_list_hovers_nothing() {
    assert_eq!(hovered_row(rows(), 0, 4, at(9, 5)), None);
    assert_eq!(hovered_row(rows(), 0, 4, at(12, 4)), None);
    assert_eq!(hovered_row(rows(), 0, 4, at(12, 9)), None);
    assert_eq!(hovered_row(rows(), 0, 4, None), None);
}

/// A list with fewer items than rows leaves blank cells at the bottom, and
/// a pointer resting on one of them is over no row at all.
#[test]
fn a_pointer_past_the_last_row_hovers_nothing() {
    assert_eq!(hovered_row(rows(), 0, 2, at(12, 6)), Some(1));
    assert_eq!(hovered_row(rows(), 0, 2, at(12, 7)), None);
}

#[test]
fn fit_pads_short_strings_to_width() {
    assert_eq!(fit("abc", 5), "abc  ");
    assert_eq!(fit("", 3), "   ");
}

#[test]
fn fit_truncates_with_ellipsis() {
    assert_eq!(fit("abcdef", 4), "abc…");
}

#[test]
fn fit_measures_wide_glyphs_in_cells() {
    // Each CJK char is 2 cells; "残酷" = 4 cells.
    assert_eq!(fit("残酷", 4), "残酷");
    assert_eq!(fit("残酷", 5), "残酷 ");
    // Truncating "残酷な" (6 cells) to 5: "残酷" (4) + "…" = 5.
    assert_eq!(fit("残酷な", 5), "残酷…");
    // Truncating to 4: only "残" (2) fits before the ellipsis; pad 1.
    assert_eq!(fit("残酷な", 4), "残… ");
}

#[test]
fn fit_handles_zero_and_tiny_widths() {
    assert_eq!(fit("abc", 0), "");
    assert_eq!(fit("abc", 1), "…");
    assert_eq!(fit("残", 1), "…");
}

/// Every frame is one cell, so a row carrying the spinner keeps its width
/// as it turns and nothing beside it steps sideways.
#[test]
fn every_spinner_frame_is_one_cell() {
    for i in 0..SPINNER_LEN {
        let frame = spinner_frame(i);
        assert_eq!(width(frame), 1, "{frame:?}");
    }
}

/// Whatever the clock says, the glyph is one of the frames.
#[test]
fn the_spinner_reads_off_its_own_frames() {
    for ms in [0, 1, 109, 110, 111, 879, 880, 123_456_789, u64::MAX] {
        assert!((0..SPINNER_LEN).any(|i| spinner_frame(i) == spinner(ms)), "{:?}", spinner(ms));
    }
}

/// The frame is a function of elapsed time, so the phase advances rather
/// than sitting on whichever frame the process started on.
#[test]
fn the_spinner_turns() {
    let first = spinner(0);
    assert_ne!(first, spinner(SPINNER_FRAME + 20));
}

#[test]
fn a_loading_line_ends_in_a_frame() {
    for i in 0..SPINNER_LEN {
        assert!(ends_with_loading(&format!("♫ spot {} LOADING", spinner_frame(i))), "frame {i}");
        assert!(ends_with_loading(&format!("{} LOADING  ", spinner_frame(i))), "frame {i}");
    }
    assert!(!ends_with_loading("● LOADING"));
    assert!(!ends_with_loading("● STREAMING"));
    assert!(!ends_with_loading(""));
}

/// The run reads `★ ⧉ +` and fills exactly the cells the column reserves,
/// so a table laid out from it cannot come up short.
#[test]
fn the_action_run_fills_its_column_in_order() {
    let spans = action_spans(Some(true), None, theme::ACCENT);
    let printed = printed(&spans);
    assert_eq!(printed, format!(" {LIKED_MARK}  {SHARE_MARK}  {ADD_MARK} "));
    assert_eq!(width(&printed), ACTIONS_W);
}

/// Only the hovered control takes the pill; a run where more than one lit
/// would say the pointer is on all of them.
#[test]
fn one_hover_lights_one_control() {
    for (i, action) in [RowAction::Like, RowAction::Share, RowAction::Add].into_iter().enumerate() {
        let line = action_spans(None, Some(action), theme::ACCENT);
        let lit: Vec<usize> = line
            .spans
            .iter()
            .enumerate()
            .filter(|(_, s)| s.style.bg.is_some())
            .map(|(i, _)| i)
            .collect();
        assert_eq!(lit, vec![i], "{action:?}");
    }
}

#[test]
fn hovering_brightens_dim_text_and_keeps_the_rest() {
    let dim = hover_style(theme::dim());
    assert_eq!((dim.fg, dim.bg), (Some(theme::TEXT), Some(theme::DIM)));
    let warn = hover_style(theme::warn());
    assert_eq!((warn.fg, warn.bg), (Some(theme::WARN), Some(theme::DIM)));
}

#[test]
fn selecting_keeps_the_background_a_run_was_given() {
    let style = selection_style(theme::dim().on(theme::FIELD));
    assert_eq!(style.fg, Some(theme::BRIGHT));
    assert_eq!(style.bg, Some(theme::FIELD));
    assert!(style.bold);
}

/// Every level lands where a rounded ratio of the slider puts it.
#[test]
fn the_knob_lands_where_the_ratio_puts_it() {
    for percent in 0..=100u8 {
        let ratio = f64::from(percent) / 100.0;
        let want = (ratio * (VOL_TRACK_W - 1) as f64).round() as u16;
        assert_eq!(knob_at(percent, VOL_TRACK_W), want, "{percent}%");
    }
}

#[test]
fn a_slider_and_a_meter_fill_their_cells() {
    assert_eq!(printed(&slider(3, 8, false, theme::ACCENT)), "━━━●────");
    assert_eq!(printed(&slider(7, 8, false, theme::ACCENT)), "━━━━━━━●");
    assert_eq!(printed(&meter(3, true, 8, theme::ACCENT)), "━━━╸────");
    assert_eq!(printed(&meter(8, false, 8, theme::ACCENT)), "━━━━━━━━");
}

#[test]
fn a_box_is_centred_and_clamped() {
    let area = block(0, 0, 80, 24);
    assert_eq!(centered(area, 40, 10), block(20, 7, 40, 10));
    assert_eq!(centered(area, 200, 100), block(0, 0, 80, 24));
}

#[test]
fn a_block_of_art_is_twice_as_wide_as_it_is_tall() {
    assert_eq!(art_w(10), 20);
    assert_eq!(art_rows(20), 10);
    assert_eq!(art_rows(21), 10);
}

#[test]
fn art_puts_two_pixels_in_a_cell_and_a_note_in_the_middle() {
    let px: Vec<u32> = (0..16).collect();
    let area = block(3, 4, 4, 2);
    let cells = art_cells(area, area, &px, false);
    assert_eq!(cells.len(), 8);
    assert_eq!((cells[0].at, cells[0].fg, cells[0].bg), (Position { x: 3, y: 4 }, 0, 4));
    assert_eq!((cells[5].at, cells[5].fg, cells[5].bg), (Position { x: 4, y: 5 }, 9, 13));
    let standin = art_cells(area, area, &px, true);
    assert_eq!(standin.len(), 9);
    assert!(standin[8].note);
    assert_eq!((standin[8].at, standin[8].fg), (Position { x: 5, y: 5 }, theme::BRIGHT));
    assert_eq!(standin[8].bg, px[(2 * 1 + 1) * 4 + 2]);
    // Only the cells inside the clip are painted.
    let half = art_cells(area, block(3, 4, 4, 1), &px, false);
    assert_eq!(half.len(), 4);
}

/// A stand-in is picked by a hash of its seed, the same in every run.
#[test]
fn a_seed_always_gets_the_same_swatch() {
    let hash = |seed: &str| {
        seed.bytes().fold(0xcbf2_9ce4_8422_2325u64, |acc, b| {
            (acc ^ b as u64).wrapping_mul(0x0000_0100_0000_01b3)
        })
    };
    let mut seen: Vec<(u32, u32)> = Vec::new();
    for seed in ["", "a", "album", "残酷", "spotify:album:1", "q", "z", "m", "0", "1", "2", "3"] {
        let pair = placeholder(seed);
        assert_eq!(pair, spot_ui::table::placeholder_pair(hash(seed) % 6), "{seed:?}");
        if !seen.contains(&pair) {
            seen.push(pair);
        }
    }
    assert!(seen.len() > 1, "every seed got one swatch");
}

/// A cell is in the overlap of two blocks where it is in both, and an empty
/// block holds none.
#[test]
fn an_overlap_holds_what_both_blocks_hold() {
    let (a, b) = (block(2, 3, 6, 4), block(5, 1, 10, 4));
    for y in 0..12 {
        for x in 0..20 {
            let p = Position { x, y };
            let both = a.contains(p) && b.contains(p);
            assert_eq!(a.intersection(b).contains(p), both, "{x},{y}");
            assert!(!Rect::zero().contains(p));
            assert!(!block(3, 3, 0, 9).contains(p));
        }
    }
    assert!(a.intersection(block(40, 40, 3, 3)).is_empty());
}

/// A table with a column that gives fills its pane to the cell, and the play
/// order can be put in no other.
#[test]
fn a_table_fills_its_pane_and_a_queue_never_sorts() {
    for width in [40, 61, 80, 100, 173] {
        for cols in [tracks(true), tracks(false), playlists(), stations(true), stations(false)] {
            let layout = Layout::resolve(&cols, width, 120);
            let last = layout.cells().last().unwrap();
            assert_eq!(last.x + last.width, width, "{:?}", widths(&layout));
        }
        assert!(Layout::resolve(&queue(120), width, 120).sort_keys().is_empty());
    }
}

/// The spinner is back where it started once every frame has had its turn.
#[test]
fn the_spinner_comes_round_again() {
    for ms in [0, 55, 333, 4_321] {
        assert_eq!(spinner(ms), spinner(ms + SPINNER_FRAME * SPINNER_LEN));
    }
}

// ---- text ----

#[test]
fn wrapping_breaks_at_spaces_and_cuts_what_has_none() {
    assert_eq!(wrap("the quick brown fox", 10), vec!["the quick", "brown fox"]);
    assert_eq!(wrap("abcdefgh", 3), vec!["abc", "def", "gh"]);
    for line in wrap("one two three four five six seven eight", 11) {
        assert!(width(&line) <= 11, "{line:?}");
    }
}

#[test]
fn trimming_takes_every_kind_of_blank() {
    assert_eq!(trim_end("abc \t\u{3000}"), "abc");
    assert_eq!(trim_end("   "), "");
    assert_eq!(clipped("abcdef  ", 20), "abcdef");
    assert_eq!(clipped("abcdef", 4), "abc…");
}

#[test]
fn numbers_and_padding_read_as_they_should() {
    assert_eq!(dec(0), "0");
    assert_eq!(dec(90), "90");
    assert_eq!(dec(u64::MAX), u64::MAX.to_string());
    assert_eq!(pad_left("7", 3), "  7");
    assert_eq!(pad_right("7", 3), "7  ");
    assert_eq!(low_half(0x1_0002), 2);
}

#[test]
fn a_duration_reads_in_minutes_and_seconds() {
    assert_eq!(format_duration(83_000), "1:23");
    assert_eq!(format_duration(0), "0:00");
    assert_eq!(format_duration(3_600_000), "60:00");
    assert_eq!(format_duration(9_999), "0:09");
}

#[test]
fn credits_join_in_order() {
    let c = credits(&[("Zedd", None), ("Alessia Cara", None), ("Sera", None)]);
    assert_eq!(artists_line(&c), "Zedd, Alessia Cara, Sera");
    assert_eq!(artists_line(&Vec::new()), "");
}

#[test]
fn an_offset_is_held_to_the_content() {
    assert_eq!(clamp_offset(7, 10, 4), 6);
    assert_eq!(clamp_offset(3, 10, 4), 3);
    assert_eq!(clamp_offset(7, 3, 4), 0);
}

#[test]
fn the_first_entry_of_a_key_stands() {
    let kept = Kept {
        entries: vec![("a".into(), true), ("b".into(), false), ("a".into(), false)],
    };
    assert_eq!(kept.get(&"a".to_string()), Some(true));
    assert_eq!(kept.get(&"b".to_string()), Some(false));
    assert_eq!(kept.get(&"c".to_string()), None);
}

#[test]
fn the_playing_row_is_found_in_the_order_shown() {
    let mut list = SortedList {
        items: vec![track(), track()],
        display: vec![1, 0],
        sort: Sort { key: ColKey::Title, ascending: true },
    };
    list.items[0].uri = "a".into();
    list.items[1].uri = "b".into();
    assert_eq!(list.position_of(&Some("a".to_string())), Some(1));
    assert_eq!(list.position_of(&Some("b".to_string())), Some(0));
    assert_eq!(list.position_of(&Some("c".to_string())), None);
    assert_eq!(list.position_of(&None), None);
}

#[test]
fn a_number_belongs_to_the_track() {
    assert_eq!(track_no(&track(), 4, true), 7);
    assert_eq!(track_no(&track(), 4, false), 5);
    assert_eq!(printed_w("Album", 20), 5);
    assert_eq!(printed_w("A long name", 6), 6);
}

/// The light stops with the text, in columns.
#[test]
fn a_hovered_cell_keeps_its_padding_bare() {
    let line = cell_spans("残", 6, theme::dim(), true);
    assert_eq!(line.spans.len(), 2);
    assert_eq!(line.spans[0].text, "残");
    assert!(line.spans[0].style.bg.is_some());
    assert_eq!(line.spans[1].text, "    ");
    assert!(line.spans[1].style.bg.is_none());
}

// ---- theme ----

#[test]
fn packing_round_trips_a_colour_and_its_absence() {
    assert_eq!(unpack(pack(Some([1, 2, 3]))), Some([1, 2, 3]));
    assert_eq!(unpack(pack(Some([0, 0, 0]))), Some([0, 0, 0]));
    assert_eq!(unpack(pack(Some([255, 255, 255]))), Some([255, 255, 255]));
    assert_eq!(unpack(pack(None)), None);
}

/// The integer tones are the rounded ones.
#[test]
fn tones_are_the_rounded_shares_of_a_channel() {
    for v in 0..=255u32 {
        let ink = v << 16 | v << 8 | v;
        let lit = (v as f32 + (255.0 - v as f32) * 0.4).round() as u32;
        assert_eq!(accent_bright(ink) & 0xFF, lit, "lighten {v}");
        for percent in [35, 55, 62, 100] {
            let want = (v as f32 * (percent as f32 / 100.0)).round() as u32;
            assert_eq!(at_percent(ink, percent) & 0xFF, want, "{percent}% of {v}");
        }
    }
    assert_eq!(led_percent(Led::Lit), 100);
    assert_eq!(led_percent(Led::Half), 55);
    assert_eq!(led_percent(Led::Trail), 35);
}

#[test]
fn a_cover_installs_its_colours_and_its_absence_takes_them_down() {
    let both = set_cover_colors(Some(CoverColors {
        accent: Some([1, 2, 3]),
        ramp: Some([[4, 5, 6], [7, 8, 9]]),
    }));
    assert_eq!(accent_color(both), 0x010203);
    assert_eq!(viz_pair(both), Some([[4, 5, 6], [7, 8, 9]]));
    let none = set_cover_colors(None);
    assert_eq!(accent_color(none), theme::ACCENT);
    assert_eq!(viz_pair(none), None);
    let flat = set_cover_colors(Some(CoverColors { accent: None, ramp: None }));
    assert_eq!(accent_color(flat), theme::ACCENT);
    assert_eq!(viz_pair(flat), None);
}

// ---- play state ----

/// Audio arriving is the end of loading, whatever the poll still believes.
#[test]
fn audio_arriving_ends_the_wait_whatever_the_poll_says() {
    let mut st = streaming();
    st.pending_play = true;
    assert_eq!(state_of(&st), PlayState::Playing);

    // And before it arrives, the same wait is a load.
    st.tap_fresh = false;
    assert_eq!(state_of(&st), PlayState::Loading);
}

/// A station that has been asked for and has not connected yet.
#[test]
fn a_station_still_connecting_is_loading_not_playing() {
    let mut st = radio();
    assert_eq!(state_of(&st), PlayState::Playing);
    st.tap_fresh = false;
    assert_eq!(state_of(&st), PlayState::Loading);
}

/// Stopped is stopped: the tap is empty either way, and only the claim
/// tells the two apart.
#[test]
fn a_stopped_source_is_paused_not_loading() {
    let mut st = streaming();
    st.tap_fresh = false;
    st.playback.as_mut().unwrap().is_playing = false;
    assert_eq!(state_of(&st), PlayState::Paused);

    let mut st = radio();
    st.tap_fresh = false;
    st.radio.as_mut().unwrap().is_playing = false;
    assert_eq!(state_of(&st), PlayState::Paused);
}

/// Playing on a phone: the tap will never fill, so judging it by our own
/// audio would leave the deck stuck on `LOADING`.
#[test]
fn playback_on_another_device_is_never_loading() {
    let mut st = streaming();
    st.tap_fresh = false;
    st.playback.as_mut().unwrap().is_local_device = false;
    assert_eq!(state_of(&st), PlayState::Playing);
}

/// Nothing playing at all: no word for the corner.
#[test]
fn an_idle_app_reports_nothing() {
    let idle = Deck { radio: None, playback: None, pending_play: false, tap_fresh: false };
    assert!(status(&idle).is_none());
    assert_eq!(or_paused(status(&idle)), PlayState::Paused);
}

#[test]
fn a_station_speaks_over_the_record_under_it() {
    let mut deck = streaming();
    assert_eq!(status(&deck).unwrap().word, "STREAMING");
    deck.radio = radio().radio;
    assert_eq!(status(&deck).unwrap().word, "RADIO");
}

// ---- help ----

/// The key table of the readme, as it is printed there.
const README_KEYS: &str = "
| Key | Action |
| --- | --- |
| `Space` | play / pause |
| `n` / `p` | next / previous track or station |
| `h` / `l` | seek -5s / +5s |
| `-` / `=` | volume down / up |
| `s` | toggle shuffle |
| `j` / `k` | move down / up |
| `g` / `G` | jump to top / bottom |
| `Ctrl-d/u` | half page down / up |
| `H` | go home |
| `v` | toggle player view (Esc closes) |
| `V` | cycle the visualizer (in the player view) |
| `←` / `→` | switch search, artist or radio tab |
| `Backspace` | back to previous view |
| `Esc` | back / close overlay |
| `Enter` | open item / play selection |
| `x` | play without opening |
| `a` | play the selected track next |
| `L` | like the track, or save the station |
| `F` | save the playlist you are on |
| `E` | edit a playlist of your own |
| `b` / `B` | open track's album / artist |
| `o` / `O` | cycle sort / flip direction |
| `/` | search Spotify and radio |
| `R` | refresh view & playlists |
| `?` | toggle this help |
| `q` | quit |
| `Ctrl-c` | quit |
";

/// The readme's key table must carry every binding the help overlay shows.
/// Comparison ignores backticks and spaces so markdown styling doesn't
/// matter.
#[test]
fn readme_documents_every_key() {
    let readme: String = README_KEYS.chars().filter(|c| *c != '`' && *c != ' ').collect();
    for group in 0..GROUPS {
        for i in 0..group_len(group) {
            let entry = key_at(group, i);
            let needle: String = entry.key.chars().filter(|c| *c != ' ').collect();
            assert!(
                readme.contains(&needle),
                "README key table is missing `{}` ({})",
                entry.key,
                entry.action
            );
        }
    }
}

#[test]
fn every_key_and_hint_is_said_once() {
    let mut keys: Vec<&str> = Vec::new();
    for group in 0..GROUPS {
        for i in 0..group_len(group) {
            assert!(!keys.contains(&key_at(group, i).key), "{}", key_at(group, i).key);
            keys.push(key_at(group, i).key);
        }
    }
    assert_eq!(keys.len(), 27);
    let hints: Vec<&str> = (0..HINTS).map(mouse_hint).collect();
    for (i, hint) in hints.iter().enumerate() {
        assert!(!hints[..i].contains(hint), "{hint}");
    }
}

#[test]
fn the_version_says_what_an_update_is_doing() {
    let said = |u: &UpdateState| version("spot v1.2.3", u);
    assert_eq!(said(&UpdateState::Current), "spot v1.2.3");
    assert_eq!(said(&UpdateState::Failed), "spot v1.2.3");
    assert_eq!(said(&UpdateState::Available("v9".into())), "spot v1.2.3 · v9 available");
    assert_eq!(said(&UpdateState::Installing), "spot v1.2.3 · downloading an update");
    assert_eq!(said(&UpdateState::Installed), "spot v1.2.3 · restart to finish the update");
}

/// Every kind of white space is trimmed off the end, and nothing else is.
#[test]
fn only_white_space_is_trimmed() {
    for c in [
        '\t', '\n', '\u{b}', '\r', ' ', '\u{85}', '\u{a0}', '\u{1680}', '\u{2000}', '\u{200a}',
        '\u{2028}', '\u{2029}', '\u{202f}', '\u{205f}', '\u{3000}',
    ] {
        assert_eq!(trim_end(&format!("a{c}{c}")), "a", "{c:?}");
    }
    for c in ['!', '~', '…', '\u{8}', '\u{e}', '\u{200b}', '\u{180e}', '\u{feff}', '\u{2060}'] {
        let kept = format!("a{c}");
        assert_eq!(trim_end(&kept), kept, "{c:?}");
    }
}

/// The characters a row is drawn with take a cell each, and ideographs two.
#[test]
fn marks_take_one_cell_and_ideographs_two() {
    let narrow = (' '..='~')
        .chain('\u{2500}'..='\u{25fc}')
        .chain('\u{2800}'..='\u{28ff}')
        .chain(['…', '·', '✓', '★', '⧉']);
    let mut all = String::new();
    for c in narrow {
        assert_eq!(width(&c.to_string()), 1, "{c:?}");
        all.push(c);
    }
    assert_eq!(width(&all), all.chars().count());
    assert_eq!(painted_w(&all), all.chars().count());
    let wide: String = ('\u{4e00}'..='\u{9fff}').collect();
    assert_eq!(width(&wide), 2 * wide.chars().count());
    assert_eq!(painted_w(&wide), 2 * wide.chars().count());
    let mixed = format!("{all}残酷{all}");
    assert_eq!(painted_w(&mixed), width(&mixed));
}

/// The cells a painted text takes, a thousand letters to a run.
fn painted_w(s: &str) -> usize {
    s.chars()
        .collect::<Vec<char>>()
        .chunks(1000)
        .map(|part| Line::of(part.iter().collect(), Style::plain()).width() as usize)
        .sum()
}

/// Joined texts take the cells of both, counted in cells and not in letters.
#[test]
fn joined_texts_take_the_cells_of_both() {
    assert_eq!(width(""), 0);
    assert_eq!(width("残酷"), 4);
    for (a, b) in [("残酷", "な天使"), ("abc", ""), ("", "…"), ("\u{301}e", "\u{301}")] {
        assert_eq!(width(&format!("{a}{b}")), width(a) + width(b));
    }
    for i in 0..8 {
        assert_eq!(width(spinner_frame(i)), 1);
    }
}
