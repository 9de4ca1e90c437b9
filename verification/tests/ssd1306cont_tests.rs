use tractyl_core::events::{LayerChangeEvent, LedIndicator, LedIndicatorEvent, WpmUpdateEvent};
use tractyl_core::jigglemode::JiggleEvent;
use tractyl_core::ssd1306cont::{format_wpm, layer_name, Ssd1306Controller, TextRegion};
use tractyl_core::transcoder::page_pixel_at;

fn indicators(num: bool, caps: bool, scroll: bool, compose: bool) -> LedIndicator {
    LedIndicator {
        num_lock: num,
        caps_lock: caps,
        scroll_lock: scroll,
        compose,
    }
}

#[test]
fn caps_lock_alone_inverts_only_its_glyph() {
    let mut c = Ssd1306Controller::new();
    c.on_led_indicator_event(LedIndicatorEvent {
        indicator: indicators(false, true, false, false),
    });
    let regions = c.poll();
    assert_eq!(regions[0].text, "N");
    assert!(!regions[0].inverted);
    assert_eq!(regions[2].text, "C");
    assert!(regions[2].inverted);
    assert_eq!(regions[4].text, "S");
    assert!(!regions[4].inverted);
}

#[test]
fn unknown_layer_renders_sentinel_label() {
    let mut c = Ssd1306Controller::new();
    c.on_layer_change_event(LayerChangeEvent { layer: 7 });
    let regions = c.poll();
    assert_eq!(regions[5].text, "UNKNO");
    assert!(!regions[5].inverted);
}

#[test]
fn layer_labels_resolve_from_table() {
    assert_eq!(layer_name(0), "DVORA");
    assert_eq!(layer_name(1), "LOWER");
    assert_eq!(layer_name(2), "RAISE");
    assert_eq!(layer_name(3), "UNKNO");
    assert_eq!(layer_name(255), "UNKNO");
    let mut c = Ssd1306Controller::new();
    c.on_layer_change_event(LayerChangeEvent { layer: 1 });
    let regions = c.poll();
    assert_eq!(regions[5].text, "LOWER");
}

#[test]
fn wpm_readout_is_fixed_width() {
    assert_eq!(format_wpm(0), "W:  0");
    assert_eq!(format_wpm(7), "W:  7");
    assert_eq!(format_wpm(42), "W: 42");
    assert_eq!(format_wpm(123), "W:123");
    assert_eq!(format_wpm(65535), "W:65535");
}

#[test]
fn wpm_event_reaches_the_readout() {
    let mut c = Ssd1306Controller::new();
    c.on_wpm_update_event(WpmUpdateEvent { wpm: 88 });
    let regions = c.poll();
    assert_eq!(regions[9].text, "W: 88");
    assert!(!regions[9].inverted);
}

#[test]
fn compose_and_jiggle_glyphs_invert_independently() {
    let mut c = Ssd1306Controller::new();
    c.on_led_indicator_event(LedIndicatorEvent {
        indicator: indicators(false, false, false, true),
    });
    let regions = c.poll();
    assert_eq!(regions[6].text, "CO");
    assert!(regions[6].inverted);
    assert_eq!(regions[8].text, "JI");
    assert!(!regions[8].inverted);

    c.on_jiggle_event(JiggleEvent(true));
    let regions = c.poll();
    assert!(regions[6].inverted);
    assert!(regions[8].inverted);
}

#[test]
fn layout_positions_are_fixed() {
    let mut c = Ssd1306Controller::new();
    let regions = c.poll();
    let expected: [(u32, u32); 10] = [
        (0, 0),
        (6, 0),
        (12, 0),
        (18, 0),
        (24, 0),
        (0, 12),
        (0, 24),
        (12, 24),
        (18, 24),
        (0, 36),
    ];
    assert_eq!(regions.len(), 10);
    for (region, (x, y)) in regions.iter().zip(expected.iter()) {
        assert_eq!(region.x, *x);
        assert_eq!(region.y, *y);
    }
}

#[test]
fn rendering_is_idempotent_for_equal_state() {
    let mut c = Ssd1306Controller::new();
    c.on_led_indicator_event(LedIndicatorEvent {
        indicator: indicators(true, false, true, false),
    });
    c.on_wpm_update_event(WpmUpdateEvent { wpm: 31 });
    let first = c.poll();
    let second = c.poll();
    assert_eq!(first.len(), second.len());
    for (a, b) in first.iter().zip(second.iter()) {
        let TextRegion {
            x,
            y,
            text,
            inverted,
        } = a;
        assert_eq!(*x, b.x);
        assert_eq!(*y, b.y);
        assert_eq!(*text, b.text);
        assert_eq!(*inverted, b.inverted);
    }
}

#[test]
fn frame_shows_the_transcoded_cat_and_nothing_else() {
    let mut c = Ssd1306Controller::new();
    c.poll();
    let pages = c.cat_pages().clone();
    let mut on_bits = 0u32;
    for x in 0..32 {
        for y in 0..128 {
            let expected = if (85..125).contains(&y) {
                page_pixel_at(&pages, 32, 40, x, y - 85)
            } else {
                false
            };
            assert_eq!(c.frame_pixel_at(x, y), expected, "pixel ({}, {})", x, y);
            if expected {
                on_bits += 1;
            }
        }
    }
    // The artwork is not blank, and a known on-bit of it sits where the
    // addressing rules put it: page byte 34 (page 1, column 2) holds 0xc0,
    // so rows 14 and 15 of the artwork are lit at x = 2, which land at
    // display rows 99 and 100 under the fixed offset.
    assert!(on_bits > 0);
    assert_eq!(pages[34], 0xc0);
    assert!(c.frame_pixel_at(2, 99));
    assert!(c.frame_pixel_at(2, 100));
    assert!(!c.frame_pixel_at(2, 98));
}
