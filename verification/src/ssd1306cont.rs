use crate::events::{LayerChangeEvent, LedIndicator, LedIndicatorEvent, WpmUpdateEvent};
use crate::framebuffer::FrameBuffer;
use crate::jigglemode::JiggleEvent;
use crate::transcoder::{is_transcoding, page_count, page_pixel, transcode};
use vstd::prelude::*;

verus! {

/// Pixel width of one glyph of the fixed 6x10 font.
pub const CHAR_WIDTH: u32 = 6;

/// Pixel height of one glyph of the fixed 6x10 font.
pub const CHAR_HEIGHT: u32 = 10;

/// Width in pixels of the portrait-rotated display.
pub const DISPLAY_WIDTH: usize = 32;

/// Height in pixels of the portrait-rotated display.
pub const DISPLAY_HEIGHT: usize = 128;

/// Width in pixels of the idle-cat bitmap asset.
pub const CAT_WIDTH: usize = 32;

/// Height in pixels of the idle-cat bitmap asset.
pub const CAT_HEIGHT: usize = 40;

/// Horizontal position of the bitmap asset on the display.
pub const CAT_X: usize = 0;

/// Vertical position of the bitmap asset, below the text rows.
pub const CAT_Y: usize = 85;

/// The mathematical shadow of a [`TextRegion`].
pub ghost struct TextRegionView {
    pub x: int,
    pub y: int,
    pub text: Seq<char>,
    pub inverted: bool,
}

/// One text run of the rendered status layout: the glyphs of `text` start at
/// pixel position (x, y), drawn inverted (filled background) when `inverted`
/// holds, normal otherwise.
pub struct TextRegion {
    pub x: u32,
    pub y: u32,
    pub text: String,
    pub inverted: bool,
}

impl View for TextRegion {
    type V = TextRegionView;

    open spec fn view(&self) -> TextRegionView {
        TextRegionView { x: self.x as int, y: self.y as int, text: self.text@, inverted: self.inverted }
    }
}

/// The character for decimal digit `d`.
pub open spec fn digit_char(d: int) -> char {
    if d == 0 {
        '0'
    } else if d == 1 {
        '1'
    } else if d == 2 {
        '2'
    } else if d == 3 {
        '3'
    } else if d == 4 {
        '4'
    } else if d == 5 {
        '5'
    } else if d == 6 {
        '6'
    } else if d == 7 {
        '7'
    } else if d == 8 {
        '8'
    } else {
        '9'
    }
}

/// The decimal digits of `n`, most significant first, no leading zeros
/// (a single zero for `n == 0`).
pub open spec fn dec_digits(n: int) -> Seq<char>
    decreases n,
{
    if n < 10 {
        seq![digit_char(n)]
    } else {
        dec_digits(n / 10).push(digit_char(n % 10))
    }
}

/// `s` padded on the left with spaces to at least `n` characters.
pub open spec fn pad_left(s: Seq<char>, n: int) -> Seq<char> {
    if s.len() >= n {
        s
    } else {
        Seq::new((n - s.len()) as nat, |i: int| ' ') + s
    }
}

/// The typing-speed readout: a fixed-width numeric field behind a `W:` tag.
pub open spec fn spec_wpm_text(wpm: u16) -> Seq<char> {
    "W:"@ + pad_left(dec_digits(wpm as int), 3)
}

/// The label of a layer index: a fixed-width name from the static table, or
/// the sentinel label for an index outside it.
pub open spec fn spec_layer_name(layer: u8) -> Seq<char> {
    if layer == 0 {
        "DVORA"@
    } else if layer == 1 {
        "LOWER"@
    } else if layer == 2 {
        "RAISE"@
    } else {
        "UNKNO"@
    }
}

/// The full status layout for one render tick, top to bottom: the three
/// lock-indicator glyphs with blank separators, the layer label, the
/// compose / anti-idle pair with a blank separator, and the typing-speed
/// readout. A glyph is inverted exactly when its state flag is set.
pub open spec fn spec_layout(
    ind: LedIndicator,
    layer: u8,
    jiggle_active: bool,
    wpm: u16,
) -> Seq<TextRegionView> {
    seq![
        TextRegionView { x: 0, y: 0, text: "N"@, inverted: ind.num_lock },
        TextRegionView { x: 6, y: 0, text: " "@, inverted: false },
        TextRegionView { x: 12, y: 0, text: "C"@, inverted: ind.caps_lock },
        TextRegionView { x: 18, y: 0, text: " "@, inverted: false },
        TextRegionView { x: 24, y: 0, text: "S"@, inverted: ind.scroll_lock },
        TextRegionView { x: 0, y: 12, text: spec_layer_name(layer), inverted: false },
        TextRegionView { x: 0, y: 24, text: "CO"@, inverted: ind.compose },
        TextRegionView { x: 12, y: 24, text: " "@, inverted: false },
        TextRegionView { x: 18, y: 24, text: "JI"@, inverted: jiggle_active },
        TextRegionView { x: 0, y: 36, text: spec_wpm_text(wpm), inverted: false },
    ]
}

/// Resolves the fixed-width layer label; an unknown index yields the
/// sentinel label, never a failure.
pub fn layer_name(layer: u8) -> (r: &'static str)
    ensures
        r@ == spec_layer_name(layer),
{
    match layer {
        0 => "DVORA",
        1 => "LOWER",
        2 => "RAISE",
        _ => "UNKNO",
    }
}

/// The one-character string for decimal digit `d`.
fn digit_str(d: u16) -> (r: &'static str)
    requires
        d < 10,
    ensures
        r@ == seq![digit_char(d as int)],
{
    proof {
        reveal_strlit("0");
        reveal_strlit("1");
        reveal_strlit("2");
        reveal_strlit("3");
        reveal_strlit("4");
        reveal_strlit("5");
        reveal_strlit("6");
        reveal_strlit("7");
        reveal_strlit("8");
        reveal_strlit("9");
        assert("0"@ =~= seq![digit_char(0)]);
        assert("1"@ =~= seq![digit_char(1)]);
        assert("2"@ =~= seq![digit_char(2)]);
        assert("3"@ =~= seq![digit_char(3)]);
        assert("4"@ =~= seq![digit_char(4)]);
        assert("5"@ =~= seq![digit_char(5)]);
        assert("6"@ =~= seq![digit_char(6)]);
        assert("7"@ =~= seq![digit_char(7)]);
        assert("8"@ =~= seq![digit_char(8)]);
        assert("9"@ =~= seq![digit_char(9)]);
    }
    match d {
        0 => "0",
        1 => "1",
        2 => "2",
        3 => "3",
        4 => "4",
        5 => "5",
        6 => "6",
        7 => "7",
        8 => "8",
        _ => "9",
    }
}

/// The decimal digit string of `wpm`, most significant digit first.
fn wpm_digits(wpm: u16) -> (r: String)
    ensures
        r@ == dec_digits(wpm as int),
{
    let mut n: u16 = wpm;
    let mut s: String = String::from_str(digit_str(n % 10));
    proof {
        if wpm >= 10 {
            assert(dec_digits(wpm as int) == dec_digits(wpm as int / 10).push(
                digit_char(wpm as int % 10),
            ));
            assert(dec_digits(wpm as int / 10).push(digit_char(wpm as int % 10)) =~= dec_digits(
                wpm as int / 10,
            ) + seq![digit_char(wpm as int % 10)]);
        }
    }
    n = n / 10;
    while n > 0
        invariant
            n > 0 ==> dec_digits(wpm as int) == dec_digits(n as int) + s@,
            n == 0 ==> dec_digits(wpm as int) == s@,
        decreases n,
    {
        let d: u16 = n % 10;
        let piece = String::from_str(digit_str(d));
        let ghost old_s = s@;
        s = piece.concat(s.as_str());
        proof {
            if n >= 10 {
                assert(dec_digits(n as int) == dec_digits(n as int / 10).push(
                    digit_char(n as int % 10),
                ));
                assert(dec_digits(n as int / 10).push(digit_char(n as int % 10)) =~= dec_digits(
                    n as int / 10,
                ) + seq![digit_char(n as int % 10)]);
                assert((dec_digits(n as int / 10) + seq![digit_char(n as int % 10)]) + old_s
                    =~= dec_digits(n as int / 10) + (seq![digit_char(n as int % 10)] + old_s));
            } else {
                assert(dec_digits(n as int) == seq![digit_char(n as int)]);
            }
        }
        n = n / 10;
    }
    s
}

/// Formats the typing speed as the fixed-width readout `W:` followed by the
/// decimal value padded on the left to three characters.
pub fn format_wpm(wpm: u16) -> (r: String)
    ensures
        r@ == spec_wpm_text(wpm),
{
    let digits = wpm_digits(wpm);
    let l: usize = digits.as_str().unicode_len();
    let padded: String = if l == 1 {
        let p = String::from_str("  ").concat(digits.as_str());
        proof {
            reveal_strlit("  ");
            assert("  "@ =~= Seq::new(2, |i: int| ' '));
            assert(p@ =~= pad_left(digits@, 3));
        }
        p
    } else if l == 2 {
        let p = String::from_str(" ").concat(digits.as_str());
        proof {
            reveal_strlit(" ");
            assert(" "@ =~= Seq::new(1, |i: int| ' '));
            assert(p@ =~= pad_left(digits@, 3));
        }
        p
    } else {
        digits
    };
    String::from_str("W:").concat(padded.as_str())
}

/// The bytes of the page-mode idle-cat artwork, 32 x 40 pixels in five
/// pages of 32 bytes.
pub open spec fn spec_cat_idle_pages() -> Seq<u8> {
    seq![
        0x00, 0x00, 0x00, 0x00, 0x00, 0x00, 0x00, 0x00, 0x00, 0x00, 0x00, 0x00, 0x00, 0x00, 0x00,
        0x00, 0x00, 0x00, 0x00, 0x00, 0x00, 0x00, 0x00, 0x00, 0x00, 0x00, 0x00, 0x00, 0x00, 0x00,
        0x00, 0x00, 0x00, 0x00, 0xc0, 0x60, 0x10, 0x10, 0x60, 0xc0, 0x00, 0x80, 0x40, 0x40, 0x20,
        0x20, 0x20, 0x20, 0x20, 0x20, 0x20, 0x20, 0x40, 0x40, 0x80, 0x00, 0xc0, 0x60, 0x10, 0x10,
        0x60, 0xc0, 0x00, 0x00, 0x80, 0x70, 0x1f, 0x00, 0x00, 0x00, 0x00, 0x01, 0x01, 0x60, 0x60,
        0x00, 0x80, 0x00, 0x00, 0x00, 0x00, 0x00, 0x80, 0x00, 0x60, 0x60, 0x00, 0x01, 0x01, 0x00,
        0x00, 0x00, 0x00, 0x0f, 0x78, 0xc0, 0x1f, 0x10, 0x10, 0x10, 0x10, 0x70, 0xc0, 0x00, 0x00,
        0x00, 0x00, 0xc0, 0x71, 0x12, 0x12, 0x11, 0x12, 0x72, 0xc1, 0x00, 0x00, 0x00, 0x00, 0xc0,
        0x70, 0x10, 0x10, 0x10, 0x10, 0x10, 0x10, 0x1f, 0x00, 0x00, 0x00, 0x00, 0x00, 0x00, 0x01,
        0x01, 0x02, 0x02, 0x01, 0x01, 0x00, 0x00, 0x00, 0x00, 0x00, 0x00, 0x01, 0x01, 0x02, 0x02,
        0x01, 0x01, 0x00, 0x00, 0x00, 0x00, 0x00, 0x00, 0x00, 0x00,
    ]
}

/// The page-mode idle-cat artwork, 32 x 40 pixels in five pages of 32 bytes.
pub fn cat_idle_pages() -> (r: Vec<u8>)
    ensures
        r@ == spec_cat_idle_pages(),
        r@.len() == CAT_WIDTH * page_count(CAT_HEIGHT as int),
{
    let r: Vec<u8> = vec![
        0x00, 0x00, 0x00, 0x00, 0x00, 0x00, 0x00, 0x00, 0x00, 0x00, 0x00, 0x00, 0x00, 0x00, 0x00,
        0x00, 0x00, 0x00, 0x00, 0x00, 0x00, 0x00, 0x00, 0x00, 0x00, 0x00, 0x00, 0x00, 0x00, 0x00,
        0x00, 0x00, 0x00, 0x00, 0xc0, 0x60, 0x10, 0x10, 0x60, 0xc0, 0x00, 0x80, 0x40, 0x40, 0x20,
        0x20, 0x20, 0x20, 0x20, 0x20, 0x20, 0x20, 0x40, 0x40, 0x80, 0x00, 0xc0, 0x60, 0x10, 0x10,
        0x60, 0xc0, 0x00, 0x00, 0x80, 0x70, 0x1f, 0x00, 0x00, 0x00, 0x00, 0x01, 0x01, 0x60, 0x60,
        0x00, 0x80, 0x00, 0x00, 0x00, 0x00, 0x00, 0x80, 0x00, 0x60, 0x60, 0x00, 0x01, 0x01, 0x00,
        0x00, 0x00, 0x00, 0x0f, 0x78, 0xc0, 0x1f, 0x10, 0x10, 0x10, 0x10, 0x70, 0xc0, 0x00, 0x00,
        0x00, 0x00, 0xc0, 0x71, 0x12, 0x12, 0x11, 0x12, 0x72, 0xc1, 0x00, 0x00, 0x00, 0x00, 0xc0,
        0x70, 0x10, 0x10, 0x10, 0x10, 0x10, 0x10, 0x1f, 0x00, 0x00, 0x00, 0x00, 0x00, 0x00, 0x01,
        0x01, 0x02, 0x02, 0x01, 0x01, 0x00, 0x00, 0x00, 0x00, 0x00, 0x00, 0x01, 0x01, 0x02, 0x02,
        0x01, 0x01, 0x00, 0x00, 0x00, 0x00, 0x00, 0x00, 0x00, 0x00,
    ];
    proof {
        assert(r@ =~= spec_cat_idle_pages());
    }
    r
}

/// The status display renderer. It tracks four derived fields from events,
/// and on each render tick composes the full status layout: the text regions
/// (returned for the font rasterizer) and the bitmap asset (drawn into its
/// own frame buffer). Initialization transcodes the page-mode artwork once
/// into the row-major form the frame buffer takes. Flushing pixels to the
/// hardware is the caller's business; a failed flush costs only that tick's
/// output, the next tick renders in full again.
pub struct Ssd1306Controller {
    current_indicators: LedIndicator,
    current_layer: u8,
    jiggle_active: bool,
    current_wpm: u16,
    cat_pages: Vec<u8>,
    cat_rows: Vec<u8>,
    frame: FrameBuffer,
}

impl Ssd1306Controller {
    /// The most recently reported LED indicator state.
    pub closed spec fn spec_indicators(self) -> LedIndicator {
        self.current_indicators
    }

    /// The most recently observed active layer.
    pub closed spec fn spec_layer(self) -> u8 {
        self.current_layer
    }

    /// Whether the anti-idle controller reported itself active.
    pub closed spec fn spec_jiggle_active(self) -> bool {
        self.jiggle_active
    }

    /// The most recent typing-speed measurement.
    pub closed spec fn spec_wpm(self) -> u16 {
        self.current_wpm
    }

    /// The bytes of the page-mode bitmap asset held by this renderer.
    pub closed spec fn spec_cat_pages(self) -> Seq<u8> {
        self.cat_pages@
    }

    /// Pixel (x, y) of the renderer's frame buffer.
    pub closed spec fn frame_pixel(self, x: int, y: int) -> bool {
        self.frame.pixel(x, y)
    }

    /// The renderer's internal assets and surface are consistent: the frame
    /// buffer has the display's dimensions and the row-major asset is the
    /// transcoding of the page-mode artwork.
    pub closed spec fn wf(self) -> bool {
        &&& self.cat_pages@.len() == CAT_WIDTH * page_count(CAT_HEIGHT as int)
        &&& is_transcoding(self.cat_pages@, self.cat_rows@, CAT_WIDTH as int, CAT_HEIGHT as int)
        &&& self.frame.wf()
        &&& self.frame.spec_width() == DISPLAY_WIDTH
        &&& self.frame.spec_height() == DISPLAY_HEIGHT
    }

    /// A fresh renderer: all state fields at their power-on values, the
    /// artwork transcoded, the frame buffer blank.
    pub fn new() -> (r: Self)
        ensures
            r.wf(),
            r.spec_indicators() == (LedIndicator {
                num_lock: false,
                caps_lock: false,
                scroll_lock: false,
                compose: false,
            }),
            r.spec_layer() == 0,
            r.spec_jiggle_active() == false,
            r.spec_wpm() == 0,
            r.spec_cat_pages() == spec_cat_idle_pages(),
            forall|x: int, y: int|
                0 <= x < DISPLAY_WIDTH && 0 <= y < DISPLAY_HEIGHT ==> !r.frame_pixel(x, y),
    {
        let cat_pages = cat_idle_pages();
        let cat_rows = match transcode(&cat_pages, CAT_WIDTH, CAT_HEIGHT) {
            Ok(v) => v,
            Err(_) => vstd::pervasive::unreached(),
        };
        let frame = FrameBuffer::new(DISPLAY_WIDTH, DISPLAY_HEIGHT);
        Ssd1306Controller {
            current_indicators: LedIndicator::all_off(),
            current_layer: 0,
            jiggle_active: false,
            current_wpm: 0,
            cat_pages,
            cat_rows,
            frame,
        }
    }

    /// The page-mode bitmap asset, for checking what the frame shows.
    pub fn cat_pages(&self) -> (r: &Vec<u8>)
        requires
            self.wf(),
        ensures
            r@ == self.spec_cat_pages(),
            r@.len() == CAT_WIDTH * page_count(CAT_HEIGHT as int),
    {
        &self.cat_pages
    }

    /// Reads pixel (x, y) of the frame buffer.
    pub fn frame_pixel_at(&self, x: usize, y: usize) -> (r: bool)
        requires
            self.wf(),
            x < DISPLAY_WIDTH,
            y < DISPLAY_HEIGHT,
        ensures
            r == self.frame_pixel(x as int, y as int),
    {
        self.frame.get_pixel(x, y)
    }

    /// Records the newest typing-speed measurement.
    pub fn on_wpm_update_event(&mut self, event: WpmUpdateEvent)
        ensures
            final(self).spec_wpm() == event.wpm,
            final(self).spec_indicators() == old(self).spec_indicators(),
            final(self).spec_layer() == old(self).spec_layer(),
            final(self).spec_jiggle_active() == old(self).spec_jiggle_active(),
            final(self).spec_cat_pages() == old(self).spec_cat_pages(),
            forall|x: int, y: int|
                final(self).frame_pixel(x, y) == old(self).frame_pixel(x, y),
            old(self).wf() ==> final(self).wf(),
    {
        self.current_wpm = event.wpm;
    }

    /// Records the new active layer.
    pub fn on_layer_change_event(&mut self, event: LayerChangeEvent)
        ensures
            final(self).spec_layer() == event.layer,
            final(self).spec_indicators() == old(self).spec_indicators(),
            final(self).spec_jiggle_active() == old(self).spec_jiggle_active(),
            final(self).spec_wpm() == old(self).spec_wpm(),
            final(self).spec_cat_pages() == old(self).spec_cat_pages(),
            forall|x: int, y: int|
                final(self).frame_pixel(x, y) == old(self).frame_pixel(x, y),
            old(self).wf() ==> final(self).wf(),
    {
        if event.layer != self.current_layer {
            self.current_layer = event.layer;
        }
    }

    /// Records the new LED indicator state.
    pub fn on_led_indicator_event(&mut self, event: LedIndicatorEvent)
        ensures
            final(self).spec_indicators() == event.indicator,
            final(self).spec_layer() == old(self).spec_layer(),
            final(self).spec_jiggle_active() == old(self).spec_jiggle_active(),
            final(self).spec_wpm() == old(self).spec_wpm(),
            final(self).spec_cat_pages() == old(self).spec_cat_pages(),
            forall|x: int, y: int|
                final(self).frame_pixel(x, y) == old(self).frame_pixel(x, y),
            old(self).wf() ==> final(self).wf(),
    {
        self.current_indicators = event.indicator;
    }

    /// Records the anti-idle controller's broadcast state.
    pub fn on_jiggle_event(&mut self, event: JiggleEvent)
        ensures
            final(self).spec_jiggle_active() == event.0,
            final(self).spec_indicators() == old(self).spec_indicators(),
            final(self).spec_layer() == old(self).spec_layer(),
            final(self).spec_wpm() == old(self).spec_wpm(),
            final(self).spec_cat_pages() == old(self).spec_cat_pages(),
            forall|x: int, y: int|
                final(self).frame_pixel(x, y) == old(self).frame_pixel(x, y),
            old(self).wf() ==> final(self).wf(),
    {
        self.jiggle_active = event.0;
    }

    /// Emits the three lock-indicator glyphs with blank separators at row `y`.
    fn draw_indicators(&self, out: &mut Vec<TextRegion>, y: u32)
        ensures
            final(out)@.len() == old(out)@.len() + 5,
            forall|i: int| 0 <= i < old(out)@.len() ==> final(out)@[i] == old(out)@[i],
            final(out)@[old(out)@.len() as int + 0]@ == (TextRegionView {
                x: 0,
                y: y as int,
                text: "N"@,
                inverted: self.current_indicators.num_lock,
            }),
            final(out)@[old(out)@.len() as int + 1]@ == (TextRegionView {
                x: 6,
                y: y as int,
                text: " "@,
                inverted: false,
            }),
            final(out)@[old(out)@.len() as int + 2]@ == (TextRegionView {
                x: 12,
                y: y as int,
                text: "C"@,
                inverted: self.current_indicators.caps_lock,
            }),
            final(out)@[old(out)@.len() as int + 3]@ == (TextRegionView {
                x: 18,
                y: y as int,
                text: " "@,
                inverted: false,
            }),
            final(out)@[old(out)@.len() as int + 4]@ == (TextRegionView {
                x: 24,
                y: y as int,
                text: "S"@,
                inverted: self.current_indicators.scroll_lock,
            }),
    {
        let mut cursor_x: u32 = 0;
        out.push(
            TextRegion {
                x: cursor_x,
                y,
                text: String::from_str("N"),
                inverted: self.current_indicators.num_lock,
            },
        );
        cursor_x = cursor_x + CHAR_WIDTH;
        out.push(TextRegion { x: cursor_x, y, text: String::from_str(" "), inverted: false });
        cursor_x = cursor_x + CHAR_WIDTH;
        out.push(
            TextRegion {
                x: cursor_x,
                y,
                text: String::from_str("C"),
                inverted: self.current_indicators.caps_lock,
            },
        );
        cursor_x = cursor_x + CHAR_WIDTH;
        out.push(TextRegion { x: cursor_x, y, text: String::from_str(" "), inverted: false });
        cursor_x = cursor_x + CHAR_WIDTH;
        out.push(
            TextRegion {
                x: cursor_x,
                y,
                text: String::from_str("S"),
                inverted: self.current_indicators.scroll_lock,
            },
        );
    }

    /// Emits the layer label at row `y`.
    fn draw_layer(&self, out: &mut Vec<TextRegion>, y: u32)
        ensures
            final(out)@.len() == old(out)@.len() + 1,
            forall|i: int| 0 <= i < old(out)@.len() ==> final(out)@[i] == old(out)@[i],
            final(out)@[old(out)@.len() as int + 0]@ == (TextRegionView {
                x: 0,
                y: y as int,
                text: spec_layer_name(self.current_layer),
                inverted: false,
            }),
    {
        let name = layer_name(self.current_layer);
        out.push(TextRegion { x: 0, y, text: String::from_str(name), inverted: false });
    }

    /// Emits the compose and anti-idle glyph pair at row `y`.
    fn draw_compose_jiggle(&self, out: &mut Vec<TextRegion>, y: u32)
        ensures
            final(out)@.len() == old(out)@.len() + 3,
            forall|i: int| 0 <= i < old(out)@.len() ==> final(out)@[i] == old(out)@[i],
            final(out)@[old(out)@.len() as int + 0]@ == (TextRegionView {
                x: 0,
                y: y as int,
                text: "CO"@,
                inverted: self.current_indicators.compose,
            }),
            final(out)@[old(out)@.len() as int + 1]@ == (TextRegionView {
                x: 12,
                y: y as int,
                text: " "@,
                inverted: false,
            }),
            final(out)@[old(out)@.len() as int + 2]@ == (TextRegionView {
                x: 18,
                y: y as int,
                text: "JI"@,
                inverted: self.jiggle_active,
            }),
    {
        let mut cursor_x: u32 = 0;
        out.push(
            TextRegion {
                x: cursor_x,
                y,
                text: String::from_str("CO"),
                inverted: self.current_indicators.compose,
            },
        );
        cursor_x = cursor_x + CHAR_WIDTH * 2;
        out.push(TextRegion { x: cursor_x, y, text: String::from_str(" "), inverted: false });
        cursor_x = cursor_x + CHAR_WIDTH;
        out.push(
            TextRegion { x: cursor_x, y, text: String::from_str("JI"), inverted: self.jiggle_active },
        );
    }

    /// Emits the typing-speed readout at row `y`.
    fn draw_wpm(&self, out: &mut Vec<TextRegion>, y: u32)
        ensures
            final(out)@.len() == old(out)@.len() + 1,
            forall|i: int| 0 <= i < old(out)@.len() ==> final(out)@[i] == old(out)@[i],
            final(out)@[old(out)@.len() as int + 0]@ == (TextRegionView {
                x: 0,
                y: y as int,
                text: spec_wpm_text(self.current_wpm),
                inverted: false,
            }),
    {
        let text = format_wpm(self.current_wpm);
        out.push(TextRegion { x: 0, y, text, inverted: false });
    }

    /// Draws the bitmap asset into the frame buffer at the byte-aligned
    /// position (x0, y0): inside the target rectangle the frame shows the
    /// page-mode artwork's pixels, outside it nothing moves.
    fn draw_cat(&mut self, x0: usize, y0: usize)
        requires
            old(self).wf(),
            x0 % 8 == 0,
            x0 + CAT_WIDTH <= DISPLAY_WIDTH,
            y0 + CAT_HEIGHT <= DISPLAY_HEIGHT,
        ensures
            final(self).wf(),
            final(self).spec_indicators() == old(self).spec_indicators(),
            final(self).spec_layer() == old(self).spec_layer(),
            final(self).spec_jiggle_active() == old(self).spec_jiggle_active(),
            final(self).spec_wpm() == old(self).spec_wpm(),
            final(self).spec_cat_pages() == old(self).spec_cat_pages(),
            forall|x: int, y: int|
                0 <= x < DISPLAY_WIDTH && 0 <= y < DISPLAY_HEIGHT ==> final(self).frame_pixel(x, y)
                    == (if x0 <= x < x0 + CAT_WIDTH && y0 <= y < y0 + CAT_HEIGHT {
                    page_pixel(old(self).spec_cat_pages(), CAT_WIDTH as int, x - x0, y - y0)
                } else {
                    old(self).frame_pixel(x, y)
                }),
    {
        self.frame.blit(&self.cat_rows, CAT_WIDTH, CAT_HEIGHT, x0, y0);
    }

    /// One render tick: composes the full status layout for the current
    /// state. The returned regions are the text runs, top to bottom; the
    /// frame buffer is cleared and shows exactly the bitmap asset at its
    /// fixed position. Rendering reads the state and never changes it, so
    /// equal states render equal output.
    pub fn poll(&mut self) -> (r: Vec<TextRegion>)
        requires
            old(self).wf(),
        ensures
            final(self).wf(),
            final(self).spec_indicators() == old(self).spec_indicators(),
            final(self).spec_layer() == old(self).spec_layer(),
            final(self).spec_jiggle_active() == old(self).spec_jiggle_active(),
            final(self).spec_wpm() == old(self).spec_wpm(),
            final(self).spec_cat_pages() == old(self).spec_cat_pages(),
            r@.len() == 10,
            forall|i: int|
                0 <= i < 10 ==> r@[i]@ == spec_layout(
                    old(self).spec_indicators(),
                    old(self).spec_layer(),
                    old(self).spec_jiggle_active(),
                    old(self).spec_wpm(),
                )[i],
            forall|x: int, y: int|
                0 <= x < DISPLAY_WIDTH && 0 <= y < DISPLAY_HEIGHT ==> final(self).frame_pixel(x, y)
                    == (if CAT_X <= x < CAT_X + CAT_WIDTH && CAT_Y <= y < CAT_Y + CAT_HEIGHT {
                    page_pixel(old(self).spec_cat_pages(), CAT_WIDTH as int, x - CAT_X, y - CAT_Y)
                } else {
                    false
                }),
    {
        self.frame.clear();
        let line_height: u32 = CHAR_HEIGHT + 2;
        let mut y: u32 = 0;
        let mut regions: Vec<TextRegion> = Vec::new();

        self.draw_indicators(&mut regions, y);
        y = y + line_height;

        self.draw_layer(&mut regions, y);
        y = y + line_height;

        self.draw_compose_jiggle(&mut regions, y);
        y = y + line_height;

        self.draw_wpm(&mut regions, y);

        self.draw_cat(CAT_X, CAT_Y);

        proof {
            let layout = spec_layout(
                old(self).current_indicators,
                old(self).current_layer,
                old(self).jiggle_active,
                old(self).current_wpm,
            );
            assert(old(self).spec_indicators() == old(self).current_indicators);
            assert(regions@[0]@ == layout[0]);
            assert(regions@[1]@ == layout[1]);
            assert(regions@[2]@ == layout[2]);
            assert(regions@[3]@ == layout[3]);
            assert(regions@[4]@ == layout[4]);
            assert(regions@[5]@ == layout[5]);
            assert(regions@[6]@ == layout[6]);
            assert(regions@[7]@ == layout[7]);
            assert(regions@[8]@ == layout[8]);
            assert(regions@[9]@ == layout[9]);
        }
        regions
    }
}

} // verus!
