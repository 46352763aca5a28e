use forma_text::bitmap::{BitmapContent, GlyphBitmap};
use forma_text::glyph::{choose_render, wants_bitmap, GlyphRender};
use forma_text::layers::LayerCounter;
use forma_text::rich_text::RichText;
use forma_text::text::{LayoutPass, Text};

#[derive(Debug, Clone, PartialEq)]
enum Drawn {
    Outline { glyph: char, pen: u32 },
    Bitmap { width: u32, pen: u32 },
}

fn hi_text() -> RichText<&'static str> {
    let mut r = RichText::new(vec!["Helvetica"]);
    r.add_str("Hi");
    r
}

/// Lays out one run per entry of `runs`, one outline per character, pens 10 apart.
fn shape_runs(
    runs: &'static [&'static str],
) -> impl FnOnce(&RichText<&'static str>, LayerCounter) -> (LayoutPass<Drawn>, (u32, u32)) {
    move |_, counter| {
        let mut pass = LayoutPass::new(counter);
        for run in runs {
            let (next, claimed) = pass.start_run();
            assert!(claimed.is_ok());
            pass = next;
            let mut pen = 0;
            for c in run.chars() {
                let render = choose_render(true, false, false);
                assert_eq!(render, GlyphRender::Outline);
                pass = pass.push_glyph(Drawn::Outline { glyph: c, pen });
                pen += 10;
            }
        }
        (pass, (20, 12))
    }
}

#[test]
fn hi_lays_out_one_run_of_two_outlines_on_layer_zero() {
    let mut text: Text<&str, Drawn, (u32, u32)> = Text::new(hi_text(), (0, 0));
    let mut counter = LayerCounter::new(0);
    let size = text.layout(&mut counter, shape_runs(&["Hi"]));
    assert_eq!(size, (20, 12));
    assert_eq!(text.runs().len(), 1);
    let run = &text.runs()[0];
    assert_eq!(run.layer_id(), 0);
    assert_eq!(
        run.glyphs(),
        &vec![Drawn::Outline { glyph: 'H', pen: 0 }, Drawn::Outline { glyph: 'i', pen: 10 }]
    );
    let pens: Vec<u32> = run
        .glyphs()
        .iter()
        .map(|g| match g {
            Drawn::Outline { pen, .. } | Drawn::Bitmap { pen, .. } => *pen,
        })
        .collect();
    assert!(pens[0] < pens[1]);
    assert_eq!(counter.next(), 1);
}

#[test]
fn second_layout_reuses_cache_without_shaping() {
    let mut text: Text<&str, Drawn, (u32, u32)> = Text::new(hi_text(), (0, 0));
    let mut counter = LayerCounter::new(0);
    assert_eq!(text.cached_layout(), None);
    let first = text.layout(&mut counter, shape_runs(&["Hi"]));
    assert_eq!(text.cached_layout(), Some(first));
    let mut calls = 0;
    let second = text.layout(&mut counter, |_, _| {
        calls += 1;
        panic!("shaped again")
    });
    assert_eq!(calls, 0);
    assert_eq!(second, first);
    assert_eq!(text.runs().len(), 1);
    assert_eq!(counter.next(), 1);
}

#[test]
fn runs_take_consecutive_layers_from_counter() {
    let mut text: Text<&str, Drawn, (u32, u32)> = Text::new(hi_text(), (0, 0));
    let mut counter = LayerCounter::new(2);
    text.layout(&mut counter, shape_runs(&["ab", "c", "", "de"]));
    let layers: Vec<u32> = text.runs().iter().map(|r| r.layer_id()).collect();
    assert_eq!(layers, vec![2, 3, 4, 5]);
    assert_eq!(counter.next(), 6);
}

#[test]
fn update_and_invalidate_ask_for_new_layout() {
    let mut text: Text<&str, Drawn, (u32, u32)> = Text::new(hi_text(), (0, 0));
    let mut counter = LayerCounter::new(0);
    text.layout(&mut counter, shape_runs(&["Hi"]));
    text.invalidate();
    assert_eq!(text.cached_layout(), None);
    text.layout(&mut counter, shape_runs(&["H", "i"]));
    let layers: Vec<u32> = text.runs().iter().map(|r| r.layer_id()).collect();
    assert_eq!(layers, vec![1, 2]);

    let mut other: RichText<&str> = RichText::new(vec![]);
    other.add_str("x");
    text.update(other, (0, 0));
    assert_eq!(text.cached_layout(), None);
    assert!(text.runs().is_empty());
    assert_eq!(text.rich_text().text(), "x");
}

#[test]
fn emoji_glyph_with_color_bitmap_becomes_bitmap_drawable() {
    let mut r = RichText::new(vec!["Archivo Black"]);
    r.add_str("😀");
    let mut text: Text<&str, Drawn, (u32, u32)> = Text::new(r, (0, 0));
    let mut counter = LayerCounter::new(0);
    text.layout(&mut counter, |rich, counter| {
        let mut pass = LayoutPass::new(counter);
        let (next, claimed) = pass.start_run();
        assert_eq!(claimed, Ok(0));
        pass = next;
        let is_emoji = rich.is_emoji_range(0..rich.byte_length());
        let has_outline = true;
        let decoded = if wants_bitmap(has_outline, is_emoji) {
            GlyphBitmap { content: BitmapContent::Color, width: 1, height: 1, data: vec![255, 0, 0, 255] }
                .convert()
        } else {
            None
        };
        match choose_render(has_outline, is_emoji, decoded.is_some()) {
            GlyphRender::Bitmap => {
                pass = pass.push_glyph(Drawn::Bitmap { width: decoded.unwrap().width(), pen: 0 })
            }
            GlyphRender::Outline => pass = pass.push_glyph(Drawn::Outline { glyph: '?', pen: 0 }),
            GlyphRender::Skip => {}
        }
        (pass, (1, 1))
    });
    assert_eq!(text.runs()[0].glyphs(), &vec![Drawn::Bitmap { width: 1, pen: 0 }]);
}

#[test]
fn start_run_past_limit_leaves_pass_unchanged() {
    let limit = LayerCounter::new(0).limit();
    let pass: LayoutPass<Drawn> = LayoutPass::new(LayerCounter::new(limit));
    let (pass, first) = pass.start_run();
    assert_eq!(first, Ok(limit));
    let (pass, second) = pass.start_run();
    assert!(second.is_err());
    assert_eq!(pass.runs().len(), 1);
    let (runs, counter) = pass.finish();
    assert_eq!(runs.len(), 1);
    assert_eq!(counter.next(), limit + 1);
}
