use std::cell::Cell;
use xqa_terminal::display::cache::GlyphCache;
use xqa_terminal::display::glyph::Glyph;
use xqa_terminal::display::image::{Drawable, Image};
use xqa_terminal::display::video_memory::{Colour, VideoCell};

fn cell(content: char, foreground: Colour, background: Colour) -> VideoCell {
    VideoCell { content, foreground, background }
}

fn dot(_: char) -> Result<Glyph, String> {
    Ok(Glyph::new(2, 1, vec![0, 255]).unwrap())
}

#[test]
fn new_cache_holds_nothing() {
    let cache = GlyphCache::new();
    assert!(!cache.contains(cell(' ', Colour::White, Colour::Blue)));
    assert!(!cache.contains(cell('A', Colour::White, Colour::Red)));
}

#[test]
fn miss_rasterizes_stores_and_hands_out_the_block() {
    let mut cache = GlyphCache::new();
    let a = cell('A', Colour::White, Colour::Red);
    let image = cache.fetch_or_rasterize(a, &dot).unwrap();
    assert!(cache.contains(a));
    let expected = Image::from_glyph(a, &Glyph::new(2, 1, vec![0, 255]).unwrap());
    assert_eq!(image.width(), 14);
    assert_eq!(image.height(), 28);
    assert_eq!(image.pixels(), expected.pixels());
    assert_eq!(&image.pixels()[0..8], &[0x88, 0x00, 0x00, 0xff, 0xff, 0xff, 0xff, 0xff]);
}

#[test]
fn rasterizer_is_given_the_character_of_the_cell() {
    let mut cache = GlyphCache::new();
    let seen = Cell::new(None);
    let rasterizer = |content: char| -> Result<Glyph, String> {
        seen.set(Some(content));
        dot(content)
    };
    cache.fetch_or_rasterize(cell('Q', Colour::White, Colour::Red), &rasterizer).unwrap();
    assert_eq!(seen.get(), Some('Q'));
}

#[test]
fn hit_does_not_call_the_rasterizer() {
    let mut cache = GlyphCache::new();
    let calls = Cell::new(0);
    let rasterizer = |content: char| -> Result<Glyph, String> {
        calls.set(calls.get() + 1);
        dot(content)
    };
    let a = cell('A', Colour::White, Colour::Red);
    let first = cache.fetch_or_rasterize(a, &rasterizer).unwrap();
    assert_eq!(calls.get(), 1);
    let second = cache.fetch_or_rasterize(a, &rasterizer).unwrap();
    let third = cache.fetch_or_rasterize(a, &rasterizer).unwrap();
    assert_eq!(calls.get(), 1);
    assert_eq!(first.pixels(), second.pixels());
    assert_eq!(first.pixels(), third.pixels());
}

#[test]
fn hit_hands_out_the_stored_block_whatever_the_rasterizer_would_give() {
    let mut cache = GlyphCache::new();
    let a = cell('A', Colour::White, Colour::Red);
    let first = cache.fetch_or_rasterize(a, &dot).unwrap();
    let other = |_: char| -> Result<Glyph, String> { Ok(Glyph::new(1, 1, vec![255]).unwrap()) };
    let second = cache.fetch_or_rasterize(a, &other).unwrap();
    assert_eq!(first.pixels(), second.pixels());
    let failing = |_: char| -> Result<Glyph, String> { Err("no glyph".to_string()) };
    let third = cache.fetch_or_rasterize(a, &failing).unwrap();
    assert_eq!(first.pixels(), third.pixels());
}

#[test]
fn cells_are_keyed_by_all_three_fields() {
    let mut cache = GlyphCache::new();
    let calls = Cell::new(0);
    let rasterizer = |content: char| -> Result<Glyph, String> {
        calls.set(calls.get() + 1);
        dot(content)
    };
    let base = cell('A', Colour::White, Colour::Red);
    let others = [
        cell('B', Colour::White, Colour::Red),
        cell('A', Colour::Black, Colour::Red),
        cell('A', Colour::White, Colour::Blue),
        cell('A', Colour::Red, Colour::White),
    ];
    cache.fetch_or_rasterize(base, &rasterizer).unwrap();
    for other in others {
        assert!(!cache.contains(other));
    }
    for other in others {
        cache.fetch_or_rasterize(other, &rasterizer).unwrap();
    }
    assert_eq!(calls.get(), 5);
    assert!(cache.contains(base));
    for other in others {
        assert!(cache.contains(other));
    }
}

#[test]
fn equal_cells_made_apart_share_an_entry() {
    let mut cache = GlyphCache::new();
    let calls = Cell::new(0);
    let rasterizer = |content: char| -> Result<Glyph, String> {
        calls.set(calls.get() + 1);
        dot(content)
    };
    cache.fetch_or_rasterize(cell('A', Colour::White, Colour::Red), &rasterizer).unwrap();
    let again = VideoCell { background: Colour::Red, content: 'A', foreground: Colour::White };
    assert!(cache.contains(again));
    cache.fetch_or_rasterize(again, &rasterizer).unwrap();
    assert_eq!(calls.get(), 1);
}

#[test]
fn colours_of_each_cell_go_into_its_block() {
    let mut cache = GlyphCache::new();
    let first = cache.fetch_or_rasterize(cell('A', Colour::White, Colour::Red), &dot).unwrap();
    let second = cache.fetch_or_rasterize(cell('A', Colour::Green, Colour::Black), &dot).unwrap();
    assert_eq!(&first.pixels()[0..8], &[0x88, 0x00, 0x00, 0xff, 0xff, 0xff, 0xff, 0xff]);
    assert_eq!(&second.pixels()[0..8], &[0x00, 0x00, 0x00, 0xff, 0x00, 0xcc, 0x55, 0xff]);
}

#[test]
fn failure_is_handed_on_and_not_stored() {
    let mut cache = GlyphCache::new();
    let a = cell('A', Colour::White, Colour::Red);
    let failing = |content: char| -> Result<Glyph, String> { Err(format!("no glyph for {}", content)) };
    assert_eq!(cache.fetch_or_rasterize(a, &failing).err(), Some("no glyph for A".to_string()));
    assert!(!cache.contains(a));
    let image = cache.fetch_or_rasterize(a, &dot).unwrap();
    assert!(cache.contains(a));
    assert_eq!(&image.pixels()[4..8], &[0xff, 0xff, 0xff, 0xff]);
}

#[test]
fn failure_leaves_the_other_entries() {
    let mut cache = GlyphCache::new();
    let a = cell('A', Colour::White, Colour::Red);
    let b = cell('B', Colour::White, Colour::Red);
    let stored = cache.fetch_or_rasterize(a, &dot).unwrap();
    let failing = |_: char| -> Result<Glyph, String> { Err("no glyph".to_string()) };
    assert!(cache.fetch_or_rasterize(b, &failing).is_err());
    assert!(cache.contains(a));
    assert!(!cache.contains(b));
    assert_eq!(cache.fetch_or_rasterize(a, &failing).unwrap().pixels(), stored.pixels());
}

#[test]
fn entries_stay_as_the_cache_grows() {
    let mut cache = GlyphCache::new();
    let mut seen = Vec::new();
    for content in ['a', 'b', 'c', 'd', 'e', '\u{10ffff}', '\0'] {
        let next = cell(content, Colour::White, Colour::Blue);
        cache.fetch_or_rasterize(next, &dot).unwrap();
        seen.push(next);
        for earlier in &seen {
            assert!(cache.contains(*earlier));
        }
    }
}
