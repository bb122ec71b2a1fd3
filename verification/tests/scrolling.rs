use wiim_display::view::scroll_textblock::{CharacterIndex, TextBlock, TextDraw};

fn state(index: &CharacterIndex) -> (i32, i32, usize, usize, i32) {
    (index.current, index.end, index.length, index.delay, index.direction)
}

#[test]
fn new_index_starts_at_the_beginning() {
    let index = CharacterIndex::new(25);
    assert_eq!(state(&index), (0, 5, 25, 0, 1));
    let short = CharacterIndex::new(3);
    assert_eq!(state(&short), (0, -17, 3, 0, 1));
}

#[test]
fn range_is_at_most_one_line() {
    assert_eq!(CharacterIndex::new(25).range(), (0, 20));
    assert_eq!(CharacterIndex::new(5).range(), (0, 5));
    assert_eq!(CharacterIndex::new(0).range(), (0, 0));
    assert_eq!(CharacterIndex::new(20).range(), (0, 20));
}

#[test]
fn short_text_never_scrolls() {
    let mut index = CharacterIndex::new(20);
    for _ in 0..100 {
        assert!(!index.scroll());
        assert_eq!(state(&index), (0, 0, 20, 0, 1));
    }
}

#[test]
fn long_text_rests_then_moves_one_character_per_step() {
    let mut index = CharacterIndex::new(23);
    for step in 1..=20 {
        assert!(!index.scroll());
        assert_eq!(state(&index), (0, 3, 23, step, 1));
    }
    assert!(index.scroll());
    assert_eq!(state(&index), (1, 3, 23, 20, 1));
    assert_eq!(index.range(), (1, 21));
    assert!(index.scroll());
    assert_eq!(state(&index), (2, 3, 23, 20, 1));
    assert!(index.scroll());
    assert_eq!(state(&index), (3, 3, 23, 10, -1));
    assert_eq!(index.range(), (3, 23));
}

#[test]
fn window_bounces_back_after_half_the_rest() {
    let mut index = CharacterIndex::new(22);
    for _ in 0..22 {
        index.scroll();
    }
    assert_eq!(state(&index), (2, 2, 22, 10, -1));
    for _ in 0..10 {
        assert!(!index.scroll());
    }
    assert!(index.scroll());
    assert_eq!(state(&index), (1, 2, 22, 20, -1));
    assert!(index.scroll());
    assert_eq!(state(&index), (0, 2, 22, 0, 1));
}

#[test]
fn scrolling_repeats_after_two_ends_plus_thirty_steps() {
    for length in [21usize, 22, 30, 57] {
        let mut index = CharacterIndex::new(length);
        let start = state(&index);
        let end = index.end as usize;
        let mut moves = 0;
        for _ in 0..(2 * end + 30) {
            if index.scroll() {
                moves += 1;
            }
        }
        assert_eq!(state(&index), start);
        assert_eq!(moves, 2 * end);
    }
}

#[test]
fn fitting_text_is_drawn_once() {
    let mut block = TextBlock::new("Hello", 80);
    assert_eq!(
        block.update(),
        Some(TextDraw { text: "Hello".to_string(), x: 0, y: 80 })
    );
    for _ in 0..50 {
        assert_eq!(block.update(), None);
    }
}

#[test]
fn long_text_is_redrawn_when_the_window_moves() {
    let text = "abcdefghijklmnopqrstuvwxy";
    let mut block = TextBlock::new(text, 120);
    assert_eq!(block.get_current_text_slice(), "abcdefghijklmnopqrst");
    assert_eq!(
        block.update(),
        Some(TextDraw { text: "abcdefghijklmnopqrst".to_string(), x: 0, y: 120 })
    );
    for _ in 0..20 {
        assert_eq!(block.update(), None);
    }
    assert_eq!(
        block.update(),
        Some(TextDraw { text: "bcdefghijklmnopqrstu".to_string(), x: 0, y: 120 })
    );
    assert_eq!(block.get_current_text_slice(), "cdefghijklmnopqrstuv");
}

#[test]
fn new_counts_characters() {
    let text = "ééééééééééé";
    let mut block = TextBlock::new(text, 80);
    assert_eq!(block.update(), Some(TextDraw { text: text.to_string(), x: 0, y: 80 }));
    for _ in 0..50 {
        assert_eq!(block.update(), None);
    }
}

#[test]
fn set_text_counts_bytes() {
    let text = "ééééééééééé";
    let mut block = TextBlock::new("", 80);
    block.update();
    block.set_text(text);
    assert_eq!(block.update(), Some(TextDraw { text: text.to_string(), x: 0, y: 80 }));
    for _ in 0..20 {
        assert_eq!(block.update(), None);
    }
    assert_eq!(
        block.update(),
        Some(TextDraw { text: "éééééééééé".to_string(), x: 0, y: 80 })
    );
}

#[test]
fn set_text_restarts_the_window() {
    let mut block = TextBlock::new("abcdefghijklmnopqrstuvwxy", 80);
    for _ in 0..22 {
        block.update();
    }
    block.set_text("0123456789012345678901234");
    assert_eq!(block.get_current_text_slice(), "01234567890123456789");
    assert_eq!(
        block.update(),
        Some(TextDraw { text: "01234567890123456789".to_string(), x: 0, y: 80 })
    );
    assert_eq!(block.update(), None);
}

#[test]
fn set_text_of_ascii_text_behaves_like_a_new_block() {
    let text = "The quick brown fox jumps over";
    let mut fresh = TextBlock::new(text, 160);
    let mut replaced = TextBlock::new("something else entirely", 160);
    for _ in 0..7 {
        replaced.update();
    }
    replaced.set_text(text);
    for _ in 0..80 {
        assert_eq!(fresh.update(), replaced.update());
    }
}
