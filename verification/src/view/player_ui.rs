//! The three lines of the player screen: artist, title and album.

use vstd::prelude::*;
use vstd::utf8::encode_utf8;

use crate::model::player_status::{TrackInfo, TrackView};
use crate::view::scroll_textblock::{
    index_length_ok, lemma_utf8_at_least_one_byte_per_char, new_block, DrawView, TextBlock,
    TextBlockView, TextDraw, MAX_CHARACTERS,
};

verus! {

/// What the display is to do after an update of the screen.
#[derive(Debug)]
pub struct UiFrame {
    /// Clear the display before drawing: a new track arrived.
    pub clear_display: bool,
    /// The lines to draw, top line first.
    pub draws: Vec<TextDraw>,
}

/// The draw of `block` on its next update, as a sequence of at most one.
pub open spec fn draws_of(block: TextBlockView) -> Seq<DrawView> {
    match block.pending_draw() {
        Some(d) => seq![d],
        None => Seq::empty(),
    }
}

/// The lines after `track` arrived: artist, title and album, top to bottom.
pub open spec fn showing_track(lines: Seq<TextBlockView>, track: TrackView) -> Seq<TextBlockView> {
    seq![
        lines[0].with_text(track.artist),
        lines[1].with_text(track.title),
        lines[2].with_text(track.album),
    ]
}

/// The screen of the player: three scrolling lines.
pub struct PlayerUi {
    text_blocks: [TextBlock; 3],
}

impl View for PlayerUi {
    type V = Seq<TextBlockView>;

    closed spec fn view(&self) -> Seq<TextBlockView> {
        seq![self.text_blocks[0]@, self.text_blocks[1]@, self.text_blocks[2]@]
    }
}

impl PlayerUi {
    /// The screen before any track arrived: a waiting message on the top line.
    pub fn new() -> (ui: Self)
        ensures
            ui@ == seq![
                new_block("Waiting for Wifi"@, 80),
                new_block(""@, 120),
                new_block(""@, 160),
            ],
    {
        proof {
            reveal_strlit("Waiting for Wifi");
            reveal_strlit("");
        }
        let text_blocks = [
            TextBlock::new("Waiting for Wifi", 80),
            TextBlock::new("", 120),
            TextBlock::new("", 160),
        ];
        PlayerUi { text_blocks }
    }

    /// Shows `received`, if a track arrived, then updates each line.
    pub fn update(&mut self, received: Option<TrackInfo>) -> (frame: UiFrame)
        requires
            received matches Some(track) ==> {
                &&& index_length_ok(encode_utf8(track.artist@).len() as usize)
                &&& index_length_ok(encode_utf8(track.title@).len() as usize)
                &&& index_length_ok(encode_utf8(track.album@).len() as usize)
            },
        ensures
            frame.clear_display == received is Some,
            ({
                let shown = match received {
                    Some(track) => showing_track(old(self)@, track@),
                    None => old(self)@,
                };
                &&& final(self)@ == seq![shown[0].updated(), shown[1].updated(), shown[2].updated()]
                &&& frame.draws@.map_values(|d: TextDraw| d@) == draws_of(shown[0]) + draws_of(
                    shown[1],
                ) + draws_of(shown[2])
            }),
    {
        let clear_display = received.is_some();
        if let Some(info) = received {
            self.set_track_info(info);
        }
        let mut draws: Vec<TextDraw> = Vec::new();
        let ghost shown = self@;
        if let Some(d) = self.text_blocks[0].update() {
            draws.push(d);
        }
        if let Some(d) = self.text_blocks[1].update() {
            draws.push(d);
        }
        if let Some(d) = self.text_blocks[2].update() {
            draws.push(d);
        }
        assert(draws@.map_values(|d: TextDraw| d@) =~= draws_of(shown[0]) + draws_of(shown[1])
            + draws_of(shown[2]));
        UiFrame { clear_display, draws }
    }

    fn set_track_info(&mut self, data: TrackInfo)
        requires
            index_length_ok(encode_utf8(data.artist@).len() as usize),
            index_length_ok(encode_utf8(data.title@).len() as usize),
            index_length_ok(encode_utf8(data.album@).len() as usize),
        ensures
            final(self)@ == showing_track(old(self)@, data@),
    {
        self.text_blocks[0].set_text(data.artist.as_str());
        self.text_blocks[1].set_text(data.title.as_str());
        self.text_blocks[2].set_text(data.album.as_str());
    }
}

/// The first line of `text`: its first `MAX_CHARACTERS` characters, or all
/// of it if it is shorter.
pub open spec fn first_line(text: Seq<char>) -> Seq<char> {
    if text.len() <= MAX_CHARACTERS {
        text
    } else {
        text.take(MAX_CHARACTERS as int)
    }
}

/// A line whose text was just replaced is drawn on its next update, from the
/// first character of the new text, at its own height.
pub proof fn lemma_replaced_line_drawn_from_start(block: TextBlockView, text: Seq<char>)
    requires
        encode_utf8(text).len() <= usize::MAX,
    ensures
        draws_of(block.with_text(text)) == seq![
            DrawView { text: first_line(text), x: 0, y: block.y },
        ],
{
    lemma_utf8_at_least_one_byte_per_char(text);
    let shown = block.with_text(text);
    assert(shown.visible_text() =~= first_line(text));
}

/// After a track arrives, every line holds its field and is drawn from its
/// start: the next frame draws the artist on the top line, the title in the
/// middle and the album at the bottom, each from its first character.
pub proof fn lemma_track_drawn_on_all_lines(lines: Seq<TextBlockView>, track: TrackView)
    requires
        lines.len() == 3,
        encode_utf8(track.artist).len() <= usize::MAX,
        encode_utf8(track.title).len() <= usize::MAX,
        encode_utf8(track.album).len() <= usize::MAX,
    ensures
        showing_track(lines, track)[0].text == track.artist,
        showing_track(lines, track)[1].text == track.title,
        showing_track(lines, track)[2].text == track.album,
        forall|i: int|
            0 <= i < 3 ==> {
                &&& (#[trigger] showing_track(lines, track)[i]).needs_update
                &&& showing_track(lines, track)[i].y == lines[i].y
                &&& showing_track(lines, track)[i].index.current == 0
            },
        draws_of(showing_track(lines, track)[0]) + draws_of(showing_track(lines, track)[1])
            + draws_of(showing_track(lines, track)[2]) == seq![
            DrawView { text: first_line(track.artist), x: 0, y: lines[0].y },
            DrawView { text: first_line(track.title), x: 0, y: lines[1].y },
            DrawView { text: first_line(track.album), x: 0, y: lines[2].y },
        ],
{
    lemma_replaced_line_drawn_from_start(lines[0], track.artist);
    lemma_replaced_line_drawn_from_start(lines[1], track.title);
    lemma_replaced_line_drawn_from_start(lines[2], track.album);
    let shown = showing_track(lines, track);
    assert(draws_of(shown[0]) + draws_of(shown[1]) + draws_of(shown[2]) =~= seq![
        DrawView { text: first_line(track.artist), x: 0, y: lines[0].y },
        DrawView { text: first_line(track.title), x: 0, y: lines[1].y },
        DrawView { text: first_line(track.album), x: 0, y: lines[2].y },
    ]);
}

} // verus!
