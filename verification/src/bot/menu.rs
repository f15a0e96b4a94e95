//! The inline keyboards and the tokens behind their buttons.

use vstd::prelude::*;

use crate::text::same;

verus! {

/// What the user picked from the format menu.
#[derive(Clone, Copy, Debug, PartialEq, Eq, Structural)]
pub enum FormatChoice {
    BestVideo,
    AudioMp3,
}

/// The token of the best-video button. Tokens are kept tiny so that they fit Telegram's
/// limit on callback data; the link itself is parked with the chat, never in a button.
pub const CB_BEST_VIDEO: &'static str = "f:bv";

/// The token of the MP3 button.
pub const CB_AUDIO_MP3: &'static str = "f:mp3";

/// The token of the Cancel button.
pub const CB_CANCEL: &'static str = "cancel";

/// The format that a button's token asks for.
pub open spec fn choice_of(data: Seq<char>) -> Option<FormatChoice> {
    if data == CB_BEST_VIDEO@ {
        Some(FormatChoice::BestVideo)
    } else if data == CB_AUDIO_MP3@ {
        Some(FormatChoice::AudioMp3)
    } else {
        None
    }
}

impl FormatChoice {
    /// The format that the token `data` asks for, if it is a format button's token.
    pub fn from_callback(data: &str) -> (r: Option<FormatChoice>)
        ensures
            r == choice_of(data@),
    {
        if same(data, CB_BEST_VIDEO) {
            Some(FormatChoice::BestVideo)
        } else if same(data, CB_AUDIO_MP3) {
            Some(FormatChoice::AudioMp3)
        } else {
            None
        }
    }

    /// Whether the choice is sound without a picture.
    pub fn is_audio(self) -> (r: bool)
        ensures
            r == (self == FormatChoice::AudioMp3),
    {
        matches!(self, FormatChoice::AudioMp3)
    }
}

/// One inline button: what it shows and the token that a tap sends back.
pub struct Button {
    pub label: String,
    pub data: String,
}

/// The label and the token of a button.
pub struct ButtonView {
    pub label: Seq<char>,
    pub data: Seq<char>,
}

impl View for Button {
    type V = ButtonView;

    open spec fn view(&self) -> ButtonView {
        ButtonView { label: self.label@, data: self.data@ }
    }
}

/// An inline keyboard: rows of buttons.
pub struct Keyboard {
    pub rows: Vec<Vec<Button>>,
}

impl View for Keyboard {
    type V = Seq<Seq<ButtonView>>;

    open spec fn view(&self) -> Seq<Seq<ButtonView>> {
        self.rows@.map_values(|row: Vec<Button>| row@.map_values(|b: Button| b@))
    }
}

/// A button of given label and token.
pub open spec fn button(label: Seq<char>, data: Seq<char>) -> ButtonView {
    ButtonView { label, data }
}

/// The rows of the format menu.
pub open spec fn format_rows() -> Seq<Seq<ButtonView>> {
    seq![
        seq![
            button("🎬 Best video (MP4)"@, CB_BEST_VIDEO@),
            button("🎵 MP3 audio"@, CB_AUDIO_MP3@),
        ],
    ]
}

/// The rows of the keyboard with the Cancel button.
pub open spec fn cancel_rows() -> Seq<Seq<ButtonView>> {
    seq![seq![button("✖ Cancel"@, CB_CANCEL@)]]
}

/// The rows of the empty keyboard.
pub open spec fn no_rows() -> Seq<Seq<ButtonView>> {
    Seq::empty()
}

/// The format-selection keyboard shown under the video info.
pub fn format_menu() -> (k: Keyboard)
    ensures
        k@ == format_rows(),
{
    let mut row: Vec<Button> = Vec::new();
    row.push(Button { label: "🎬 Best video (MP4)".to_owned(), data: CB_BEST_VIDEO.to_owned() });
    row.push(Button { label: "🎵 MP3 audio".to_owned(), data: CB_AUDIO_MP3.to_owned() });
    let mut rows: Vec<Vec<Button>> = Vec::new();
    rows.push(row);
    let k = Keyboard { rows };
    assert(k@[0] =~= format_rows()[0]);
    assert(k@ =~= format_rows());
    k
}

/// A single Cancel button kept on the progress message.
pub fn cancel_menu() -> (k: Keyboard)
    ensures
        k@ == cancel_rows(),
{
    let mut row: Vec<Button> = Vec::new();
    row.push(Button { label: "✖ Cancel".to_owned(), data: CB_CANCEL.to_owned() });
    let mut rows: Vec<Vec<Button>> = Vec::new();
    rows.push(row);
    let k = Keyboard { rows };
    assert(k@[0] =~= cancel_rows()[0]);
    assert(k@ =~= cancel_rows());
    k
}

/// An empty keyboard. Editing a message with this removes any inline buttons: used once a
/// job passes the point of no return, so that a dead Cancel button isn't left dangling.
pub fn no_menu() -> (k: Keyboard)
    ensures
        k@ == no_rows(),
{
    let k = Keyboard { rows: Vec::new() };
    assert(k@ =~= no_rows());
    k
}

} // verus!
