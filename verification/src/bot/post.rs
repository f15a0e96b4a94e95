//! Messages and answers as the library hands them to the program that sends them.

use vstd::prelude::*;

use crate::bot::menu::{ButtonView, Keyboard};
use crate::text::text_view;

verus! {

/// A message to send, or to replace another one with.
pub struct Post {
    pub text: String,
    /// Whether the text is Telegram's HTML.
    pub html: bool,
    /// The inline keyboard under it.
    pub keyboard: Option<Keyboard>,
}

/// A [`Post`] with its text as a sequence of characters.
pub struct PostView {
    pub text: Seq<char>,
    pub html: bool,
    pub keyboard: Option<Seq<Seq<ButtonView>>>,
}

impl View for Post {
    type V = PostView;

    open spec fn view(&self) -> PostView {
        PostView {
            text: self.text@,
            html: self.html,
            keyboard: match self.keyboard {
                Some(k) => Some(k@),
                None => None,
            },
        }
    }
}

/// Plain text without a keyboard.
pub open spec fn plain_post(text: Seq<char>) -> PostView {
    PostView { text, html: false, keyboard: None }
}

/// HTML above a keyboard.
pub open spec fn html_post(text: Seq<char>, keyboard: Seq<Seq<ButtonView>>) -> PostView {
    PostView { text, html: true, keyboard: Some(keyboard) }
}

/// Plain text without a keyboard.
pub fn plain(text: String) -> (r: Post)
    ensures
        r@ == plain_post(text@),
{
    Post { text, html: false, keyboard: None }
}

/// HTML above a keyboard.
pub fn html(text: String, keyboard: Keyboard) -> (r: Post)
    ensures
        r@ == html_post(text@, keyboard@),
{
    Post { text, html: true, keyboard: Some(keyboard) }
}

/// The answer to a button tap: a text, perhaps, in passing or as an alert.
pub struct Answer {
    pub text: Option<String>,
    pub alert: bool,
}

/// An [`Answer`] with its text as a sequence of characters.
pub struct AnswerView {
    pub text: Option<Seq<char>>,
    pub alert: bool,
}

impl View for Answer {
    type V = AnswerView;

    open spec fn view(&self) -> AnswerView {
        AnswerView { text: text_view(self.text), alert: self.alert }
    }
}

} // verus!
