use vstd::prelude::*;

verus! {

/// One chat message exchanged over the wire: plain text, image bytes,
/// or a file with its name.
#[derive(Debug, Clone, PartialEq)]
pub enum MessageType {
    Text(String),
    Image(Vec<u8>),
    File(String, Vec<u8>),
}

/// Mathematical model of a message: character and byte sequences.
pub enum MessageView {
    Text(Seq<char>),
    Image(Seq<u8>),
    File(Seq<char>, Seq<u8>),
}

impl View for MessageType {
    type V = MessageView;

    open spec fn view(&self) -> MessageView {
        match self {
            MessageType::Text(s) => MessageView::Text(s@),
            MessageType::Image(d) => MessageView::Image(d@),
            MessageType::File(n, d) => MessageView::File(n@, d@),
        }
    }
}

} // verus!
