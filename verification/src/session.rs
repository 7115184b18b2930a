use crate::codec::wf_message;
use crate::imaging::{convert_to_png, image_decodable, starts_with_png, ImageConvertError};
use crate::materializer::{base_of, base_ok, sanitize_file_name};
use crate::message::MessageType;
use crate::textutil::{find_first_ws, first_ws, str_eq, trim, trim_spec};
use vstd::prelude::*;

verus! {

/// What one line of local input asks the writer loop to do.
#[derive(Debug, PartialEq)]
pub enum InputCommand {
    /// The `.quit` sentinel: the whole process ends.
    Quit,
    /// A blank line: nothing is sent, the loop goes on.
    Skip,
    /// `.image` or `.file` with no argument: reported locally, nothing sent.
    Invalid,
    /// Any other line: sent verbatim as text.
    Text(String),
    /// `.image <path>`: load the file at the path and send it as an image.
    ImagePath(String),
    /// `.file <path>`: load the file at the path and send its raw bytes.
    FilePath(String),
}

/// Reads one line of local input as the writer loop does: the line is
/// trimmed; a blank line is skipped; `.quit` ends the process; a leading
/// `.image` or `.file` word names a path to load, everything after the
/// first whitespace character, verbatim; any other line is text to send
/// verbatim.
pub fn parse_input_line(line: &str) -> (r: InputCommand)
    ensures
        ({
            let t = trim_spec(line@);
            let w = first_ws(t);
            &&& (t.len() == 0 ==> r is Skip)
            &&& (t.len() > 0 && t == ".quit"@ ==> r is Quit)
            &&& (t.len() > 0 && t != ".quit"@ && w < t.len() ==> {
                let head = t.subrange(0, w);
                let rest = t.subrange(w + 1, t.len() as int);
                if head == ".image"@ {
                    r matches InputCommand::ImagePath(p) && p@ == rest
                } else if head == ".file"@ {
                    r matches InputCommand::FilePath(p) && p@ == rest
                } else {
                    r matches InputCommand::Text(x) && x@ == t
                }
            })
            &&& (t.len() > 0 && t != ".quit"@ && w >= t.len() ==> {
                if t == ".image"@ || t == ".file"@ {
                    r is Invalid
                } else {
                    r matches InputCommand::Text(x) && x@ == t
                }
            })
        }),
{
    let t = trim(line);
    let n = t.unicode_len();
    if n == 0 {
        return InputCommand::Skip;
    }
    if str_eq(t, ".quit") {
        return InputCommand::Quit;
    }
    let w = find_first_ws(t);
    if w < n {
        let head = t.substring_char(0, w);
        let rest = t.substring_char(w + 1, n);
        if str_eq(head, ".image") {
            InputCommand::ImagePath(rest.to_owned())
        } else if str_eq(head, ".file") {
            InputCommand::FilePath(rest.to_owned())
        } else {
            InputCommand::Text(t.to_owned())
        }
    } else {
        if str_eq(t, ".image") || str_eq(t, ".file") {
            InputCommand::Invalid
        } else {
            InputCommand::Text(t.to_owned())
        }
    }
}

/// What the reader loop does with one received message: text goes to the
/// display; file and image payloads go to the materializer.
#[derive(Debug, PartialEq)]
pub enum ReaderAction {
    Display(String),
    SaveFile(String, Vec<u8>),
    SaveImage(Vec<u8>),
}

/// Routes one received message: Text is displayed, a File is saved under
/// its carried name, an Image is saved under a timestamp name.
pub fn reader_action(m: MessageType) -> (r: ReaderAction)
    ensures
        m@ matches crate::message::MessageView::Text(t) ==> r matches ReaderAction::Display(s)
            && s@ == t,
        m@ matches crate::message::MessageView::File(n, d) ==> r matches ReaderAction::SaveFile(
            rn,
            rd,
        ) && rn@ == n && rd@ == d,
        m@ matches crate::message::MessageView::Image(d) ==> r matches ReaderAction::SaveImage(rd)
            && rd@ == d,
{
    match m {
        MessageType::Text(s) => ReaderAction::Display(s),
        MessageType::File(n, d) => ReaderAction::SaveFile(n, d),
        MessageType::Image(d) => ReaderAction::SaveImage(d),
    }
}

/// Builds the Image message for loaded image bytes: the bytes are
/// normalized to PNG, and a result too large for one frame is refused.
/// What is sent is well formed and carries PNG bytes; undecodable bytes
/// are refused, and decodable PNG input that fits a frame always goes out
/// unchanged.
pub fn image_message(data: Vec<u8>) -> (r: Result<MessageType, ImageConvertError>)
    ensures
        r matches Ok(m) ==> wf_message(m@) && (m@ matches crate::message::MessageView::Image(d)
            && starts_with_png(d) && image_decodable(data@) && (starts_with_png(data@) ==> d
            == data@)),
        image_decodable(data@) && starts_with_png(data@) && wf_message(
            crate::message::MessageView::Image(data@),
        ) ==> (r matches Ok(m) && m@ == crate::message::MessageView::Image(data@)),
        r matches Err(e) ==> (e == ImageConvertError::Undecodable <==> !image_decodable(data@)),
        r matches Err(e) ==> (e == ImageConvertError::EncodeFailed ==> image_decodable(data@)
            && !starts_with_png(data@)),
        r matches Err(e) ==> (e == ImageConvertError::Oversize ==> image_decodable(data@)),
{
    match convert_to_png(data) {
        Ok(png) => {
            let m = MessageType::Image(png);
            if m.is_wf() {
                Ok(m)
            } else {
                Err(ImageConvertError::Oversize)
            }
        },
        Err(e) => Err(e),
    }
}

/// Builds the File message for a local file loaded from a path: the message
/// carries the path's base name and the raw bytes. Refused when the path
/// has no acceptable base component or the message does not fit one frame.
pub fn file_message(path: &str, data: Vec<u8>) -> (r: Option<MessageType>)
    ensures
        r matches Some(m) ==> wf_message(m@) && (m@ matches crate::message::MessageView::File(
            n,
            d,
        ) && n == base_of(path@) && base_ok(base_of(path@)) && d == data@),
        r is None <==> (!base_ok(base_of(path@)) || !wf_message(
            crate::message::MessageView::File(base_of(path@), data@),
        )),
{
    match sanitize_file_name(path) {
        Some(base) => {
            let m = MessageType::File(base, data);
            if m.is_wf() {
                Some(m)
            } else {
                None
            }
        },
        None => None,
    }
}

/// Builds the Text message for one input line. Refused only when it does
/// not fit one frame.
pub fn text_message(line: String) -> (r: Option<MessageType>)
    ensures
        r matches Some(m) ==> wf_message(m@) && (m@ matches crate::message::MessageView::Text(t)
            && t == line@),
        r is None <==> !wf_message(crate::message::MessageView::Text(line@)),
{
    let m = MessageType::Text(line);
    if m.is_wf() {
        Some(m)
    } else {
        None
    }
}

} // verus!
