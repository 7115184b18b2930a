use relay::message::MessageType;
use relay::session::{
    file_message, parse_input_line, reader_action, text_message, InputCommand, ReaderAction,
};

#[test]
fn quit_sentinel_ends_the_session() {
    assert_eq!(parse_input_line(".quit"), InputCommand::Quit);
    assert_eq!(parse_input_line("  .quit  "), InputCommand::Quit);
}

#[test]
fn blank_lines_are_skipped() {
    assert_eq!(parse_input_line(""), InputCommand::Skip);
    assert_eq!(parse_input_line("   \t "), InputCommand::Skip);
}

#[test]
fn image_and_file_commands_take_the_rest_verbatim() {
    assert_eq!(
        parse_input_line(".image photo.jpg"),
        InputCommand::ImagePath(String::from("photo.jpg"))
    );
    assert_eq!(
        parse_input_line(".file  /tmp/x y"),
        InputCommand::FilePath(String::from(" /tmp/x y"))
    );
}

#[test]
fn bare_commands_are_invalid() {
    assert_eq!(parse_input_line(".image"), InputCommand::Invalid);
    assert_eq!(parse_input_line(".file "), InputCommand::Invalid);
}

#[test]
fn other_lines_are_text_verbatim() {
    assert_eq!(parse_input_line("hello world"), InputCommand::Text(String::from("hello world")));
    assert_eq!(parse_input_line(".imagex y"), InputCommand::Text(String::from(".imagex y")));
    assert_eq!(parse_input_line(".quitx"), InputCommand::Text(String::from(".quitx")));
}

#[test]
fn reader_routes_each_variant() {
    assert_eq!(
        reader_action(MessageType::Text(String::from("hi"))),
        ReaderAction::Display(String::from("hi"))
    );
    assert_eq!(
        reader_action(MessageType::File(String::from("n"), vec![1])),
        ReaderAction::SaveFile(String::from("n"), vec![1])
    );
    assert_eq!(reader_action(MessageType::Image(vec![2])), ReaderAction::SaveImage(vec![2]));
}

#[test]
fn builders_wrap_plain_payloads() {
    assert_eq!(
        text_message(String::from("hey")),
        Some(MessageType::Text(String::from("hey")))
    );
    assert_eq!(
        file_message("a.txt", vec![1, 2]),
        Some(MessageType::File(String::from("a.txt"), vec![1, 2]))
    );
}

#[test]
fn file_message_carries_the_base_name() {
    assert_eq!(
        file_message("dir/sub/a.txt", vec![7]),
        Some(MessageType::File(String::from("a.txt"), vec![7]))
    );
    assert_eq!(file_message("..", vec![1]), None);
    assert_eq!(file_message("dir/", vec![1]), None);
}
