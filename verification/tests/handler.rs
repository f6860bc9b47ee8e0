use qqbot::handler::{
    decode_group_message, decode_group_send_message_cmd, encode_group_message, make_message,
    parse_command, reply_text, Command,
};
use qqbot::pb::msg::elem::Elem;

fn text_of(chain: &qqbot::msg::MessageChain) -> Option<String> {
    match chain.0.as_slice() {
        [Elem::Text(t)] => t.str.clone(),
        _ => None,
    }
}

#[test]
fn encode_group_message_packs_two_numbers_then_the_text() {
    let b = encode_group_message(0x0102, -1, "hi");
    assert_eq!(
        b,
        vec![2, 1, 0, 0, 0, 0, 0, 0, 255, 255, 255, 255, 255, 255, 255, 255, b'h', b'i']
    );
}

#[test]
fn decode_group_message_reads_back_encode() {
    let b = encode_group_message(123456789, 987654321, "你好 esp");
    let (g, u, t) = decode_group_message(&b);
    assert_eq!(g, 123456789);
    assert_eq!(u, 987654321);
    assert_eq!(t, "你好 esp");
}

#[test]
fn decode_group_message_replaces_bad_utf8() {
    let mut b = encode_group_message(1, 2, "");
    b.extend_from_slice(&[b'a', 0xff]);
    let (_, _, t) = decode_group_message(&b);
    assert_eq!(t, "a\u{fffd}");
}

#[test]
fn send_cmd_gives_group_and_text_message() {
    let mut b = 42i64.to_le_bytes().to_vec();
    b.extend_from_slice("hello".as_bytes());
    let (g, chain) = decode_group_send_message_cmd(&b).unwrap();
    assert_eq!(g, 42);
    assert_eq!(text_of(&chain), Some("hello".to_string()));
}

#[test]
fn send_cmd_refuses_bad_utf8() {
    let mut b = 7i64.to_le_bytes().to_vec();
    b.push(0xc3);
    match decode_group_send_message_cmd(&b) {
        Err(e) => assert_eq!(e, "decode group send message cmd error"),
        Ok(_) => panic!("bad UTF-8 was accepted"),
    }
}

#[test]
fn make_message_is_one_text() {
    assert_eq!(text_of(&make_message("x".to_string())), Some("x".to_string()));
}

#[test]
fn commands_are_recognised() {
    assert!(matches!(parse_command("?"), Some(Command::Echo)));
    assert!(matches!(parse_command("？"), Some(Command::Echo)));
    assert!(matches!(parse_command("esp时间"), Some(Command::Time)));
    assert!(matches!(parse_command("esp随机"), Some(Command::Random)));
    assert!(matches!(parse_command("espInfo"), Some(Command::Info)));
    assert!(matches!(parse_command("espInfoespmore"), Some(Command::Info)));
    assert!(parse_command("hello").is_none());
    assert!(parse_command("es").is_none());
    assert!(parse_command("?!").is_none());
}

#[test]
fn unknown_command_keeps_its_text() {
    match parse_command("esp天气") {
        Some(Command::Unknown(t)) => assert_eq!(t, "天气"),
        _ => panic!("not an unknown command"),
    }
    match parse_command("esp") {
        Some(Command::Unknown(t)) => assert_eq!(t, ""),
        _ => panic!("not an unknown command"),
    }
    match parse_command("espespx") {
        Some(Command::Unknown(t)) => assert_eq!(t, ""),
        _ => panic!("not an unknown command"),
    }
}

#[test]
fn replies_are_written_as_the_bot_writes_them() {
    assert_eq!(reply_text(&Command::Echo, 0, 0), Some("?".to_string()));
    assert_eq!(reply_text(&Command::Time, 1650000000, 0), Some("当前时间:1650000000s".to_string()));
    assert_eq!(reply_text(&Command::Time, -5, 0), Some("当前时间:-5s".to_string()));
    assert_eq!(reply_text(&Command::Random, 0, 4294967295), Some("随机结果 4294967295".to_string()));
    assert_eq!(reply_text(&Command::Info, 0, 0), None);
    assert_eq!(
        reply_text(&Command::Unknown("abc".to_string()), 0, 0),
        Some("未知指令 abc".to_string())
    );
}
