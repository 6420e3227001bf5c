use moagan::messages_wire::{read_reply, MessagesExchange, MessagesPiece, MessagesReply};
use moagan::wire::Usage;

fn piece(kind: &str, text: Option<&str>) -> MessagesPiece {
    MessagesPiece {
        kind: kind.to_owned(),
        text: text.map(str::to_owned),
    }
}

fn reply(content: Vec<MessagesPiece>, stop_reason: Option<&str>) -> MessagesReply {
    MessagesReply {
        content,
        stop_reason: stop_reason.map(str::to_owned),
        usage: None,
    }
}

#[test]
fn texts_of_a_reply_are_joined() {
    let usage = Usage {
        input_tokens: 11,
        output_tokens: 4,
        cache_read: 2,
        cache_creation: 1,
    };
    let content = vec![
        piece("thinking", Some("hm")),
        piece("text", Some("he")),
        piece("text", None),
        piece("text", Some("llo")),
    ];
    let decoded = MessagesReply {
        usage: Some(usage),
        ..reply(content, Some("end_turn"))
    };
    match read_reply(201, decoded) {
        MessagesExchange::Decoded { status, response } => {
            assert_eq!(status, 201);
            assert_eq!(response.text, "hello");
            assert_eq!(response.finish_reason.as_deref(), Some("end_turn"));
            assert!(!response.truncated);
            assert_eq!(response.usage, usage);
        }
        _ => panic!("the reply holds text"),
    }
}

#[test]
fn replies_that_reach_the_ceiling_are_cut_off() {
    match read_reply(200, reply(vec![piece("text", Some(""))], Some("max_tokens"))) {
        MessagesExchange::Decoded { response, .. } => {
            assert!(response.truncated);
            assert_eq!(response.text, "");
            assert_eq!(response.usage, Usage::default());
        }
        _ => panic!("the reply holds text, though empty"),
    }
    match read_reply(200, reply(vec![piece("text", Some("x"))], None)) {
        MessagesExchange::Decoded { response, .. } => {
            assert!(!response.truncated);
            assert_eq!(response.finish_reason, None);
        }
        _ => panic!("the reply holds text"),
    }
}

#[test]
fn replies_without_text_are_unusable() {
    for content in [
        vec![],
        vec![piece("tool_use", Some("x"))],
        vec![piece("text", None)],
    ] {
        match read_reply(200, reply(content, Some("end_turn"))) {
            MessagesExchange::Unusable(reason) => assert_eq!(reason, "reply holds no text"),
            _ => panic!("the reply holds no text"),
        }
    }
}
