use tarantula::command::Command;
use tarantula::error::Failure;
use tarantula::keywords::KeywordCounts;
use tarantula::messages::{
    handle_message, next_work, next_work_answer, next_work_key, share_url, work_request, MessageAction,
    ScrapResult, TarantulaMessage,
};

#[test]
fn websocket_message_actions() {
    assert!(matches!(
        handle_message(TarantulaMessage::AddUrl { url: "https://x/".to_string() }),
        Ok(MessageAction::AddUrl(u)) if u == "https://x/"
    ));
    let key = "02".repeat(33);
    assert!(matches!(
        handle_message(TarantulaMessage::NextWork { pubkey: key }),
        Ok(MessageAction::NextWork(k)) if k == [2u8; 33]
    ));
    assert!(matches!(
        handle_message(TarantulaMessage::NextWork { pubkey: "nothex".to_string() }),
        Err(Failure::InvalidPubKey)
    ));
    assert!(matches!(
        handle_message(TarantulaMessage::NextWorkAnswer { url: "u".to_string() }),
        Ok(MessageAction::Unexpected)
    ));
    assert!(matches!(
        handle_message(TarantulaMessage::ScrapResult { url: "u".to_string(), keywords: KeywordCounts::new(), links: vec![] }),
        Ok(MessageAction::Ignore)
    ));
}

#[test]
fn api_values() {
    assert!(matches!(next_work_answer("u".to_string()), TarantulaMessage::NextWorkAnswer { url } if url == "u"));
    assert_eq!(next_work("v".to_string()).url, "v");
    assert_eq!(next_work_key(&"ff".repeat(33)).ok(), Some([0xff; 33]));
    assert!(next_work_key("ff").is_err());
    let mut k = KeywordCounts::new();
    k.set("k".to_string(), 2);
    let r = ScrapResult { url: "u".to_string(), keywords: k, links: vec!["l".to_string()] };
    match r.into_command() {
        Command::ScrapResult { url, keywords, links } => {
            assert_eq!(url, "u");
            assert_eq!(keywords.pairs(), vec![("k".to_string(), 2)]);
            assert_eq!(links, vec!["l".to_string()]);
        }
        _ => panic!("expected a scrap result"),
    }
    assert!(matches!(work_request([1; 33], "o".to_string()), Command::NextWork { oid, .. } if oid == "o"));
    assert!(matches!(share_url("u".to_string()), Command::AddUrl { url } if url == "u"));
}

#[test]
fn keyword_counts_keep_each_keyword_once() {
    let mut k = KeywordCounts::new();
    assert_eq!(k.len(), 0);
    k.set("rust".to_string(), 3);
    k.set("verus".to_string(), 5);
    k.set("rust".to_string(), 7);
    assert_eq!(k.len(), 2);
    assert_eq!(k.pairs(), vec![("rust".to_string(), 7), ("verus".to_string(), 5)]);
    assert_eq!(k.name(1), "verus");
    assert_eq!(k.count(0), 7);
}
