use umbra::crypto::hash_string;
use umbra::session::gen_conversation_id;
use umbra::topics::sorted_participants;
use umbra::topics::str_le_exec;
use umbra::topics::topic_inbox_convo;
use umbra::topics::topic_private_convo;

#[test]
fn test_private_topic_value() {
    let topic = topic_private_convo(vec!["amal".to_string(), "bola".to_string()]);
    assert_eq!(topic, "/private/amal|bola");
}

#[test]
fn test_private_topic_symmetric() {
    let ab = topic_private_convo(vec!["amal".to_string(), "bola".to_string()]);
    let ba = topic_private_convo(vec!["bola".to_string(), "amal".to_string()]);
    assert_eq!(ab, ba);
}

#[test]
fn test_inbox_topic_value() {
    assert_eq!(topic_inbox_convo("bob"), "/inbox/bob");
}

#[test]
fn test_sorted_participants_orders() {
    let sorted = sorted_participants(vec![
        "cara".to_string(),
        "amal".to_string(),
        "bola".to_string(),
    ]);
    assert_eq!(
        sorted,
        vec!["amal".to_string(), "bola".to_string(), "cara".to_string()]
    );
}

#[test]
fn test_str_le_exec_order() {
    assert!(str_le_exec("a", "b"));
    assert!(!str_le_exec("b", "a"));
    assert!(str_le_exec("a", "a"));
    assert!(str_le_exec("a", "ab"));
    assert!(!str_le_exec("ab", "a"));
    assert!(str_le_exec("", "a"));
}

#[test]
fn test_gen_conversation_id_hashes_join() {
    let id = gen_conversation_id(&["a".to_string(), "b".to_string()]);
    assert_eq!(id, hash_string("a|b"));
}
