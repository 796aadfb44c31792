use chat_core::private_conversation_partners::{
    compare_usernames, PrivateConversationPartnersHashmapKey,
};
use std::collections::HashMap;

#[test]
fn test_private_conversation_partners() {
    let key1 = PrivateConversationPartnersHashmapKey::new("Alice".to_string(), "Bob".to_string());

    let key2 = PrivateConversationPartnersHashmapKey::new("Bob".to_string(), "Alice".to_string());

    let key3 = PrivateConversationPartnersHashmapKey::new("Bob".to_string(), "Greg".to_string());

    let mut map1 = HashMap::new();
    let mut map2 = HashMap::new();

    map1.insert(key1, "Chat between Alice and Bob");
    assert_eq!(map1.get(&key2), Some(&"Chat between Alice and Bob"));

    map2.insert(key3, "Chat between Alice and Bob");
    assert_ne!(map2.get(&key2), Some(&"Chat between Alice and Bob"));
}

#[test]
fn key_is_the_same_for_both_orders() {
    let ab = PrivateConversationPartnersHashmapKey::new("ian".to_string(), "dan".to_string());
    let ba = PrivateConversationPartnersHashmapKey::new("dan".to_string(), "ian".to_string());
    assert_eq!(ab, ba);
    assert_eq!(ab.partner1, "dan");
    assert_eq!(ab.partner2, "ian");
}

#[test]
fn key_of_a_user_with_themselves() {
    let k = PrivateConversationPartnersHashmapKey::new("ian".to_string(), "ian".to_string());
    assert_eq!(k.partner1, "ian");
    assert_eq!(k.partner2, "ian");
}

#[test]
fn usernames_are_ordered_by_their_bytes() {
    let s = |x: &str| x.to_string();
    assert!(compare_usernames(&s("Alice"), &s("Bob")));
    assert!(!compare_usernames(&s("Bob"), &s("Alice")));
    assert!(!compare_usernames(&s("Bob"), &s("Bob")));
    assert!(compare_usernames(&s("ab"), &s("abc")));
    assert!(!compare_usernames(&s("abc"), &s("ab")));
    assert!(compare_usernames(&s(""), &s("a")));
    assert!(compare_usernames(&s("Zed"), &s("adam")));
    assert!(compare_usernames(&s("z"), &s("é")));
    assert!(compare_usernames(&s("é"), &s("ж")));
}
