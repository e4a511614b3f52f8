//! Conversion of messages and media.

use remo_server::message_convert::convert_role_content_pairs;

#[test]
fn convert_known_roles() {
    let pairs = vec![
        ("user".into(), "hello".into()),
        ("assistant".into(), "hi".into()),
        ("system".into(), "sys".into()),
    ];
    let msgs = convert_role_content_pairs(pairs);
    assert_eq!(msgs.len(), 3);
    assert_eq!(msgs[0].text(), "hello");
    assert_eq!(msgs[1].text(), "hi");
    assert_eq!(msgs[2].text(), "sys");
}

#[test]
fn convert_skips_unknown_roles() {
    let pairs = vec![
        ("user".into(), "hello".into()),
        ("function".into(), "result".into()),
        ("unknown".into(), "x".into()),
    ];
    let msgs = convert_role_content_pairs(pairs);
    assert_eq!(msgs.len(), 1);
    assert_eq!(msgs[0].text(), "hello");
}

#[test]
fn convert_empty() {
    let msgs = convert_role_content_pairs(vec![]);
    assert!(msgs.is_empty());
}
