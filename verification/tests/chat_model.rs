use erniebot_rs::chat_model::ChatModel;

#[test]
fn test_chat_model_to_string() {
    assert_eq!(ChatModel::ErnieBotTurbo.to_string(), "eb-instant");
    assert_eq!(ChatModel::ErnieBot.to_string(), "completions");
    assert_eq!(ChatModel::Ernie40.to_string(), "completions_pro");
}

#[test]
fn test_chat_model_from_str() {
    assert_eq!(
        ChatModel::from_str("eb-instant").unwrap(),
        ChatModel::ErnieBotTurbo
    );
    assert_eq!(
        ChatModel::from_str("completions").unwrap(),
        ChatModel::ErnieBot
    );
    assert_eq!(
        ChatModel::from_str("completions_pro").unwrap(),
        ChatModel::Ernie40
    );
}

#[test]
fn unknown_model_name_is_rejected() {
    assert!(ChatModel::from_str("no-such-model").is_none());
    assert!(ChatModel::from_str("").is_none());
}

#[test]
fn default_model_is_turbo() {
    assert_eq!(ChatModel::default(), ChatModel::ErnieBotTurbo);
}

#[test]
fn every_model_name_round_trips() {
    let models = [
        ChatModel::ErnieBotTurbo,
        ChatModel::ErnieBot,
        ChatModel::ErnieBot128K,
        ChatModel::ErnieSpeed,
        ChatModel::ErnieSpeed128K,
        ChatModel::ErnieFunc,
        ChatModel::Ernie40,
    ];
    for m in models {
        assert_eq!(ChatModel::from_str(&m.to_string()).unwrap(), m);
    }
}
