use intent_engine::chat::{AssistantMessage, ChatMessage, FunctionCall, ToolCall};
use intent_engine::session::{
    absorb_results, cap_messages_in_place, detect_lang_last_user, lang_guard, next_action,
    prepare_round, start_turn, ChatAction, ToolResult, MAX_MESSAGES, MAX_ROUNDS, SYSTEM_PROMPT,
};

fn user(text: &str) -> ChatMessage {
    ChatMessage::User { content: text.to_string() }
}

fn system(text: &str) -> ChatMessage {
    ChatMessage::System { content: text.to_string() }
}

fn some_call(id: &str) -> ToolCall {
    ToolCall {
        id: id.to_string(),
        function: FunctionCall { name: "list_accounts".to_string(), arguments: vec![] },
    }
}

#[test]
fn the_window_keeps_the_instruction_and_the_newest_messages() {
    let mut msgs = vec![system("sys")];
    for i in 0..12 {
        msgs.push(user(&format!("m{}", i)));
    }
    cap_messages_in_place(&mut msgs);
    assert_eq!(msgs.len(), MAX_MESSAGES);
    assert_eq!(msgs[0], system("sys"));
    let kept: Vec<ChatMessage> = (3..12).map(|i| user(&format!("m{}", i))).collect();
    assert_eq!(&msgs[1..], &kept[..]);
}

#[test]
fn a_short_conversation_is_not_cut() {
    let mut msgs = vec![system("sys")];
    for i in 0..9 {
        msgs.push(user(&format!("m{}", i)));
    }
    let before = msgs.len();
    cap_messages_in_place(&mut msgs);
    assert_eq!(msgs.len(), before);
    let mut none: Vec<ChatMessage> = vec![];
    cap_messages_in_place(&mut none);
    assert!(none.is_empty());
}

#[test]
fn language_follows_the_last_user_message() {
    assert_eq!(detect_lang_last_user(&vec![]), "en");
    assert_eq!(detect_lang_last_user(&vec![system("kamu")]), "en");
    assert_eq!(detect_lang_last_user(&vec![user("Kirim 10 ke alice, SUDAH?")]), "id");
    assert_eq!(detect_lang_last_user(&vec![user("yang mana"), user("send 10")]), "en");
    assert_eq!(detect_lang_last_user(&vec![user("send 10"), user("bahasa Indonesia")]), "id");
    assert_eq!(detect_lang_last_user(&vec![user("Indonesian? no, English please")]), "en");
    assert_eq!(
        detect_lang_last_user(&vec![
            user("kamu"),
            ChatMessage::Tool { content: "english".into(), tool_call_id: "1".into() },
        ]),
        "id"
    );
}

#[test]
fn guards() {
    assert_eq!(
        lang_guard("id"),
        system("BAHASA: Jawab dalam BAHASA INDONESIA saja. Jangan campur Inggris.")
    );
    assert_eq!(lang_guard("en"), system("LANGUAGE: Answer in ENGLISH only. Do not mix Indonesian."));
    assert_eq!(lang_guard("fr"), lang_guard("en"));
}

#[test]
fn a_turn_starts_with_instruction_and_guard() {
    let convo = start_turn(vec![user("kamu kirim 5")]);
    assert_eq!(convo.len(), 3);
    assert_eq!(convo[0], system(SYSTEM_PROMPT));
    assert_eq!(convo[1], lang_guard("id"));
    assert_eq!(convo[2], user("kamu kirim 5"));

    let long: Vec<ChatMessage> = (0..30).map(|i| user(&format!("m{}", i))).collect();
    let convo = start_turn(long);
    assert_eq!(convo.len(), MAX_MESSAGES);
    assert_eq!(convo[0], system(SYSTEM_PROMPT));
    assert_eq!(convo[1], lang_guard("en"));
    let kept: Vec<ChatMessage> = (22..30).map(|i| user(&format!("m{}", i))).collect();
    assert_eq!(&convo[2..], &kept[..]);

    // Nine messages fill the window; the pin is still there.
    let mut nine: Vec<ChatMessage> = (0..8).map(|i| user(&format!("m{}", i))).collect();
    nine.push(user("sudah?"));
    let convo = start_turn(nine);
    assert_eq!(convo.len(), MAX_MESSAGES);
    assert_eq!(convo[0], system(SYSTEM_PROMPT));
    assert_eq!(convo[1], lang_guard("id"));
    assert_eq!(convo[2], user("m1"));
    assert_eq!(convo[9], user("sudah?"));
}

#[test]
fn rounds_of_tool_calls_are_bounded() {
    let answer = |content: Option<&str>, calls: Vec<ToolCall>| AssistantMessage {
        content: content.map(|c| c.to_string()),
        tool_calls: calls,
    };
    assert_eq!(
        next_action(0, answer(None, vec![some_call("a")])),
        ChatAction::CallTools(vec![some_call("a")])
    );
    assert_eq!(
        next_action(MAX_ROUNDS - 1, answer(Some("x"), vec![some_call("a")])),
        ChatAction::CallTools(vec![some_call("a")])
    );
    assert_eq!(
        next_action(MAX_ROUNDS, answer(Some("x"), vec![some_call("a")])),
        ChatAction::Reply("x".to_string())
    );
    assert_eq!(next_action(MAX_ROUNDS, answer(None, vec![some_call("a")])), ChatAction::Reply(String::new()));
    assert_eq!(next_action(0, answer(Some("done"), vec![])), ChatAction::Reply("done".to_string()));
}

#[test]
fn results_are_appended_with_their_call_identifiers() {
    let mut convo = start_turn(vec![user("hello")]);
    absorb_results(
        &mut convo,
        vec![
            ToolResult { tool_call_id: "a".into(), content: "{}".into() },
            ToolResult { tool_call_id: "b".into(), content: "[]".into() },
        ],
    );
    assert_eq!(convo.len(), 5);
    assert_eq!(convo[0], system(SYSTEM_PROMPT));
    assert_eq!(convo[1], lang_guard("en"));
    assert_eq!(convo[2], user("hello"));
    assert_eq!(convo[3], ChatMessage::Tool { content: "{}".into(), tool_call_id: "a".into() });
    assert_eq!(convo[4], ChatMessage::Tool { content: "[]".into(), tool_call_id: "b".into() });

    // Round after round the pin stays second and the window stays bounded.
    let mut convo = start_turn(vec![user("kamu kirim 5")]);
    for round in 0..6 {
        let results = (0..3)
            .map(|k| ToolResult { tool_call_id: format!("c{}-{}", round, k), content: "{}".into() })
            .collect();
        absorb_results(&mut convo, results);
        assert!(convo.len() <= MAX_MESSAGES);
        assert_eq!(convo[0], system(SYSTEM_PROMPT));
        assert_eq!(convo[1], lang_guard("id"));
        assert_eq!(convo.iter().filter(|m| **m == lang_guard("id")).count(), 1);
        assert_eq!(
            convo[convo.len() - 1],
            ChatMessage::Tool { content: "{}".into(), tool_call_id: format!("c{}-2", round) }
        );
    }
    assert_eq!(convo.len(), MAX_MESSAGES);

    let mut empty: Vec<ChatMessage> = vec![];
    prepare_round(&mut empty);
    assert_eq!(empty, vec![lang_guard("en")]);
}
