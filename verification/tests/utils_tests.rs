use intent_engine::accounts::{list_accounts, resolve_to, save_account, AccountBook, SaveError};
use intent_engine::amount::{scale_amount, Nat};
use intent_engine::chat::{ChatMessage, FunctionCall, ToolCall, ToolCallArgument};
use intent_engine::json::{to_number, to_string, tool_args_json, JsonValue};
use intent_engine::payload::{decode_plan_value, plan_to_json};
use intent_engine::plan::{is_placeholder, plan_checksum, TransferPlan};
use intent_engine::principal::Principal;
use intent_engine::session::{cap_messages_in_place, detect_lang_last_user, lang_guard, MAX_MESSAGES};
use intent_engine::tokens::{example_for_decimals, resolve_token, token_symbols};

#[test]
fn test_token_symbols() {
    let syms = token_symbols();
    assert!(syms.contains(&"ICP"));
}

#[test]
fn test_resolve_to_alias_and_principal() {
    let mut book = AccountBook::new();
    let alias = "bob_alias";
    save_account(&mut book, alias.into(), Principal::anonymous().to_text(), None).unwrap();
    let (p, sub) = resolve_to(&book, alias).unwrap();
    assert_eq!(p, Principal::anonymous());
    assert!(sub.is_none());
    let (p2, _) = resolve_to(&book, &Principal::anonymous().to_text()).unwrap();
    assert_eq!(p2, Principal::anonymous());
}

#[test]
fn test_decode_plan_value() {
    let plan = sample_plan();
    let v = plan_to_json(&plan);
    let decoded = decode_plan_value(&v).unwrap();
    assert_eq!(decoded.checksum, plan.checksum);
}

fn sample_plan() -> TransferPlan {
    let mut plan = TransferPlan {
        from_owner: Some(Principal::anonymous()),
        from_sub: None,
        to_principal: Principal::anonymous(),
        to_sub: None,
        amount: Nat::from_u64(10),
        symbol: "CFXN".to_string(),
        ledger: Principal::management_canister(),
        memo: None,
        created_at_time: 1,
        human_readable: "Send".into(),
        checksum: String::new(),
    };
    plan.checksum = plan_checksum(&plan);
    plan
}

#[test]
fn test_resolve_token() {
    let (p, d, s) = resolve_token(Some("CFX"), None).unwrap();
    assert_eq!(d, 0);
    assert_eq!(s, "CFX");
    assert_eq!(p.to_text(), "umunu-kh777-77774-qaaca-cai");
}

#[test]
fn test_example_for_decimals() {
    assert_eq!(example_for_decimals(0), "10");
    assert_eq!(example_for_decimals(8), "0.5");
}

#[test]
fn test_scale_amount() {
    assert_eq!(scale_amount("1.5", 1).unwrap(), Nat::from_u64(15));
    assert!(scale_amount("1.23", 1).is_err());
}

#[test]
fn test_plan_checksum() {
    let plan = sample_plan();
    let cs = plan_checksum(&plan);
    assert_eq!(cs.len(), 16);
}

#[test]
fn test_is_placeholder() {
    assert!(is_placeholder("?"));
    assert!(!is_placeholder("value"));
}

#[test]
fn test_to_number_and_string() {
    assert_eq!(to_number(&JsonValue::String("7".into())), Some(JsonValue::unsigned(7)));
    assert_eq!(to_string("raw", &JsonValue::Bool(true)), JsonValue::String("true".into()));
}

fn argument(name: &str, value: &str) -> ToolCallArgument {
    ToolCallArgument { name: name.to_string(), value: value.to_string() }
}

#[test]
fn test_tool_args_json() {
    let call = ToolCall {
        id: "1".to_string(),
        function: FunctionCall {
            name: "plan_transfer".to_string(),
            arguments: vec![
                argument("to", "\"alice\""),
                argument("amount_dec", "\"10\""),
                argument("decimals", "8"),
            ],
        },
    };
    let v = tool_args_json(&call);
    assert_eq!(v.get("to"), Some(&JsonValue::String("alice".to_string())));
    assert_eq!(v.get("decimals"), Some(&JsonValue::unsigned(8)));
}

#[test]
fn test_cap_messages_in_place_and_lang() {
    let mut msgs: Vec<ChatMessage> = vec![ChatMessage::System { content: "sys".into() }];
    for _ in 0..12 {
        msgs.push(ChatMessage::User { content: "hi".into() });
    }
    cap_messages_in_place(&mut msgs);
    assert!(msgs.len() <= MAX_MESSAGES);

    let lang = detect_lang_last_user(&msgs);
    assert_eq!(lang, "en");
    let guard = lang_guard(lang);
    if let ChatMessage::System { content } = guard {
        assert!(content.contains("ENGLISH"));
    } else {
        panic!();
    }
}

#[test]
fn pocket_ic_save_and_list_accounts() {
    let mut book = AccountBook::new();
    let alias = "alice".to_string();
    let owner = Principal::anonymous().to_text();
    let res = save_account(&mut book, alias, owner, None);
    assert!(res.is_ok());

    let accounts = list_accounts(&book);
    assert_eq!(accounts.len(), 1);
    assert_eq!(accounts[0].alias, "alice");
}

#[test]
fn pocket_ic_save_account_errors() {
    let mut book = AccountBook::new();
    let alias = "bad".to_string();
    let owner = "not-a-principal".to_string();
    let res = save_account(&mut book, alias, owner, None);
    assert!(matches!(res, Err(ref e) if e.message().contains("principal invalid")));
    assert_eq!(res, Err(SaveError::InvalidPrincipal));

    let accounts = list_accounts(&book);
    assert!(accounts.is_empty());
}
