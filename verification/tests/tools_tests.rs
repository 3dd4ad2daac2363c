use intent_engine::amount::Nat;
use intent_engine::chat::{FunctionCall, ToolCall, ToolCallArgument};
use intent_engine::engine::Engine;
use intent_engine::errors::InvalidInput;
use intent_engine::json::{to_number, to_string, tool_args_json, JsonMember, JsonNumber, JsonValue};
use intent_engine::payload::{
    decode_plan_value, plan_args_from_json, plan_to_json, save_args_from_json, ArgField, ArgsError,
    PayloadError,
};
use intent_engine::plan::{Memo, PlanArgs, TransferPlan};
use intent_engine::principal::Principal;
use intent_engine::tools::{
    complete_transfer, handle_tool_call, LedgerError, LedgerErrorKind, ToolReply, ToolStep,
};

fn alice() -> Principal {
    Principal::from_slice(&[1, 2, 3]).unwrap()
}

fn bob() -> Principal {
    Principal::from_slice(&[9, 9]).unwrap()
}

fn call(name: &str, arguments: &[(&str, &str)]) -> ToolCall {
    ToolCall {
        id: "call-1".to_string(),
        function: FunctionCall {
            name: name.to_string(),
            arguments: arguments
                .iter()
                .map(|(n, v)| ToolCallArgument { name: n.to_string(), value: v.to_string() })
                .collect(),
        },
    }
}

fn engine_with_alias() -> Engine {
    let mut engine = Engine::new();
    let step = handle_tool_call(
        &mut engine,
        &alice(),
        1,
        &call("save_account", &[("alias", "\"alice\""), ("owner", "\"2vxsx-fae\"")]),
    );
    assert_eq!(step, ToolStep::Done(ToolReply::Saved));
    engine
}

fn planned(step: ToolStep) -> TransferPlan {
    match step {
        ToolStep::Done(ToolReply::Planned(plan)) => plan,
        other => panic!("no plan: {:?}", other),
    }
}

#[test]
fn send_to_a_saved_alias_and_confirm_once() {
    let mut engine = engine_with_alias();
    let plan = planned(handle_tool_call(
        &mut engine,
        &alice(),
        5,
        &call("plan_transfer", &[("to", "alice"), ("amount_dec", "10"), ("symbol", "CFX")]),
    ));
    assert!(plan.human_readable.starts_with("Send 10 CFX to "));
    assert_eq!(plan.symbol, "CFX");
    assert_eq!(plan.ledger.to_text(), "umunu-kh777-77774-qaaca-cai");
    assert_eq!(plan.checksum.len(), 16);
    assert_eq!(engine.pending_count(), 1);

    let step = handle_tool_call(&mut engine, &alice(), 6, &call("confirm_transfer", &[]));
    let (confirmed, request) = match step {
        ToolStep::Transfer { plan, request } => (plan, request),
        other => panic!("no transfer: {:?}", other),
    };
    assert_eq!(confirmed, plan);
    assert_eq!(request.from.owner, alice());
    assert_eq!(request.amount, Nat::from_u64(10));

    let reply = complete_transfer(&mut engine, &confirmed, Ok(Nat::from_u64(1234)));
    assert_eq!(reply, ToolReply::Executed { block_index: Nat::from_u64(1234) });
    assert_eq!(reply.render(), "{\"block_index\":\"1_234\",\"status\":\"ok\"}");

    let again = handle_tool_call(&mut engine, &alice(), 7, &call("confirm_transfer", &[]));
    assert_eq!(again, ToolStep::Done(ToolReply::Duplicate));
    let by_checksum = handle_tool_call(
        &mut engine,
        &alice(),
        8,
        &call("confirm_transfer", &[("checksum", plan.checksum.as_str())]),
    );
    assert_eq!(by_checksum, ToolStep::Done(ToolReply::Duplicate));
}

#[test]
fn an_asset_off_the_allow_list_is_refused_with_the_options() {
    let mut engine = engine_with_alias();
    let step = handle_tool_call(
        &mut engine,
        &alice(),
        5,
        &call("plan_transfer", &[("to", "alice"), ("amount_dec", "10"), ("symbol", "DOGE")]),
    );
    let reply = match step {
        ToolStep::Done(reply) => reply,
        other => panic!("not answered: {:?}", other),
    };
    assert_eq!(
        reply,
        ToolReply::BadToken { requested: "DOGE".to_string(), options: vec!["ICP", "CFX"] }
    );
    assert_eq!(
        reply.render(),
        "{\"code\":\"BadToken\",\"field\":\"symbol\",\"options\":[\"ICP\",\"CFX\"],\"requested\":\"DOGE\",\"status\":\"err\"}"
    );
    assert_eq!(engine.pending_count(), 0);
    assert_eq!(
        handle_tool_call(&mut engine, &alice(), 6, &call("confirm_transfer", &[])),
        ToolStep::Done(ToolReply::MissingPlan)
    );
}

#[test]
fn a_failed_transfer_can_be_confirmed_again() {
    let mut engine = engine_with_alias();
    let plan = planned(handle_tool_call(
        &mut engine,
        &alice(),
        5,
        &call("plan_transfer", &[("to", "alice"), ("amount_dec", "10"), ("memo", "rent")]),
    ));
    assert_eq!(plan.memo, Some(Memo(format!("rent|caller:{}", alice().to_text()).into_bytes())));
    let reply = complete_transfer(
        &mut engine,
        &plan,
        Err(LedgerError {
            kind: LedgerErrorKind::InsufficientFunds,
            detail: "InsufficientFunds { balance: Nat(3) }".to_string(),
        }),
    );
    assert_eq!(
        reply,
        ToolReply::ExecError {
            kind: Some(LedgerErrorKind::InsufficientFunds),
            error: "ICRC2::InsufficientFunds { balance: Nat(3) }".to_string(),
        }
    );
    assert_eq!(
        reply.render(),
        "{\"code\":\"ExecError\",\"error\":\"ICRC2::InsufficientFunds { balance: Nat(3) }\",\"status\":\"err\"}"
    );
    let step = handle_tool_call(&mut engine, &alice(), 6, &call("confirm_transfer", &[]));
    assert!(matches!(step, ToolStep::Transfer { .. }));
}

#[test]
fn another_caller_cannot_confirm() {
    let mut engine = engine_with_alias();
    let plan = planned(handle_tool_call(
        &mut engine,
        &alice(),
        5,
        &call("plan_transfer", &[("to", "alice"), ("amount_dec", "10")]),
    ));
    let payload = plan_to_json(&plan).render();
    for arguments in [
        vec![],
        vec![("checksum", plan.checksum.as_str())],
        vec![("plan", payload.as_str())],
    ] {
        let step = handle_tool_call(&mut engine, &bob(), 6, &call("confirm_transfer", &arguments));
        assert_eq!(step, ToolStep::Done(ToolReply::MissingPlan));
    }
    let step = handle_tool_call(
        &mut engine,
        &alice(),
        6,
        &call("confirm_transfer", &[("plan", payload.as_str())]),
    );
    assert!(matches!(step, ToolStep::Transfer { .. }));
}

#[test]
fn tool_replies_for_bad_input() {
    let mut engine = engine_with_alias();
    let cases: Vec<(Vec<(&str, &str)>, ToolReply, &str)> = vec![
        (
            vec![("amount_dec", "10")],
            ToolReply::BadArgs { error: ArgsError::MissingField { field: ArgField::To } },
            "{\"code\":\"BadArgs\",\"error\":\"missing field to\",\"status\":\"err\"}",
        ),
        (
            vec![("to", "alice"), ("amount_dec", "10"), ("colour", "red")],
            ToolReply::BadArgs { error: ArgsError::UnknownField },
            "{\"code\":\"BadArgs\",\"error\":\"unknown field\",\"status\":\"err\"}",
        ),
        (
            vec![("to", "tbd"), ("amount_dec", "10")],
            ToolReply::NeedRecipient,
            "{\"code\":\"NeedRecipient\",\"field\":\"to\",\"status\":\"err\"}",
        ),
        (
            vec![("to", "alice"), ("amount_dec", "?")],
            ToolReply::NeedAmount,
            "{\"code\":\"NeedAmount\",\"example\":\"10\",\"field\":\"amount_dec\",\"status\":\"err\"}",
        ),
        (
            vec![("to", "alice"), ("amount_dec", "0.5")],
            ToolReply::BadAmount {
                error: InvalidInput::TooManyDecimals { max: 0 },
                amount: "0.5".to_string(),
                example: "10",
            },
            "{\"code\":\"BadAmount\",\"error\":\"maksimal 0 digit desimal\",\"example\":\"10\",\"field\":\"amount_dec\",\"status\":\"err\"}",
        ),
        (
            vec![("to", "carol"), ("amount_dec", "5")],
            ToolReply::BadRecipient {
                error: InvalidInput::UnknownRecipient,
                to: "carol".to_string(),
            },
            "{\"code\":\"BadRecipient\",\"error\":\"alias/principal 'carol' tidak ditemukan\",\"field\":\"to\",\"status\":\"err\"}",
        ),
    ];
    for (arguments, expected, text) in cases {
        let step = handle_tool_call(&mut engine, &alice(), 5, &call("plan_transfer", &arguments));
        let reply = match step {
            ToolStep::Done(reply) => reply,
            other => panic!("not answered: {:?}", other),
        };
        assert_eq!(reply, expected);
        assert_eq!(reply.render(), text);
    }
    assert_eq!(engine.pending_count(), 0);
}

#[test]
fn saving_and_listing_through_tools() {
    let mut engine = engine_with_alias();
    assert_eq!(
        handle_tool_call(
            &mut engine,
            &alice(),
            1,
            &call("save_account", &[("alias", "x"), ("owner", "nope")]),
        ),
        ToolStep::Done(ToolReply::BadPrincipal)
    );
    assert_eq!(
        handle_tool_call(
            &mut engine,
            &alice(),
            1,
            &call("save_account", &[("alias", "x"), ("owner", "aaaaa-aa"), ("sub", "[1,2,3]")]),
        ),
        ToolStep::Done(ToolReply::BadSub)
    );
    assert_eq!(
        handle_tool_call(&mut engine, &alice(), 1, &call("save_account", &[("alias", "x")])),
        ToolStep::Done(ToolReply::BadArgs {
            error: ArgsError::MissingField { field: ArgField::Owner }
        })
    );
    let listed = handle_tool_call(&mut engine, &alice(), 1, &call("list_accounts", &[]));
    let reply = match listed {
        ToolStep::Done(reply) => reply,
        other => panic!("not answered: {:?}", other),
    };
    assert_eq!(
        reply.render(),
        "[{\"alias\":\"alice\",\"owner\":\"2vxsx-fae\",\"subaccount\":null}]"
    );
    let unknown = handle_tool_call(&mut engine, &alice(), 1, &call("dance", &[]));
    assert_eq!(unknown, ToolStep::Done(ToolReply::UnknownTool));
    assert_eq!(ToolReply::UnknownTool.render(), "{\"error\":\"unknown tool\",\"status\":\"err\"}");
    assert_eq!(ToolReply::Saved.render(), "{\"status\":\"ok\"}");
    assert_eq!(ToolReply::Duplicate.render(), "{\"code\":\"Duplicate\",\"status\":\"err\"}");
    assert_eq!(ToolReply::BadPrincipal.render(), "{\"code\":\"BadPrincipal\",\"status\":\"err\"}");
    assert_eq!(ToolReply::BadSub.render(), "{\"code\":\"BadSub\",\"status\":\"err\"}");
    assert_eq!(
        ToolReply::MissingPlan.render(),
        "{\"code\":\"MissingPlan\",\"error\":\"no last plan\",\"status\":\"err\"}"
    );
}

#[test]
fn json_parse_and_render() {
    let v = JsonValue::parse(" {\"b\": [1, -2, 1.5, true, null], \"a\": \"x\"} ").unwrap();
    assert_eq!(v.render(), "{\"a\":\"x\",\"b\":[1,-2,1.5,true,null]}");
    assert_eq!(v.get("a"), Some(&JsonValue::text("x")));
    assert_eq!(
        v.get("b"),
        Some(&JsonValue::Array(vec![
            JsonValue::unsigned(1),
            JsonValue::Number(JsonNumber::Negative(-2)),
            JsonValue::Number(JsonNumber::Real("1.5".to_string())),
            JsonValue::Bool(true),
            JsonValue::Null,
        ]))
    );
    assert_eq!(v.get("c"), None);
    assert_eq!(JsonValue::Null.get("a"), None);
    assert_eq!(JsonValue::parse("{"), None);
    assert_eq!(v.clone(), v);
}

#[test]
fn coercion_of_values() {
    assert_eq!(to_number(&JsonValue::unsigned(3)), Some(JsonValue::unsigned(3)));
    assert_eq!(to_number(&JsonValue::text("+12")), Some(JsonValue::unsigned(12)));
    assert_eq!(to_number(&JsonValue::text("18446744073709551615")), Some(JsonValue::unsigned(u64::MAX)));
    assert_eq!(to_number(&JsonValue::text("18446744073709551616")), None);
    assert_eq!(to_number(&JsonValue::text("")), None);
    assert_eq!(to_number(&JsonValue::text("1x")), None);
    assert_eq!(to_number(&JsonValue::Bool(true)), None);
    assert_eq!(to_string("", &JsonValue::text("s")), JsonValue::text("s"));
    assert_eq!(to_string("", &JsonValue::unsigned(10)), JsonValue::text("10"));
    assert_eq!(
        to_string("", &JsonValue::Object(vec![JsonMember { key: "a".into(), value: JsonValue::Null }])),
        JsonValue::text("{\"a\":null}")
    );
}

#[test]
fn arguments_are_read_as_json_where_they_are_json() {
    let c = call(
        "x",
        &[
            ("to", "alice"),
            ("amount_dec", "10"),
            ("decimals", "\"8\""),
            ("extra", "\"{\\\"k\\\": [1]}\""),
            ("flag", "true"),
            ("decimals", "oops"),
            ("to", "\"bob\""),
        ],
    );
    let v = tool_args_json(&c);
    assert_eq!(v.get("to"), Some(&JsonValue::text("bob")));
    assert_eq!(v.get("amount_dec"), Some(&JsonValue::text("10")));
    assert_eq!(v.get("decimals"), Some(&JsonValue::unsigned(0)));
    assert_eq!(v.get("flag"), Some(&JsonValue::Bool(true)));
    assert_eq!(v.get("extra").map(|e| e.render()), Some("{\"k\":[1]}".to_string()));
}

#[test]
fn reading_plan_arguments() {
    let ok = JsonValue::parse(
        "{\"to\":\"a\",\"amount_dec\":\"1\",\"symbol\":null,\"decimals\":8,\"memo\":\"m\"}",
    )
    .unwrap();
    assert_eq!(
        plan_args_from_json(&ok),
        Ok(PlanArgs {
            to: "a".into(),
            amount_dec: "1".into(),
            symbol: None,
            ledger: None,
            decimals: Some(8),
            memo: Some("m".into()),
        })
    );
    let cases = [
        ("[]", ArgsError::NotAnObject),
        ("{\"to\":\"a\"}", ArgsError::MissingField { field: ArgField::AmountDec }),
        ("{\"to\":1,\"amount_dec\":\"1\"}", ArgsError::InvalidType { field: ArgField::To }),
        (
            "{\"to\":\"a\",\"amount_dec\":\"1\",\"symbol\":7}",
            ArgsError::InvalidType { field: ArgField::Symbol },
        ),
        (
            "{\"to\":\"a\",\"amount_dec\":\"1\",\"decimals\":256}",
            ArgsError::InvalidType { field: ArgField::Decimals },
        ),
        ("{\"to\":\"a\",\"amount_dec\":\"1\",\"x\":1}", ArgsError::UnknownField),
    ];
    for (text, error) in cases {
        assert_eq!(plan_args_from_json(&JsonValue::parse(text).unwrap()), Err(error));
    }
    assert_eq!(ArgsError::NotAnObject.message(), "arguments must be a JSON object");
    assert_eq!(
        ArgsError::InvalidType { field: ArgField::Decimals }.message(),
        "invalid type for field decimals"
    );
    let save = JsonValue::parse("{\"alias\":\"a\",\"owner\":\"o\",\"sub\":[1,255]}").unwrap();
    let read = save_args_from_json(&save).unwrap();
    assert_eq!((read.alias.as_str(), read.owner.as_str(), read.sub), ("a", "o", Some(vec![1u8, 255])));
    let bad = JsonValue::parse("{\"alias\":\"a\",\"owner\":\"o\",\"sub\":[256]}").unwrap();
    assert_eq!(save_args_from_json(&bad), Err(ArgsError::InvalidType { field: ArgField::Sub }));
}

#[test]
fn plans_round_trip_through_json() {
    let plan = TransferPlan {
        from_owner: Some(alice()),
        from_sub: Some([3u8; 32]),
        to_principal: Principal::anonymous(),
        to_sub: None,
        amount: Nat::from_u128(1u128 << 70),
        symbol: "CFXN".to_string(),
        ledger: Principal::management_canister(),
        memo: Some(Memo(vec![0, 1, 255])),
        created_at_time: u64::MAX,
        human_readable: "Send".into(),
        checksum: "abcd".into(),
    };
    let json = plan_to_json(&plan);
    assert_eq!(decode_plan_value(&json), Ok(plan.clone()));
    let text = JsonValue::String(format!("  {}  ", json.render()));
    assert_eq!(decode_plan_value(&text), Ok(plan.clone()));
    assert_eq!(json.get("amount").map(|a| a.render()), Some("[0,0,64]".to_string()));
    assert_eq!(json.get("to_principal"), Some(&JsonValue::text("2vxsx-fae")));
    assert_eq!(json.get("to_sub"), Some(&JsonValue::Null));

    assert_eq!(decode_plan_value(&JsonValue::Null), Err(PayloadError::NotAnObject));
    assert_eq!(decode_plan_value(&JsonValue::text("confirm")), Err(PayloadError::NotAPlanText));
    assert_eq!(decode_plan_value(&JsonValue::text("{\"a\":")), Err(PayloadError::Malformed));
    assert_eq!(decode_plan_value(&JsonValue::text("{}")), Err(PayloadError::Malformed));
    assert_eq!(PayloadError::NotAnObject.message(), "plan must be a JSON object or JSON string");
    assert_eq!(
        PayloadError::NotAPlanText.message(),
        "plan must be a JSON object (from plan_transfer)"
    );
}

#[test]
fn a_result_carries_the_identifier_of_its_call() {
    let mut engine = engine_with_alias();
    let asked = call("plan_transfer", &[("to", "nobody"), ("amount_dec", "1")]);
    let reply = match handle_tool_call(&mut engine, &alice(), 5, &asked) {
        ToolStep::Done(reply) => reply,
        other => panic!("not answered: {:?}", other),
    };
    let result = reply.result_for(&asked);
    assert_eq!(result.tool_call_id, asked.id);
    assert_eq!(result.content, reply.render());
    assert!(result.content.contains("alias/principal 'nobody' tidak ditemukan"));
}
