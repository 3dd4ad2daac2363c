use intent_engine::agent::{
    confirm_code, gen_intent_id, init_secret, msg_contains_code, Agent, DraftIntent, PromptStep,
    CODE_LEN, TTL_NS,
};
use intent_engine::amount::Nat;
use intent_engine::chat::ChatMessage;
use intent_engine::json::JsonValue;
use intent_engine::ledger::{Account, InitArg, Ledger, LedgerRefusal, TransferArgs};
use intent_engine::planner::{
    build_call, parse_manifest, parse_planner_reply, parse_tool_spec, planner_failed,
    planner_messages, registry_failed, tool_fetch_failed, ExecuteError, PlannerError,
    PLANNER_PROMPT,
};
use intent_engine::principal::Principal;
use intent_engine::registry::{Registry, RegistryError};

fn alice() -> Principal {
    Principal::from_slice(&[1, 2, 3]).unwrap()
}

fn bob() -> Principal {
    Principal::from_slice(&[9, 9]).unwrap()
}

fn draft(tool: &str) -> DraftIntent {
    DraftIntent {
        tool_name: tool.to_string(),
        args: JsonValue::parse("{\"to_owner\":\"2vxsx-fae\",\"amount\":\"10\"}").unwrap(),
        natural_summary: "Kirim 10 ke anonim?".to_string(),
    }
}

#[test]
fn codes_and_identifiers() {
    assert_eq!(init_secret(&Principal::anonymous(), 7), "2vxsx-fae-7");
    assert_eq!(gen_intent_id(100, 0), "i-100-0");
    assert_eq!(gen_intent_id(0, 12), "i-0-12");
    assert_eq!(gen_intent_id(u64::MAX, u64::MAX), "i-18446744073709551615-18446744073709551615");
    assert_eq!(confirm_code("2vxsx-fae-7", "i-100-0"), "#OLDG");
    assert_eq!(confirm_code("s3cret", "i-1"), "#BATU");
    assert_eq!(confirm_code("2vxsx-fae-7", "i-100"), "#54CW");
    assert_eq!(confirm_code("x", "y").chars().count(), CODE_LEN + 1);
    assert!(msg_contains_code("ya, #batu lanjut", "#BATU"));
    assert!(msg_contains_code("#BATU", "#batu"));
    assert!(!msg_contains_code("batu", "#BATU"));
    assert!(msg_contains_code("anything", ""));
}

#[test]
fn a_draft_is_confirmed_by_its_code_within_the_time_to_live() {
    let mut agent = Agent::init(&Principal::anonymous(), 7);
    let reply = agent.record_draft(&alice(), 100, draft("transfer"));
    assert_eq!(
        reply,
        "Kirim 10 ke anonim?\n\nBalas apa pun yang mengandung kode ini untuk konfirmasi: **#OLDG** (5 menit)"
    );
    assert_eq!(agent.pending_count(), 1);

    let step = agent.begin_prompt(&alice(), 200, "aaaaa-aa", "  ok #oldg  ");
    assert_eq!(
        step,
        PromptStep::Execute {
            intent_id: "i-100-0".to_string(),
            tool_name: "transfer".to_string(),
            args: draft("transfer").args,
        }
    );
    // Without the code the planner is asked.
    assert_eq!(
        agent.begin_prompt(&alice(), 200, "aaaaa-aa", "  ok  "),
        PromptStep::Plan { utterance: "ok".to_string() }
    );
    // Another caller does not confirm, even with the code.
    assert_eq!(
        agent.begin_prompt(&bob(), 200, "aaaaa-aa", "#OLDG"),
        PromptStep::Plan { utterance: "#OLDG".to_string() }
    );
    // At the end of the time to live the code still counts; after it, it does not.
    assert!(matches!(
        agent.begin_prompt(&alice(), 100 + TTL_NS, "aaaaa-aa", "#OLDG"),
        PromptStep::Execute { .. }
    ));
    assert_eq!(
        agent.begin_prompt(&alice(), 100 + TTL_NS + 1, "aaaaa-aa", "#OLDG"),
        PromptStep::Plan { utterance: "#OLDG".to_string() }
    );
    assert_eq!(
        agent.begin_prompt(&alice(), 200, "nonsense", "#OLDG"),
        PromptStep::Reply("\u{274c} registry id invalid".to_string())
    );
}

#[test]
fn an_executed_intent_is_not_confirmed_again() {
    let mut agent = Agent::init(&Principal::anonymous(), 7);
    agent.record_draft(&alice(), 100, draft("transfer"));
    let failed = agent.finish_execution("i-100-0", Err("insufficient funds".to_string()));
    assert_eq!(failed, "\u{274c} Gagal: insufficient funds");
    assert!(matches!(
        agent.begin_prompt(&alice(), 200, "aaaaa-aa", "#OLDG"),
        PromptStep::Execute { .. }
    ));
    let done = agent.finish_execution("i-100-0", Ok(Nat::from_u64(12)));
    assert_eq!(done, "\u{2705} Terkirim. Block index: 12");
    assert_eq!(
        agent.begin_prompt(&alice(), 200, "aaaaa-aa", "#OLDG"),
        PromptStep::Plan { utterance: "#OLDG".to_string() }
    );
    assert_eq!(agent.pending_count(), 1);
    assert_eq!(agent.finish_execution("i-999", Ok(Nat::from_u64(1))), "\u{2705} Terkirim. Block index: 1");
    assert_eq!(agent.pending_count(), 1);
}

#[test]
fn a_draft_without_tool_is_handed_on() {
    let mut agent = Agent::new("s".to_string());
    let reply = agent.record_draft(&alice(), 100, draft(""));
    assert_eq!(reply, "Kirim 10 ke anonim?");
    assert_eq!(agent.pending_count(), 0);
    agent.record_draft(&alice(), 100, draft("a"));
    agent.record_draft(&bob(), 100, draft("b"));
    assert_eq!(agent.pending_count(), 2);
    agent.record_draft(&bob(), 101, draft("c"));
    assert_eq!(agent.pending_count(), 3);
}

#[test]
fn drafts_of_one_moment_do_not_displace_each_other() {
    let mut agent = Agent::new("s".to_string());
    agent.record_draft(&alice(), 100, draft("a"));
    agent.record_draft(&bob(), 100, draft("b"));
    let of_alice = confirm_code("s", "i-100-0");
    let of_bob = confirm_code("s", "i-100-1");
    assert_eq!(
        agent.begin_prompt(&alice(), 101, "aaaaa-aa", &of_alice),
        PromptStep::Execute {
            intent_id: "i-100-0".to_string(),
            tool_name: "a".to_string(),
            args: draft("a").args,
        }
    );
    assert_eq!(
        agent.begin_prompt(&bob(), 101, "aaaaa-aa", &of_bob),
        PromptStep::Execute {
            intent_id: "i-100-1".to_string(),
            tool_name: "b".to_string(),
            args: draft("b").args,
        }
    );
    agent.finish_execution("i-100-1", Ok(Nat::from_u64(3)));
    assert!(matches!(
        agent.begin_prompt(&alice(), 101, "aaaaa-aa", &of_alice),
        PromptStep::Execute { .. }
    ));
    assert!(matches!(
        agent.begin_prompt(&bob(), 101, "aaaaa-aa", &of_bob),
        PromptStep::Plan { .. }
    ));
}

#[test]
fn planner_answers() {
    let text = "Sure!\n```json\n{\"tool_name\":\"t\",\"args\":{\"a\":\"1\"},\"natural_summary\":\"s\"}\n```\nbye ```";
    let d = parse_planner_reply(text).unwrap();
    assert_eq!(d.tool_name, "t");
    assert_eq!(d.natural_summary, "s");
    assert_eq!(d.args.render(), "{\"a\":\"1\"}");
    let no_args = parse_planner_reply("```json{\"tool_name\":\"\",\"natural_summary\":\"no\"}```").unwrap();
    assert_eq!(no_args.args, JsonValue::Null);
    assert_eq!(parse_planner_reply("nothing here").map(|_| ()), Err(PlannerError::NoJsonBlock));
    assert_eq!(parse_planner_reply("``` json {}```").map(|_| ()), Err(PlannerError::NoJsonBlock));
    assert_eq!(parse_planner_reply("```json {}").map(|_| ()), Err(PlannerError::NoJsonClosing));
    assert_eq!(parse_planner_reply("```json {} ```").map(|_| ()), Err(PlannerError::InvalidJson));
    assert_eq!(parse_planner_reply("```json nope ```").map(|_| ()), Err(PlannerError::InvalidJson));
    assert_eq!(PlannerError::NoJsonBlock.message(), "no json block");
    assert_eq!(PlannerError::NoJsonClosing.message(), "no json closing");
    assert_eq!(PlannerError::InvalidJson.message(), "invalid planner json");
    assert_eq!(planner_failed("x"), "\u{274c} planner error: x");
    assert_eq!(registry_failed("x"), "\u{274c} registry error: x");
    assert_eq!(tool_fetch_failed("x"), "\u{274c} tool fetch error: x");
    let listed = parse_manifest("[ {\"name\": \"send\", \"args\": {}} ,\n 1 ]").unwrap();
    assert_eq!(
        planner_messages("x".to_string(), listed)[1],
        ChatMessage::System {
            content: "TOOLS_MANIFEST=[{\"args\":{},\"name\":\"send\"},1]".to_string()
        }
    );
    let msgs = planner_messages("send 1".to_string(), Vec::new());
    assert_eq!(
        msgs,
        vec![
            ChatMessage::System { content: PLANNER_PROMPT.to_string() },
            ChatMessage::System { content: "TOOLS_MANIFEST=[]".to_string() },
            ChatMessage::User { content: "send 1".to_string() },
        ]
    );
}

fn spec_text(shape: &str) -> String {
    format!(
        "{{\"name\":\"transfer\",\"description\":\"d\",\"canister_id\":\"aaaaa-aa\",\"method\":\"icrc1_transfer\",\"args_schema\":{{\"to_owner\":\"text\"}},\"return_shape\":{}}}",
        shape
    )
}

#[test]
fn intents_are_mapped_to_calls() {
    let spec = parse_tool_spec(&spec_text("null")).unwrap();
    assert_eq!(spec.method, "icrc1_transfer");
    assert_eq!(spec.return_shape, None);
    assert_eq!(spec.safety, JsonValue::Null);
    let args = JsonValue::parse("{\"to_owner\":\"2vxsx-fae\",\"amount\":\"0100\",\"memo\":\"hi\"}").unwrap();
    let call = build_call(&spec, &args).unwrap();
    let written = JsonValue::parse("{\"to_owner\":\"2vxsx-fae\",\"amount\":\"+1_00\",\"memo\":\"hi\"}").unwrap();
    assert_eq!(build_call(&spec, &written).unwrap(), call);
    assert_eq!(call.canister, Principal::management_canister());
    assert_eq!(call.method, "icrc1_transfer");
    assert_eq!(
        call.args,
        TransferArgs {
            from_subaccount: None,
            to: Account { owner: Principal::anonymous(), subaccount: None },
            amount: Nat::from_u64(100),
            fee: None,
            memo: Some(b"hi".to_vec()),
            created_at_time: None,
        }
    );
    let cases = [
        ("{\"amount\":\"1\"}", ExecuteError::MissingToOwner),
        ("{\"to_owner\":\"x\",\"amount\":\"1\"}", ExecuteError::BadToOwner),
        ("{\"to_owner\":\"2vxsx-fae\"}", ExecuteError::MissingAmount),
        ("{\"to_owner\":\"2vxsx-fae\",\"amount\":1}", ExecuteError::MissingAmount),
        ("{\"to_owner\":\"2vxsx-fae\",\"amount\":\"1.5\"}", ExecuteError::AmountNotNat),
        ("{\"to_owner\":\"2vxsx-fae\",\"amount\":\"_1\"}", ExecuteError::AmountNotNat),
        ("{\"to_owner\":\"2vxsx-fae\",\"amount\":\"++1\"}", ExecuteError::AmountNotNat),
        ("{\"to_owner\":\"2vxsx-fae\",\"amount\":\"\"}", ExecuteError::AmountNotNat),
        ("[]", ExecuteError::MissingToOwner),
    ];
    for (text, error) in cases {
        assert_eq!(build_call(&spec, &JsonValue::parse(text).unwrap()), Err(error));
    }
    let unmapped = parse_tool_spec(&spec_text("\"variant_ok_err\"")).unwrap();
    assert_eq!(build_call(&unmapped, &args), Err(ExecuteError::NotImplemented));
    let mut broken = parse_tool_spec(&spec_text("\"other\"")).unwrap();
    assert!(build_call(&broken, &args).is_ok());
    broken.canister_id = "nope".to_string();
    assert_eq!(build_call(&broken, &args), Err(ExecuteError::BadCanister));
    assert_eq!(ExecuteError::AmountNotNat.message(), "amount not nat");
    assert_eq!(
        ExecuteError::NotImplemented.message(),
        "variant_ok_err mapping not implemented in sample"
    );
    assert_eq!(parse_tool_spec("{\"name\":\"x\"}"), None);
    assert_eq!(parse_tool_spec("nope"), None);
    assert_eq!(parse_tool_spec(&spec_text("3")), None);
    assert_eq!(parse_manifest("[1,{}]").map(|m| m.len()), Some(2));
    assert_eq!(parse_manifest("{}"), None);
}

#[test]
fn registry_of_tools() {
    let mut registry = Registry::new();
    assert_eq!(registry.get_manifest(), "[]");
    assert_eq!(registry.add_tool("nope".to_string()), Err(RegistryError::InvalidJson));
    assert_eq!(registry.add_tool("{\"nam\":1}".to_string()), Err(RegistryError::MissingName));
    assert_eq!(registry.add_tool("{\"name\":1}".to_string()), Err(RegistryError::MissingName));
    registry.add_tool("{\"name\":\"b\",\"description\":\"second\"}".to_string()).unwrap();
    registry
        .add_tool("{\"name\":\"a\",\"args_schema\":{\"x\":\"text\"},\"more\":1}".to_string())
        .unwrap();
    registry.update_tool("{\"name\":\"b\",\"description\":\"newer\"}".to_string()).unwrap();
    assert_eq!(registry.list_tools(), vec!["a".to_string(), "b".to_string()]);
    assert_eq!(registry.len(), 2);
    assert_eq!(
        registry.get_tool("b"),
        Some("{\"name\":\"b\",\"description\":\"newer\"}".to_string())
    );
    assert_eq!(registry.get_tool("c"), None);
    assert_eq!(
        registry.get_manifest(),
        "[{\"args\":{\"x\":\"text\"},\"description\":\"\",\"name\":\"a\"},{\"args\":{},\"description\":\"newer\",\"name\":\"b\"}]"
    );
    assert_eq!(RegistryError::MissingName.message(), "spec must contain string field 'name'");
}

#[test]
fn ledger_of_balances() {
    let treasury = Account { owner: alice(), subaccount: None };
    let savings = Account { owner: alice(), subaccount: Some(vec![1u8; 32]) };
    let other = Account { owner: bob(), subaccount: None };
    let mut ledger = Ledger::init(
        alice(),
        Some(InitArg { mint_to: treasury.clone(), amount: Nat::from_u64(100) }),
    );
    assert_eq!(ledger.icrc1_balance_of(&treasury), Nat::from_u64(100));
    assert_eq!(ledger.icrc1_balance_of(&other), Nat::from_u64(0));
    assert_eq!(
        ledger.mint_to(&bob(), other.clone(), Nat::from_u64(1)),
        Err(LedgerRefusal::NotAdmin)
    );
    assert_eq!(ledger.mint_to(&alice(), savings.clone(), Nat::from_u64(5)), Ok(Nat::from_u64(5)));
    assert_eq!(ledger.mint_to(&alice(), savings.clone(), Nat::from_u64(5)), Ok(Nat::from_u64(10)));

    let transfer = |to: &Account, amount: u64| TransferArgs {
        from_subaccount: None,
        to: to.clone(),
        amount: Nat::from_u64(amount),
        fee: None,
        memo: None,
        created_at_time: None,
    };
    assert_eq!(ledger.icrc1_transfer(&alice(), transfer(&other, 0)), Err(LedgerRefusal::ZeroAmount));
    assert_eq!(
        ledger.icrc1_transfer(&alice(), transfer(&other, 101)),
        Err(LedgerRefusal::InsufficientFunds)
    );
    assert_eq!(
        ledger.icrc1_transfer(&bob(), transfer(&treasury, 1)),
        Err(LedgerRefusal::InsufficientFunds)
    );
    assert_eq!(ledger.icrc1_transfer(&alice(), transfer(&other, 30)), Ok(Nat::from_u64(0)));
    assert_eq!(ledger.icrc1_transfer(&alice(), transfer(&treasury, 70)), Ok(Nat::from_u64(1)));
    assert_eq!(ledger.next_block(), 2);
    assert_eq!(ledger.icrc1_balance_of(&treasury), Nat::from_u64(70));
    assert_eq!(ledger.icrc1_balance_of(&other), Nat::from_u64(30));
    assert_eq!(ledger.icrc1_balance_of(&savings), Nat::from_u64(10));
    assert!(treasury.same_as(&treasury.clone()));
    assert!(!treasury.same_as(&savings));
    assert_eq!(LedgerRefusal::InsufficientFunds.message(), "insufficient funds");
    assert_eq!(LedgerRefusal::ZeroAmount.message(), "amount must be > 0");
    assert_eq!(LedgerRefusal::NotAdmin.message(), "only admin can mint");
    let empty = Ledger::init(bob(), None);
    assert_eq!(empty.icrc1_balance_of(&treasury), Nat::from_u64(0));
}
