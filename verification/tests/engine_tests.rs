use intent_engine::accounts::{list_accounts, resolve_to, save_account, AccountBook, SaveError};
use intent_engine::amount::Nat;
use intent_engine::engine::{Engine, ExecRefusal, IntentStatus, PlanRefusal};
use intent_engine::errors::InvalidInput;
use intent_engine::plan::{draft_plan, is_placeholder, plan_checksum, Memo, PlanArgs, TransferPlan};
use intent_engine::principal::Principal;
use intent_engine::tokens::{resolve_token, resolve_token_in, tokens, TokenEntry};

fn alice() -> Principal {
    Principal::from_slice(&[1, 2, 3]).unwrap()
}

fn bob() -> Principal {
    Principal::from_slice(&[9, 9]).unwrap()
}

fn args(to: &str, amount: &str) -> PlanArgs {
    PlanArgs {
        to: to.to_string(),
        amount_dec: amount.to_string(),
        symbol: None,
        ledger: None,
        decimals: None,
        memo: None,
    }
}

fn engine_with_alias() -> Engine {
    let mut engine = Engine::new();
    engine.save_account("alice".to_string(), Principal::anonymous().to_text(), None).unwrap();
    engine
}

#[test]
fn principal_text_forms() {
    assert_eq!(Principal::anonymous().to_text(), "2vxsx-fae");
    assert_eq!(Principal::management_canister().to_text(), "aaaaa-aa");
    assert_eq!(Principal::from_text("2vxsx-fae"), Some(Principal::anonymous()));
    assert_eq!(Principal::from_text("aaaaa-aa"), Some(Principal::management_canister()));
    assert_eq!(Principal::from_text("not-a-principal"), None);
    assert_eq!(Principal::from_text(""), None);
    assert_eq!(Principal::anonymous().as_slice(), &vec![4u8]);
    assert!(Principal::from_slice(&[0u8; 29]).is_some());
    assert!(Principal::from_slice(&[0u8; 30]).is_none());
    assert!(alice().same_as(&alice()));
    assert!(!alice().same_as(&bob()));
}

#[test]
fn sample_checksum_has_the_expected_digits() {
    let plan = TransferPlan {
        from_owner: Some(Principal::anonymous()),
        from_sub: None,
        to_principal: Principal::anonymous(),
        to_sub: None,
        amount: Nat::from_u64(10),
        symbol: "CFXN".to_string(),
        ledger: Principal::management_canister(),
        memo: None,
        created_at_time: 1,
        human_readable: "Send".into(),
        checksum: String::new(),
    };
    assert_eq!(plan_checksum(&plan), "cd474ce55ab1f890");
}

#[test]
fn checksum_ignores_summary_and_carried_checksum() {
    let mut a = draft_plan(
        &Principal::anonymous(),
        42,
        Principal::from_text("mxzaz-hqaaa-aaaar-qaada-cai").unwrap(),
        "CFXN".to_string(),
        Nat::from_u64(10),
        Principal::anonymous(),
        None,
        None,
    );
    assert_eq!(a.checksum, "dda855c86695758f");
    let before = plan_checksum(&a);
    a.human_readable = "something else".to_string();
    a.checksum = "ffff".to_string();
    assert_eq!(plan_checksum(&a), before);
    a.created_at_time = 43;
    assert_ne!(plan_checksum(&a), before);
}

#[test]
fn draft_carries_summary_and_memo() {
    let plan = draft_plan(
        &Principal::anonymous(),
        42,
        Principal::from_text("mxzaz-hqaaa-aaaar-qaada-cai").unwrap(),
        "CFXN".to_string(),
        Nat::from_u64(1000),
        Principal::anonymous(),
        None,
        Some("hi".to_string()),
    );
    assert_eq!(
        plan.human_readable,
        "Send 1_000 CFXN to 2vxsx-fae (ledger=mxzaz-hqaaa-aaaar-qaada-cai)."
    );
    assert_eq!(plan.memo, Some(Memo(b"hi|caller:2vxsx-fae".to_vec())));
    assert_eq!(plan.from_owner, Some(Principal::anonymous()));
    assert_eq!(plan.checksum, "248af10a0438c8ae");
}

#[test]
fn placeholders() {
    assert!(is_placeholder(""));
    assert!(is_placeholder("   "));
    assert!(is_placeholder(" TBD "));
    assert!(is_placeholder("N/A"));
    assert!(is_placeholder("-"));
    assert!(is_placeholder("null"));
    assert!(is_placeholder("Unknown"));
    assert!(!is_placeholder("alice"));
    assert!(!is_placeholder("--"));
}

#[test]
fn token_resolution_precedence() {
    let (p, d, s) = resolve_token(Some("nonsense"), Some("umunu-kh777-77774-qaaca-cai")).unwrap();
    assert_eq!((d, s.as_str()), (0, "CFX"));
    assert_eq!(p.to_text(), "umunu-kh777-77774-qaaca-cai");
    let (_, d, s) = resolve_token(Some("cfx"), None).unwrap();
    assert_eq!((d, s.as_str()), (0, "CFX"));
    let (_, d, s) = resolve_token(None, None).unwrap();
    assert_eq!((d, s.as_str()), (0, "CFX"));
    assert_eq!(resolve_token(Some("DOGE"), None), Err(InvalidInput::UnknownAsset));
    assert_eq!(resolve_token(Some("CFX"), Some("aaaaa-aa")), Err(InvalidInput::UnknownAsset));
    assert_eq!(resolve_token(Some("ICP"), None), Err(InvalidInput::InvalidLedgerId));
}

#[test]
fn token_resolution_in_a_table() {
    let table = vec![
        TokenEntry { symbol: "AAA", ledger: "aaaaa-aa", decimals: 2 },
        TokenEntry { symbol: "BBB", ledger: "2vxsx-fae", decimals: 6 },
    ];
    let (p, d, s) = resolve_token_in(&table, 0, None, None).unwrap();
    assert_eq!((p, d, s.as_str()), (Principal::management_canister(), 2, "AAA"));
    let (p, d, s) = resolve_token_in(&table, 0, Some("bbb"), None).unwrap();
    assert_eq!((p, d, s.as_str()), (Principal::anonymous(), 6, "BBB"));
    assert_eq!(tokens().len(), 2);
}

#[test]
fn alias_book_last_write_wins() {
    let mut book = AccountBook::new();
    save_account(&mut book, "b".into(), "aaaaa-aa".into(), Some(vec![7u8; 32])).unwrap();
    save_account(&mut book, "a".into(), "2vxsx-fae".into(), None).unwrap();
    save_account(&mut book, "a".into(), "aaaaa-aa".into(), None).unwrap();
    assert_eq!(book.len(), 2);
    let (p, sub) = resolve_to(&book, "a").unwrap();
    assert_eq!(p, Principal::management_canister());
    assert_eq!(sub, None);
    let (_, sub) = resolve_to(&book, "b").unwrap();
    assert_eq!(sub, Some([7u8; 32]));
    assert_eq!(resolve_to(&book, "c"), Err(InvalidInput::UnknownRecipient));
    let listed = list_accounts(&book);
    assert_eq!(listed.len(), 2);
    assert_eq!(listed[0].alias, "a");
    assert_eq!(listed[1].alias, "b");
    save_account(&mut book, "Zed".into(), "aaaaa-aa".into(), None).unwrap();
    save_account(&mut book, "ab".into(), "aaaaa-aa".into(), None).unwrap();
    save_account(&mut book, "\u{e9}".into(), "aaaaa-aa".into(), None).unwrap();
    let aliases: Vec<String> = list_accounts(&book).into_iter().map(|a| a.alias).collect();
    assert_eq!(aliases, vec!["Zed", "a", "ab", "b", "\u{e9}"]);
    let (p, _) = resolve_to(&book, "ab").unwrap();
    assert_eq!(p, Principal::management_canister());
    assert_eq!(resolve_to(&book, "aa"), Err(InvalidInput::UnknownRecipient));
    assert_eq!(
        save_account(&mut book, "d".into(), "2vxsx-fae".into(), Some(vec![1u8; 31])),
        Err(SaveError::InvalidSubaccount)
    );
    assert_eq!(SaveError::InvalidSubaccount.message(), "sub must be 32 bytes");
    assert_eq!(book.len(), 5);
}

#[test]
fn planning_refusals_store_nothing() {
    let mut engine = engine_with_alias();
    assert_eq!(engine.plan_transfer(&alice(), 1, &args("?", "10")), Err(PlanRefusal::NeedRecipient));
    assert_eq!(engine.plan_transfer(&alice(), 1, &args("alice", " ")), Err(PlanRefusal::NeedAmount));
    let mut doge = args("alice", "10");
    doge.symbol = Some("DOGE".to_string());
    assert_eq!(
        engine.plan_transfer(&alice(), 1, &doge),
        Err(PlanRefusal::BadToken { error: InvalidInput::UnknownAsset })
    );
    assert_eq!(
        engine.plan_transfer(&alice(), 1, &args("alice", "1.5")),
        Err(PlanRefusal::BadAmount { error: InvalidInput::TooManyDecimals { max: 0 }, decimals: 0 })
    );
    assert_eq!(
        engine.plan_transfer(&alice(), 1, &args("nobody", "10")),
        Err(PlanRefusal::BadRecipient { error: InvalidInput::UnknownRecipient })
    );
    assert_eq!(engine.pending_count(), 0);
    assert_eq!(engine.select_plan(&alice(), None, None), None);
}

#[test]
fn a_confirmed_plan_is_executed_at_most_once() {
    let mut engine = engine_with_alias();
    let mut wanted = args("alice", "10");
    wanted.symbol = Some("cfx".to_string());
    let plan = engine.plan_transfer(&alice(), 7, &wanted).unwrap();
    assert!(plan.human_readable.starts_with("Send 10 CFX to "));
    assert_eq!(plan.symbol, "CFX");
    assert_eq!(engine.pending_count(), 1);
    assert_eq!(engine.status(&plan), IntentStatus::Pending);

    let selected = engine.select_plan(&alice(), None, None).unwrap();
    assert_eq!(selected, plan);
    let request = engine.begin_execution(&selected).unwrap();
    assert_eq!(request.from.owner, alice());
    assert_eq!(request.to.owner, Principal::anonymous());
    assert_eq!(request.amount, Nat::from_u64(10));
    assert_eq!(request.created_at_time, Some(7));
    assert_eq!(request.fee, None);
    assert_eq!(request.ledger.to_text(), "umunu-kh777-77774-qaaca-cai");

    // A failed call leaves the plan confirmable.
    engine.finish_execution(&selected, None);
    assert_eq!(engine.settlement(&plan), None);
    assert_eq!(engine.status(&plan), IntentStatus::Pending);
    assert!(engine.begin_execution(&selected).is_ok());

    engine.finish_execution(&selected, Some(Nat::from_u64(77)));
    assert_eq!(engine.settlement(&plan), Some(Nat::from_u64(77)));
    engine.finish_execution(&selected, Some(Nat::from_u64(78)));
    assert_eq!(engine.settlement(&plan), Some(Nat::from_u64(77)));
    assert_eq!(engine.status(&plan), IntentStatus::Executed);
    assert_eq!(engine.begin_execution(&selected), Err(ExecRefusal::DuplicateExecution));
    let again = engine.select_plan(&alice(), Some(plan.clone()), None).unwrap();
    assert_eq!(engine.begin_execution(&again), Err(ExecRefusal::DuplicateExecution));
}

#[test]
fn a_plan_is_confirmed_only_by_its_owner() {
    let mut engine = engine_with_alias();
    let plan = engine.plan_transfer(&alice(), 7, &args("alice", "10")).unwrap();
    assert_eq!(engine.select_plan(&bob(), None, None), None);
    assert_eq!(engine.select_plan(&bob(), None, Some(plan.checksum.as_str())), None);
    assert_eq!(engine.select_plan(&bob(), Some(plan.clone()), None), None);
    assert_eq!(engine.select_plan(&alice(), None, Some(plan.checksum.as_str())), Some(plan.clone()));
    assert_eq!(engine.select_plan(&alice(), None, Some("0000000000000000")), None);
    assert_eq!(engine.select_plan(&alice(), Some(plan.clone()), None), Some(plan.clone()));
}

#[test]
fn the_most_recent_plan_of_an_owner_is_selected() {
    let mut engine = engine_with_alias();
    let first = engine.plan_transfer(&alice(), 7, &args("alice", "10")).unwrap();
    let other = engine.plan_transfer(&bob(), 8, &args("alice", "3")).unwrap();
    let second = engine.plan_transfer(&alice(), 9, &args("alice", "20")).unwrap();
    assert_eq!(engine.pending_count(), 3);
    assert_eq!(engine.select_plan(&alice(), None, None), Some(second));
    assert_eq!(engine.select_plan(&bob(), None, None), Some(other));
    assert_eq!(engine.select_plan(&alice(), None, Some(first.checksum.as_str())), Some(first));
}

#[test]
fn a_plan_without_owner_is_not_executed() {
    let engine = Engine::new();
    let plan = TransferPlan {
        from_owner: None,
        from_sub: None,
        to_principal: Principal::anonymous(),
        to_sub: None,
        amount: Nat::from_u64(1),
        symbol: "CFXN".to_string(),
        ledger: Principal::management_canister(),
        memo: None,
        created_at_time: 1,
        human_readable: String::new(),
        checksum: "abc".to_string(),
    };
    assert_eq!(engine.begin_execution(&plan), Err(ExecRefusal::MissingOwner));
}
