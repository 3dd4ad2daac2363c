//! Confirmation by a short secret code.
//!
//! A drafted intent is shown to the user together with a code derived from a
//! secret of the process and the intent's identifier. A later message of the
//! same caller confirms the most recent intent that is still matchable if it
//! contains that code. The agent never calls a collaborator itself: it says
//! which step is due and is told what came of it.

use vstd::prelude::*;
use vstd::utf8::encode_utf8;

use crate::amount::{
    amount_text, is_digit, lemma_decimal_text_digits, lemma_decimal_text_value, opt_nat_view, Nat,
};
use crate::errors::{decimal_text, push_decimal};
use crate::hashing::{base32_encode, base32_text, extend_bytes, sha256, sha256_digest};
use crate::json::{clone_value, JsonModel, JsonValue};
use crate::principal::{principal_decoding, principal_encoding, Principal};
use crate::seqs::{
    first_index, last_index, lemma_first_index, lemma_first_index_is, lemma_last_index,
    lemma_last_index_is,
};
use crate::text::{
    chars_eq, chars_of, contains, contains_text, copy_range, extend_chars, string_of,
    to_ascii_uppercase, trim, trimmed, uppered,
};

verus! {

/// How long a pending intent can be confirmed, in nanoseconds: five minutes.
pub const TTL_NS: u64 = 300_000_000_000;

/// Number of characters of a confirmation code behind its `#`.
pub const CODE_LEN: usize = 4;

/// What the planner proposes: a tool, its arguments and a sentence for the user.
#[derive(Debug, PartialEq, Eq)]
pub struct DraftIntent {
    pub tool_name: String,
    pub args: JsonValue,
    pub natural_summary: String,
}

/// The mathematical content of a [`DraftIntent`].
pub struct DraftView {
    pub tool_name: Seq<char>,
    pub args: JsonModel,
    pub natural_summary: Seq<char>,
}

impl View for DraftIntent {
    type V = DraftView;

    open spec fn view(&self) -> DraftView {
        DraftView {
            tool_name: self.tool_name@,
            args: self.args@,
            natural_summary: self.natural_summary@,
        }
    }
}

/// An intent that waits for its confirmation, or was executed.
#[derive(Debug, PartialEq, Eq)]
pub struct Pending {
    pub owner: Principal,
    pub tool_name: String,
    pub args: JsonValue,
    pub created_ns: u64,
    pub executed: bool,
    pub block_index: Option<Nat>,
    pub code: String,
}

/// A pending intent under its identifier.
struct PendingEntry {
    id: String,
    intent: Pending,
}

/// The mathematical content of a pending intent and its identifier.
pub struct PendingView {
    pub id: Seq<char>,
    pub owner: Seq<u8>,
    pub tool_name: Seq<char>,
    pub args: JsonModel,
    pub created_ns: u64,
    pub executed: bool,
    pub block_index: Option<nat>,
    pub code: Seq<char>,
}

impl PendingEntry {
    spec fn view(&self) -> PendingView {
        PendingView {
            id: self.id@,
            owner: self.intent.owner@,
            tool_name: self.intent.tool_name@,
            args: self.intent.args@,
            created_ns: self.intent.created_ns,
            executed: self.intent.executed,
            block_index: opt_nat_view(self.intent.block_index),
            code: self.intent.code@,
        }
    }
}

/// The mathematical content of the agent's state.
pub struct AgentView {
    /// The intents, oldest first.
    pub pending: Seq<PendingView>,
    /// The secret that the codes are derived from.
    pub secret: Seq<char>,
}

/// No identifier occurs twice.
pub open spec fn unique_ids(pending: Seq<PendingView>) -> bool {
    forall|i: int, j: int|
        0 <= i < pending.len() && 0 <= j < pending.len() && i != j ==> pending[i].id
            != pending[j].id
}

/// The intents with the identifier `id`.
pub open spec fn with_id(id: Seq<char>) -> spec_fn(PendingView) -> bool {
    |p: PendingView| p.id == id
}

/// The intents that a message of `caller` at time `now` can confirm: those of
/// the caller that were not executed and are not older than [`TTL_NS`].
pub open spec fn matchable(caller: Seq<u8>, now: u64) -> spec_fn(PendingView) -> bool {
    |p: PendingView| p.owner == caller && !p.executed && now - p.created_ns <= TTL_NS
}

/// The identifier of the intent drafted at time `now` as number `serial`:
/// `i-`, the time, `-` and the number.
pub open spec fn intent_id_text(now: u64, serial: nat) -> Seq<char> {
    "i-"@ + decimal_text(now as nat) + "-"@ + decimal_text(serial)
}

/// Every intent stands at the place of its number, under the identifier of
/// its time and number.
pub open spec fn numbered(pending: Seq<PendingView>) -> bool {
    forall|i: int|
        0 <= i < pending.len() ==> (#[trigger] pending[i]).id == intent_id_text(
            pending[i].created_ns,
            i as nat,
        )
}

/// Intents with different numbers have different identifiers, whatever their
/// times.
pub proof fn lemma_ids_differ(now1: u64, serial1: nat, now2: u64, serial2: nat)
    requires
        serial1 != serial2,
    ensures
        intent_id_text(now1, serial1) != intent_id_text(now2, serial2),
{
    let t1 = decimal_text(now1 as nat);
    let n1 = decimal_text(serial1);
    let t2 = decimal_text(now2 as nat);
    let n2 = decimal_text(serial2);
    let a = intent_id_text(now1, serial1);
    let b = intent_id_text(now2, serial2);
    reveal_strlit("i-");
    reveal_strlit("-");
    lemma_decimal_text_digits(serial1);
    lemma_decimal_text_digits(serial2);
    lemma_decimal_text_value(serial1);
    lemma_decimal_text_value(serial2);
    assert(a.len() == 2 + t1.len() + 1 + n1.len());
    assert(b.len() == 2 + t2.len() + 1 + n2.len());
    if a == b {
        let len = a.len() as int;
        if n1.len() == n2.len() {
            assert(a.skip(len - n1.len()) =~= n1);
            assert(b.skip(len - n2.len()) =~= n2);
            assert(n1 == n2);
        } else if n1.len() < n2.len() {
            let at = len - n1.len() - 1;
            assert(a[at] == '-');
            assert(b[at] == n2[at - (len - n2.len())]);
            assert(is_digit(n2[at - (len - n2.len())]));
        } else {
            let at = len - n2.len() - 1;
            assert(b[at] == '-');
            assert(a[at] == n1[at - (len - n1.len())]);
            assert(is_digit(n1[at - (len - n1.len())]));
        }
    }
}

/// Numbered intents have identifiers of their own.
pub proof fn lemma_numbered_ids_are_unique(pending: Seq<PendingView>)
    requires
        numbered(pending),
    ensures
        unique_ids(pending),
{
    assert forall|i: int, j: int|
        0 <= i < pending.len() && 0 <= j < pending.len() && i != j implies pending[i].id
        != pending[j].id by {
        lemma_ids_differ(pending[i].created_ns, i as nat, pending[j].created_ns, j as nat);
    }
}

/// The secret of a process started by `caller` at time `now`.
pub open spec fn secret_text(caller: Seq<u8>, now: u64) -> Seq<char> {
    principal_encoding(caller) + "-"@ + decimal_text(now as nat)
}

/// The confirmation code of an intent: `#` and the first [`CODE_LEN`]
/// characters of the base32 text of the SHA-256 digest of the secret followed
/// by the identifier.
pub open spec fn code_text(secret: Seq<char>, intent_id: Seq<char>) -> Seq<char> {
    seq!['#'] + base32_text(sha256_digest(encode_utf8(secret) + encode_utf8(intent_id))).take(
        CODE_LEN as int,
    )
}

/// Whether a message contains a code, without regard to ASCII case.
pub open spec fn code_in_message(msg: Seq<char>, code: Seq<char>) -> bool {
    contains_text(uppered(msg), uppered(code))
}

/// The secret of a process started by `caller` at time `now`.
pub fn init_secret(caller: &Principal, now: u64) -> (s: String)
    ensures
        s@ == secret_text(caller@, now),
{
    let mut out = chars_of(caller.to_text().as_str());
    out.push('-');
    push_decimal(&mut out, now);
    assert(out@ =~= secret_text(caller@, now)) by {
        reveal_strlit("-");
        assert("-"@ =~= seq!['-']);
    }
    string_of(&out)
}

/// The identifier of the intent drafted at time `now` as number `serial`.
pub fn gen_intent_id(now: u64, serial: u64) -> (id: String)
    ensures
        id@ == intent_id_text(now, serial as nat),
{
    let mut out = chars_of("i-");
    push_decimal(&mut out, now);
    out.push('-');
    push_decimal(&mut out, serial);
    assert(out@ =~= intent_id_text(now, serial as nat)) by {
        reveal_strlit("-");
        assert("-"@ =~= seq!['-']);
    }
    string_of(&out)
}

/// The confirmation code of the intent `intent_id` under `secret`.
pub fn confirm_code(secret: &str, intent_id: &str) -> (code: String)
    ensures
        code@ == code_text(secret@, intent_id@),
{
    let mut data: Vec<u8> = Vec::new();
    extend_bytes(&mut data, secret.as_bytes());
    extend_bytes(&mut data, intent_id.as_bytes());
    let digest = sha256(&data);
    let b32 = chars_of(base32_encode(&digest).as_str());
    let mut code: Vec<char> = Vec::new();
    code.push('#');
    extend_chars(&mut code, &copy_range(&b32, 0, CODE_LEN));
    assert(code@ =~= code_text(secret@, intent_id@));
    string_of(&code)
}

/// Whether `msg` contains `code`, without regard to ASCII case.
pub fn msg_contains_code(msg: &str, code: &str) -> (r: bool)
    ensures
        r == code_in_message(msg@, code@),
{
    let m = to_ascii_uppercase(&chars_of(msg));
    let c = to_ascii_uppercase(&chars_of(code));
    contains(&m, &c)
}

/// What is due after a prompt.
#[derive(Debug, PartialEq, Eq)]
pub enum PromptStep {
    /// The turn ends with this text.
    Reply(String),
    /// The prompt confirms the intent `intent_id`: its tool is to be looked
    /// up and called with `args`, and the outcome recorded.
    Execute { intent_id: String, tool_name: String, args: JsonValue },
    /// Nothing is confirmed: the planner is to be asked about `utterance`.
    Plan { utterance: String },
}

/// The mathematical content of a [`PromptStep`].
pub enum PromptStepView {
    Reply(Seq<char>),
    Execute { intent_id: Seq<char>, tool_name: Seq<char>, args: JsonModel },
    Plan { utterance: Seq<char> },
}

impl View for PromptStep {
    type V = PromptStepView;

    open spec fn view(&self) -> PromptStepView {
        match self {
            PromptStep::Reply(text) => PromptStepView::Reply(text@),
            PromptStep::Execute { intent_id, tool_name, args } => PromptStepView::Execute {
                intent_id: intent_id@,
                tool_name: tool_name@,
                args: args@,
            },
            PromptStep::Plan { utterance } => PromptStepView::Plan { utterance: utterance@ },
        }
    }
}

/// What is due after `caller` sends `prompt` at time `now`: with a malformed
/// registry identifier the turn ends; else the most recent matchable intent is
/// executed if the prompt, taken without surrounding whitespace, contains its
/// code; else the planner is asked.
pub open spec fn prompt_step(
    a: AgentView,
    caller: Seq<u8>,
    now: u64,
    registry_id: Seq<char>,
    prompt: Seq<char>,
) -> PromptStepView {
    if principal_decoding(registry_id) is None {
        PromptStepView::Reply("\u{274c} registry id invalid"@)
    } else {
        let utterance = trimmed(prompt);
        let i = last_index(a.pending, matchable(caller, now));
        if i >= 0 && code_in_message(utterance, a.pending[i].code) {
            PromptStepView::Execute {
                intent_id: a.pending[i].id,
                tool_name: a.pending[i].tool_name,
                args: a.pending[i].args,
            }
        } else {
            PromptStepView::Plan { utterance }
        }
    }
}

/// The state after the execution of the intent `intent_id` is recorded with
/// the settlement reference `block_index`.
pub open spec fn with_execution(a: AgentView, intent_id: Seq<char>, block_index: nat) -> AgentView {
    let i = first_index(a.pending, with_id(intent_id));
    if i < a.pending.len() {
        AgentView {
            pending: a.pending.update(
                i,
                PendingView { executed: true, block_index: Some(block_index), ..a.pending[i] },
            ),
            ..a
        }
    } else {
        a
    }
}

/// What recording the outcome of an execution gives: the reply, and the state
/// after it. Only success marks the intent as executed.
pub open spec fn execution_recorded(
    a: AgentView,
    intent_id: Seq<char>,
    outcome: Result<nat, Seq<char>>,
) -> (Seq<char>, AgentView) {
    match outcome {
        Ok(block_index) => (
            "\u{2705} Terkirim. Block index: "@ + amount_text(block_index),
            with_execution(a, intent_id, block_index),
        ),
        Err(reason) => ("\u{274c} Gagal: "@ + reason, a),
    }
}

/// The text that asks for the confirmation of a draft.
pub open spec fn challenge_text(summary: Seq<char>, code: Seq<char>) -> Seq<char> {
    summary + "\n\nBalas apa pun yang mengandung kode ini untuk konfirmasi: **"@ + code
        + "** (5 menit)"@
}

/// What taking up a draft of the planner gives for `caller` at time `now`:
/// the reply, and the state after it. A draft without a tool name is not
/// actionable: its sentence is handed on and nothing is stored. Any other is
/// added behind the intents that are there, under an identifier that none of
/// them has.
pub open spec fn draft_recorded(a: AgentView, caller: Seq<u8>, now: u64, draft: DraftView) -> (
    Seq<char>,
    AgentView,
) {
    if draft.tool_name.len() == 0 {
        (draft.natural_summary, a)
    } else {
        let id = intent_id_text(now, a.pending.len());
        let code = code_text(a.secret, id);
        (
            challenge_text(draft.natural_summary, code),
            AgentView {
                pending: a.pending.push(
                    PendingView {
                        id,
                        owner: caller,
                        tool_name: draft.tool_name,
                        args: draft.args,
                        created_ns: now,
                        executed: false,
                        block_index: None,
                        code,
                    },
                ),
                ..a
            },
        )
    }
}

/// An actionable draft adds one intent: the intents that were there stay as
/// they were, the new one stands behind them, and its identifier is that of
/// none of them.
pub proof fn lemma_draft_adds_an_intent(a: AgentView, caller: Seq<u8>, now: u64, draft: DraftView)
    requires
        numbered(a.pending),
        draft.tool_name.len() > 0,
    ensures
        ({
            let after = draft_recorded(a, caller, now, draft).1.pending;
            &&& after.len() == a.pending.len() + 1
            &&& forall|i: int| 0 <= i < a.pending.len() ==> after[i] == a.pending[i]
            &&& after.last().owner == caller
            &&& !after.last().executed
            &&& forall|i: int|
                0 <= i < a.pending.len() ==> (#[trigger] a.pending[i]).id != after.last().id
            &&& numbered(after)
            &&& unique_ids(after)
        }),
{
    let after = draft_recorded(a, caller, now, draft).1.pending;
    assert forall|i: int| 0 <= i < a.pending.len() implies (#[trigger] a.pending[i]).id
        != after.last().id by {
        lemma_ids_differ(a.pending[i].created_ns, i as nat, now, a.pending.len());
    }
    assert(numbered(after)) by {
        assert forall|i: int| 0 <= i < after.len() implies (#[trigger] after[i]).id
            == intent_id_text(after[i].created_ns, i as nat) by {
            if i < a.pending.len() {
                assert(after[i] == a.pending[i]);
            }
        }
    }
    lemma_numbered_ids_are_unique(after);
}

/// The contents of a list of entries.
spec fn entries_view(entries: Seq<PendingEntry>) -> Seq<PendingView> {
    Seq::new(entries.len(), |i: int| entries[i].view())
}

/// Whether the entry stands under the identifier `key`.
fn has_id(entry: &PendingEntry, key: &Vec<char>) -> (r: bool)
    ensures
        r == (entry.view().id == key@),
{
    chars_eq(&chars_of(entry.id.as_str()), key)
}

/// Pending intents and the secret of the process.
pub struct Agent {
    pending: Vec<PendingEntry>,
    secret: String,
}

impl View for Agent {
    type V = AgentView;

    closed spec fn view(&self) -> AgentView {
        AgentView { pending: entries_view(self.pending@), secret: self.secret@ }
    }
}

impl Agent {
    #[verifier::type_invariant]
    spec fn well_formed(self) -> bool {
        numbered(self@.pending)
    }

    /// An agent without intents, with the given secret.
    pub fn new(secret: String) -> (agent: Agent)
        ensures
            agent@.pending.len() == 0,
            agent@.secret == secret@,
    {
        Agent { pending: Vec::new(), secret }
    }

    /// An agent for a process started by `caller` at time `now`.
    pub fn init(caller: &Principal, now: u64) -> (agent: Agent)
        ensures
            agent@.pending.len() == 0,
            agent@.secret == secret_text(caller@, now),
    {
        Agent::new(init_secret(caller, now))
    }

    /// Number of intents, executed or not; each stands under the identifier
    /// of its time and number, so that no identifier occurs twice among them.
    pub fn pending_count(&self) -> (n: usize)
        ensures
            n == self@.pending.len(),
            numbered(self@.pending),
            unique_ids(self@.pending),
    {
        proof {
            use_type_invariant(self);
            lemma_numbered_ids_are_unique(self@.pending);
        }
        self.pending.len()
    }

    /// Where the most recent intent stands that `caller` can confirm at time
    /// `now`.
    fn candidate(&self, caller: &Principal, now: u64) -> (r: Option<usize>)
        ensures
            match r {
                Some(i) => i == last_index(self@.pending, matchable(caller@, now)) && i
                    < self.pending@.len(),
                None => last_index(self@.pending, matchable(caller@, now)) == -1,
            },
    {
        let ghost view = self@.pending;
        let ghost pred = matchable(caller@, now);
        let mut i: usize = self.pending.len();
        while i > 0
            invariant
                i <= self.pending@.len(),
                view == entries_view(self.pending@),
                pred == matchable(caller@, now),
                forall|j: int| i <= j < self.pending@.len() ==> !pred(#[trigger] view[j]),
            decreases i,
        {
            i -= 1;
            let p = &self.pending[i].intent;
            let fresh = now <= p.created_ns || now - p.created_ns <= TTL_NS;
            if p.owner.same_as(caller) && !p.executed && fresh {
                proof {
                    assert(pred(view[i as int]));
                    lemma_last_index_is(view, pred, i as int);
                }
                return Some(i);
            }
            assert(!pred(view[i as int]));
        }
        proof {
            lemma_last_index_is(view, pred, -1);
        }
        None
    }

    /// Decide what is due after `caller` sends `user_prompt` at time `now`.
    /// The state is not changed.
    pub fn begin_prompt(
        &self,
        caller: &Principal,
        now: u64,
        registry_id: &str,
        user_prompt: &str,
    ) -> (step: PromptStep)
        ensures
            step@ == prompt_step(self@, caller@, now, registry_id@, user_prompt@),
    {
        if Principal::from_text(registry_id).is_none() {
            return PromptStep::Reply("\u{274c} registry id invalid".to_string());
        }
        let utterance = trim(&chars_of(user_prompt));
        let text = string_of(&utterance);
        if let Some(i) = self.candidate(caller, now) {
            let entry = &self.pending[i];
            if msg_contains_code(text.as_str(), entry.intent.code.as_str()) {
                return PromptStep::Execute {
                    intent_id: entry.id.clone(),
                    tool_name: entry.intent.tool_name.clone(),
                    args: clone_value(&entry.intent.args),
                };
            }
        }
        PromptStep::Plan { utterance: text }
    }

    /// Record what came of the execution of the intent `intent_id`, and give
    /// the reply. A failure leaves the intent confirmable.
    pub fn finish_execution(&mut self, intent_id: &str, outcome: Result<Nat, String>) -> (reply:
        String)
        ensures
            (reply@, final(self)@) == execution_recorded(
                old(self)@,
                intent_id@,
                match outcome {
                    Ok(b) => Ok(b@),
                    Err(e) => Err(e@),
                },
            ),
    {
        proof {
            use_type_invariant(&*self);
        }
        match outcome {
            Ok(block) => {
                let mut reply = "\u{2705} Terkirim. Block index: ".to_string();
                reply.append(block.to_text().as_str());
                let key = chars_of(intent_id);
                let ghost view = self@.pending;
                let ghost pred = with_id(intent_id@);
                let mut i: usize = 0;
                while i < self.pending.len() && !has_id(&self.pending[i], &key)
                    invariant
                        i <= self.pending@.len(),
                        key@ == intent_id@,
                        view == entries_view(self.pending@),
                        pred == with_id(intent_id@),
                        self@ == old(self)@,
                        forall|j: int| 0 <= j < i ==> !pred(#[trigger] view[j]),
                    decreases self.pending@.len() - i,
                {
                    assert(!pred(view[i as int]));
                    i += 1;
                }
                proof {
                    if i < self.pending@.len() {
                        assert(pred(view[i as int]));
                    }
                    lemma_first_index_is(view, pred, i as int);
                }
                if i < self.pending.len() {
                    let ghost marked = PendingView {
                        executed: true,
                        block_index: Some(block@),
                        ..view[i as int]
                    };
                    let mut taken = Agent::new(String::new());
                    core::mem::swap(self, &mut taken);
                    let Agent { pending, secret } = taken;
                    let mut pending = pending;
                    let old_entry = pending.remove(i);
                    let entry = PendingEntry {
                        id: old_entry.id,
                        intent: Pending {
                            owner: old_entry.intent.owner,
                            tool_name: old_entry.intent.tool_name,
                            args: old_entry.intent.args,
                            created_ns: old_entry.intent.created_ns,
                            executed: true,
                            block_index: Some(block),
                            code: old_entry.intent.code,
                        },
                    };
                    pending.insert(i, entry);
                    assert(entries_view(pending@) =~= view.update(i as int, marked));
                    proof {
                        let after = view.update(i as int, marked);
                        assert forall|x: int| 0 <= x < after.len() implies (#[trigger] after[x]).id
                            == intent_id_text(after[x].created_ns, x as nat) by {
                            assert(after[x].id == view[x].id);
                            assert(after[x].created_ns == view[x].created_ns);
                        }
                    }
                    *self = Agent { pending, secret };
                }
                reply
            },
            Err(reason) => {
                let mut reply = "\u{274c} Gagal: ".to_string();
                reply.append(reason.as_str());
                reply
            },
        }
    }

    /// Take up what the planner drafted for `caller` at time `now`, and give
    /// the reply: an actionable draft is stored as pending and shown with its
    /// confirmation code.
    pub fn record_draft(&mut self, caller: &Principal, now: u64, draft: DraftIntent) -> (reply:
        String)
        ensures
            (reply@, final(self)@) == draft_recorded(old(self)@, caller@, now, draft@),
    {
        proof {
            use_type_invariant(&*self);
        }
        if draft.tool_name.as_str().unicode_len() == 0 {
            return draft.natural_summary;
        }
        let serial = self.pending.len() as u64;
        let id = gen_intent_id(now, serial);
        let code = confirm_code(self.secret.as_str(), id.as_str());
        let mut reply = chars_of(draft.natural_summary.as_str());
        extend_chars(
            &mut reply,
            &chars_of("\n\nBalas apa pun yang mengandung kode ini untuk konfirmasi: **"),
        );
        extend_chars(&mut reply, &chars_of(code.as_str()));
        extend_chars(&mut reply, &chars_of("** (5 menit)"));
        let ghost view = self@.pending;
        let entry = PendingEntry {
            id,
            intent: Pending {
                owner: caller.clone(),
                tool_name: draft.tool_name,
                args: draft.args,
                created_ns: now,
                executed: false,
                block_index: None,
                code,
            },
        };
        let ghost stored = entry.view();
        let mut taken = Agent::new(String::new());
        core::mem::swap(self, &mut taken);
        let Agent { pending, secret } = taken;
        let mut pending = pending;
        pending.push(entry);
        assert(entries_view(pending@) =~= view.push(stored));
        proof {
            lemma_draft_adds_an_intent(old(self)@, caller@, now, draft@);
        }
        *self = Agent { pending, secret };
        string_of(&reply)
    }
}

/// Only a matchable intent is executed: whatever the prompt says, the intent
/// that is handed out for execution belongs to the caller, was not executed,
/// and is not older than the time to live.
pub proof fn lemma_confirmation_is_scoped(
    a: AgentView,
    caller: Seq<u8>,
    now: u64,
    registry_id: Seq<char>,
    prompt: Seq<char>,
)
    ensures
        prompt_step(a, caller, now, registry_id, prompt) matches PromptStepView::Execute {
            intent_id,
            tool_name,
            args,
        } ==> exists|i: int|
            0 <= i < a.pending.len() && (#[trigger] a.pending[i]).id == intent_id
                && a.pending[i].owner == caller && !a.pending[i].executed && now
                - a.pending[i].created_ns <= TTL_NS && code_in_message(
                trimmed(prompt),
                a.pending[i].code,
            ),
{
    lemma_last_index(a.pending, matchable(caller, now));
    let i = last_index(a.pending, matchable(caller, now));
    if prompt_step(a, caller, now, registry_id, prompt) is Execute {
        assert(matchable(caller, now)(a.pending[i]));
    }
}

/// Once every intent of the caller is older than the time to live, no prompt
/// of the caller is a confirmation, even one that contains the exact code:
/// the planner is asked instead.
pub proof fn lemma_expired_is_not_confirmed(
    a: AgentView,
    caller: Seq<u8>,
    now: u64,
    registry_id: Seq<char>,
    prompt: Seq<char>,
)
    requires
        forall|i: int|
            0 <= i < a.pending.len() && (#[trigger] a.pending[i]).owner == caller ==> now
                - a.pending[i].created_ns > TTL_NS,
    ensures
        !(prompt_step(a, caller, now, registry_id, prompt) is Execute),
{
    lemma_last_index(a.pending, matchable(caller, now));
    let i = last_index(a.pending, matchable(caller, now));
    if i >= 0 {
        assert(matchable(caller, now)(a.pending[i]));
    }
}

/// An intent is executed at most once: after its execution is recorded, no
/// prompt hands it out for execution again.
pub proof fn lemma_executed_is_not_confirmed(
    a: AgentView,
    intent_id: Seq<char>,
    block_index: nat,
    caller: Seq<u8>,
    now: u64,
    registry_id: Seq<char>,
    prompt: Seq<char>,
)
    requires
        unique_ids(a.pending),
    ensures
        prompt_step(
            with_execution(a, intent_id, block_index),
            caller,
            now,
            registry_id,
            prompt,
        ) matches PromptStepView::Execute { intent_id: again, tool_name, args } ==> again
            != intent_id,
{
    let after = with_execution(a, intent_id, block_index);
    lemma_first_index(a.pending, with_id(intent_id));
    lemma_last_index(after.pending, matchable(caller, now));
    let k = first_index(a.pending, with_id(intent_id));
    let i = last_index(after.pending, matchable(caller, now));
    if prompt_step(after, caller, now, registry_id, prompt) is Execute {
        assert(matchable(caller, now)(after.pending[i]));
        if after.pending[i].id == intent_id {
            if k < a.pending.len() {
                assert(with_id(intent_id)(a.pending[k]));
                if i != k {
                    assert(after.pending[i] == a.pending[i]);
                    assert(a.pending[i].id != a.pending[k].id);
                }
            } else {
                assert(after.pending[i] == a.pending[i]);
                assert(!with_id(intent_id)(a.pending[i]));
            }
        }
    }
}

} // verus!
