//! One user turn: the reply language, the bounded context window and the
//! bounded number of planner round-trips.

use vstd::prelude::*;

use crate::chat::{calls_view, messages_view, AssistantMessage, ChatMessage, MessageView, ToolCall, ToolCallView};
use crate::seqs::{last_index, lemma_last_index_is};
use crate::text::{chars_of, contains, contains_text, lowered, str_is, to_ascii_lowercase};

verus! {

/// Maximum number of messages kept in conversation (including system message).
pub const MAX_MESSAGES: usize = 10;

/// Maximum number of rounds of tool calls in one turn.
pub const MAX_ROUNDS: usize = 6;

/// The instruction that leads every conversation.
pub const SYSTEM_PROMPT: &'static str =
    "\nYou are a finance copilot for ICRC tokens on the Internet Computer.\n\nLANGUAGE\n- Reply ONLY in the user's last language (Indonesian or English). Do not mix languages or add translations.\n\nSTYLE\n- Be brief (1\u{2013}2 sentences per step).\n\nSCOPE & DEFAULTS\n- Backend decides ledger/decimals/fees from an allowlist. Never ask the user for a ledger ID.\n- If token symbol is missing, ask once; otherwise proceed. Memo is optional.\n\nSLOT FILLING\n- Required: recipient (principal/alias) and amount (decimal string). Memo optional.\n- If a required field is missing, ask EXACTLY ONE short question. Do NOT call tools yet.\n- No placeholders: \"\", \"-\", \"unknown\", \"tbd\", \"null\", \"?\".\n\nAMOUNT\n- Accept inputs like \u{201c}10 CFXN\u{201d} or \u{201c}0.5 ICP\u{201d} and extract the number as amount_dec.\n- If a tool returns BadAmount with an example, use that example next time.\n\nTOOL CALLING (STRICT)\n- Never narrate tool calls or print example JSON. When ready, CALL the tool via tool_calls.\n- Call plan_transfer once recipient & amount are known. Params: to, amount_dec, memo (optional). symbol/ledger/decimals optional (backend overrides).\n- After plan_transfer: show one-line summary (human_readable) and ask explicit confirmation (\u{201c}confirm\u{201d} / \u{201c}lanjut\u{201d} / \u{201c}ya\u{201d}).\n- On confirmation: CALL confirm_transfer. If plan object is missing, you may call with only checksum OR with no parameters; backend uses the last plan.\n\nERROR HANDLING\n- If tool returns {\"status\":\"err\",...}:\n  1) Ask ONE short question to fix that field in the user's language.\n  2) Show \"options\" briefly if provided.\n  3) Show ONE \"example\" if provided.\n  4) Do NOT call tools again until the field is provided.\n\nHYGIENE\n- Do not re-ask fields already provided unless a tool says they are invalid/missing.\n";

/// The window of at most `max` messages that is kept of a conversation: all
/// of it up to `max`; of a longer one the first message and the most recent
/// `max - 1`.
pub open spec fn window<T>(s: Seq<T>, max: int) -> Seq<T> {
    if s.len() <= max {
        s
    } else {
        seq![s[0]] + s.skip(s.len() - (max - 1))
    }
}

/// The window that is kept of a conversation: all of it up to
/// [`MAX_MESSAGES`]; of a longer one the first message and the most recent
/// `MAX_MESSAGES - 1`.
pub open spec fn capped<T>(s: Seq<T>) -> Seq<T> {
    window(s, MAX_MESSAGES as int)
}

/// Trim the conversation to its first message and the most recent `max - 1`.
fn cap_to(convo: &mut Vec<ChatMessage>, max: usize)
    requires
        max >= 1,
    ensures
        final(convo)@ == window(old(convo)@, max as int),
        messages_view(final(convo)@) == window(messages_view(old(convo)@), max as int),
{
    let n = convo.len();
    if n <= max {
        return ;
    }
    let mut keep = convo.split_off(n - (max - 1));
    convo.truncate(1);
    convo.append(&mut keep);
    assert(convo@ =~= window(old(convo)@, max as int));
    assert(messages_view(convo@) =~= window(messages_view(old(convo)@), max as int));
}

/// Trim the conversation to the most recent [`MAX_MESSAGES`] messages in place.
pub fn cap_messages_in_place(convo: &mut Vec<ChatMessage>)
    ensures
        final(convo)@ == capped(old(convo)@),
{
    cap_to(convo, MAX_MESSAGES);
}

/// A window is never longer than its bound; the leading message stays first;
/// and the rest of the window is the end of the conversation, so that what is
/// dropped is older than everything that is kept but the leading message.
pub proof fn lemma_window<T>(s: Seq<T>, max: int)
    requires
        max >= 1,
    ensures
        window(s, max).len() <= max,
        window(s, max).len() <= s.len(),
        s.len() > 0 ==> window(s, max).len() > 0 && window(s, max)[0] == s[0],
        forall|k: int|
            1 <= k < window(s, max).len() ==> window(s, max)[k] == s[s.len() - window(
                s,
                max,
            ).len() + k],
{
}

/// The kept window is never longer than [`MAX_MESSAGES`]; the leading message
/// stays first; and the rest of the window is the end of the conversation.
pub proof fn lemma_capped<T>(s: Seq<T>)
    ensures
        capped(s).len() <= MAX_MESSAGES,
        capped(s).len() <= s.len(),
        s.len() > 0 ==> capped(s)[0] == s[0],
        forall|k: int|
            1 <= k < capped(s).len() ==> capped(s)[k] == s[s.len() - capped(s).len() + k],
{
}

/// The language that a user message asks for: English if it says `english`,
/// else Indonesian if it says `indonesia` or one of `yang`, `kamu`, `sudah`,
/// else English; all without regard to ASCII case.
pub open spec fn language_of(content: Seq<char>) -> Seq<char> {
    let lc = lowered(content);
    if contains_text(lc, "english"@) {
        "en"@
    } else if contains_text(lc, "indonesia"@) || contains_text(lc, "yang"@) || contains_text(
        lc,
        "kamu"@,
    ) || contains_text(lc, "sudah"@) {
        "id"@
    } else {
        "en"@
    }
}

/// The messages of the user.
pub open spec fn from_user() -> spec_fn(MessageView) -> bool {
    |m: MessageView| m is User
}

/// The reply language of a conversation: that of its most recent user
/// message; English where the user has said nothing.
pub open spec fn detected_language(messages: Seq<MessageView>) -> Seq<char> {
    let i = last_index(messages, from_user());
    if i < 0 {
        "en"@
    } else {
        language_of(messages[i]->User_content)
    }
}

/// The language that a user message asks for.
fn language_for(content: &str) -> (lang: &'static str)
    ensures
        lang@ == language_of(content@),
{
    let lc = to_ascii_lowercase(&chars_of(content));
    if contains(&lc, &chars_of("english")) {
        "en"
    } else if contains(&lc, &chars_of("indonesia")) || contains(&lc, &chars_of("yang"))
        || contains(&lc, &chars_of("kamu")) || contains(&lc, &chars_of("sudah")) {
        "id"
    } else {
        "en"
    }
}

/// Heuristic to detect the language of the last user message.
pub fn detect_lang_last_user(msgs: &Vec<ChatMessage>) -> (lang: &'static str)
    ensures
        lang@ == detected_language(messages_view(msgs@)),
{
    let ghost view = messages_view(msgs@);
    let ghost pred = from_user();
    let mut i: usize = msgs.len();
    while i > 0
        invariant
            i <= msgs@.len(),
            view == messages_view(msgs@),
            pred == from_user(),
            forall|j: int| i <= j < msgs@.len() ==> !pred(#[trigger] view[j]),
        decreases i,
    {
        i -= 1;
        match &msgs[i] {
            ChatMessage::User { content } => {
                proof {
                    assert(pred(view[i as int]));
                    lemma_last_index_is(view, pred, i as int);
                }
                return language_for(content.as_str());
            },
            _ => {
                assert(!pred(view[i as int]));
            },
        }
    }
    proof {
        lemma_last_index_is(view, pred, -1);
    }
    "en"
}

/// The instruction that pins the reply language.
pub open spec fn guard_text(lang: Seq<char>) -> Seq<char> {
    if lang == "id"@ {
        "BAHASA: Jawab dalam BAHASA INDONESIA saja. Jangan campur Inggris."@
    } else {
        "LANGUAGE: Answer in ENGLISH only. Do not mix Indonesian."@
    }
}

/// Construct a language guard system message for the given language code.
pub fn lang_guard(lang: &str) -> (m: ChatMessage)
    ensures
        m@ == (MessageView::System { content: guard_text(lang@) }),
{
    let s = if str_is(lang, "id") {
        "BAHASA: Jawab dalam BAHASA INDONESIA saja. Jangan campur Inggris."
    } else {
        "LANGUAGE: Answer in ENGLISH only. Do not mix Indonesian."
    };
    ChatMessage::System { content: s.to_string() }
}

/// The message that pins the reply language to `lang`.
pub open spec fn pin_for(lang: Seq<char>) -> MessageView {
    MessageView::System { content: guard_text(lang) }
}

/// Whether a message is one of the two pins of the reply language.
pub open spec fn is_pin(m: MessageView) -> bool {
    m is System && (m->System_content
        == "BAHASA: Jawab dalam BAHASA INDONESIA saja. Jangan campur Inggris."@
        || m->System_content == "LANGUAGE: Answer in ENGLISH only. Do not mix Indonesian."@)
}

/// The conversation without the pin that an earlier round has put behind its
/// leading message.
pub open spec fn unpinned(s: Seq<MessageView>) -> Seq<MessageView> {
    if s.len() >= 2 && is_pin(s[1]) {
        s.remove(1)
    } else {
        s
    }
}

/// The conversation with `guard` right behind its leading message.
pub open spec fn guarded(s: Seq<MessageView>, guard: MessageView) -> Seq<MessageView> {
    if s.len() >= 1 {
        s.insert(1, guard)
    } else {
        s.push(guard)
    }
}

/// The conversation as it is sent to the planner: the window is cut so that
/// one place is left, and the pin for the conversation's reply language is
/// put behind the leading message.
pub open spec fn prepared(s: Seq<MessageView>) -> Seq<MessageView> {
    guarded(window(s, MAX_MESSAGES - 1), pin_for(detected_language(s)))
}

/// What is sent to the planner holds at most [`MAX_MESSAGES`] messages; it
/// starts with the leading message of the conversation; the pin for the
/// conversation's reply language follows; and the rest is the end of the
/// conversation.
pub proof fn lemma_prepared(s: Seq<MessageView>)
    requires
        s.len() > 0,
    ensures
        2 <= prepared(s).len() <= MAX_MESSAGES,
        prepared(s).len() <= s.len() + 1,
        prepared(s)[0] == s[0],
        prepared(s)[1] == pin_for(detected_language(s)),
        forall|k: int|
            2 <= k < prepared(s).len() ==> prepared(s)[k] == s[s.len() - prepared(s).len() + k],
{
    lemma_window(s, MAX_MESSAGES - 1);
}

/// The pin of the turn that a conversation is in: the pin that stands behind
/// its leading message, or, where none stands there, the pin for its reply
/// language.
pub open spec fn turn_pin(s: Seq<MessageView>) -> MessageView {
    if s.len() >= 2 && is_pin(s[1]) {
        s[1]
    } else {
        pin_for(detected_language(s))
    }
}

/// The conversation as it is sent to the planner after a round of tool calls:
/// the results are appended, the window is cut so that one place is left, and
/// the pin of the turn is put back behind the leading message.
pub open spec fn continued(s: Seq<MessageView>, results: Seq<MessageView>) -> Seq<MessageView> {
    guarded(window(unpinned(s) + results, MAX_MESSAGES - 1), turn_pin(s))
}

/// What is sent to the planner after a round of tool calls holds at most
/// [`MAX_MESSAGES`] messages; it starts with the leading message of the
/// conversation; the pin of the turn follows, so that the reply language of
/// a turn stays what it was; and the last of the results comes last.
pub proof fn lemma_continued(s: Seq<MessageView>, results: Seq<MessageView>)
    requires
        s.len() >= 2,
        is_pin(s[1]),
    ensures
        2 <= continued(s, results).len() <= MAX_MESSAGES,
        continued(s, results)[0] == s[0],
        continued(s, results)[1] == s[1],
        results.len() > 0 ==> continued(s, results).last() == results.last(),
{
    lemma_window(unpinned(s) + results, MAX_MESSAGES - 1);
}

/// Take out the pin of an earlier round, if one stands behind the leading
/// message, and hand it out.
fn take_pin(convo: &mut Vec<ChatMessage>) -> (pin: Option<ChatMessage>)
    ensures
        messages_view(final(convo)@) == unpinned(messages_view(old(convo)@)),
        match pin {
            Some(m) => m@ == turn_pin(messages_view(old(convo)@)) && old(convo)@.len() >= 2
                && is_pin(messages_view(old(convo)@)[1]),
            None => !(old(convo)@.len() >= 2 && is_pin(messages_view(old(convo)@)[1])),
        },
{
    if convo.len() >= 2 {
        let pinned = match &convo[1] {
            ChatMessage::System { content } => str_is(
                content.as_str(),
                "BAHASA: Jawab dalam BAHASA INDONESIA saja. Jangan campur Inggris.",
            ) || str_is(
                content.as_str(),
                "LANGUAGE: Answer in ENGLISH only. Do not mix Indonesian.",
            ),
            _ => false,
        };
        assert(pinned == is_pin(messages_view(convo@)[1]));
        if pinned {
            let ghost before = messages_view(convo@);
            let pin = convo.remove(1);
            assert(messages_view(convo@) =~= before.remove(1));
            return Some(pin);
        }
    }
    None
}

/// Cut the window so that one place is left, and put `guard` behind the
/// leading message.
fn pin_window(convo: &mut Vec<ChatMessage>, guard: ChatMessage)
    ensures
        messages_view(final(convo)@) == guarded(
            window(messages_view(old(convo)@), MAX_MESSAGES - 1),
            guard@,
        ),
{
    cap_to(convo, MAX_MESSAGES - 1);
    let ghost cut = messages_view(convo@);
    if convo.len() >= 1 {
        convo.insert(1, guard);
    } else {
        convo.push(guard);
    }
    assert(messages_view(convo@) =~= guarded(cut, guard@));
}

/// Cut the window and pin the reply language of the conversation.
pub fn prepare_round(convo: &mut Vec<ChatMessage>)
    ensures
        messages_view(final(convo)@) == prepared(messages_view(old(convo)@)),
{
    let lang = detect_lang_last_user(convo);
    pin_window(convo, lang_guard(lang));
}

/// The conversation that opens a turn: the system instruction, then the
/// messages so far.
pub open spec fn opened(messages: Seq<MessageView>, prompt: Seq<char>) -> Seq<MessageView> {
    seq![MessageView::System { content: prompt }] + messages
}

/// Open a turn: put the system instruction in front of the messages so far,
/// cut the window and pin the reply language. What comes out holds at most
/// [`MAX_MESSAGES`] messages: the instruction, the pin, and the end of the
/// messages so far.
pub fn start_turn(messages: Vec<ChatMessage>) -> (convo: Vec<ChatMessage>)
    ensures
        messages_view(convo@) == prepared(opened(messages_view(messages@), SYSTEM_PROMPT@)),
        2 <= convo@.len() <= MAX_MESSAGES,
        convo@[0]@ == (MessageView::System { content: SYSTEM_PROMPT@ }),
        convo@[1]@ == pin_for(
            detected_language(opened(messages_view(messages@), SYSTEM_PROMPT@)),
        ),
        is_pin(convo@[1]@),
{
    let mut messages = messages;
    let ghost given = messages_view(messages@);
    let mut convo: Vec<ChatMessage> = Vec::new();
    convo.push(ChatMessage::System { content: SYSTEM_PROMPT.to_string() });
    convo.append(&mut messages);
    assert(messages_view(convo@) =~= opened(given, SYSTEM_PROMPT@));
    let ghost start = messages_view(convo@);
    prepare_round(&mut convo);
    proof {
        lemma_prepared(start);
        assert(messages_view(convo@).len() == convo@.len());
        assert(convo@[0]@ == messages_view(convo@)[0]);
        assert(convo@[1]@ == messages_view(convo@)[1]);
    }
    convo
}

/// What the controller does with an answer of the planner.
#[derive(Debug, PartialEq, Eq)]
pub enum ChatAction {
    /// The turn ends with this text.
    Reply(String),
    /// These tools are to be called; then the planner is asked again.
    CallTools(Vec<ToolCall>),
}

/// The mathematical content of a [`ChatAction`].
pub enum ActionView {
    Reply(Seq<char>),
    CallTools(Seq<ToolCallView>),
}

impl View for ChatAction {
    type V = ActionView;

    open spec fn view(&self) -> ActionView {
        match self {
            ChatAction::Reply(text) => ActionView::Reply(text@),
            ChatAction::CallTools(calls) => ActionView::CallTools(calls_view(calls@)),
        }
    }
}

/// What follows an answer of the planner after `rounds` rounds of tool calls:
/// its tool calls are made while fewer than [`MAX_ROUNDS`] rounds were made
/// and it asks for any; else the turn ends with its text, or with the empty
/// text if it has none.
pub open spec fn decided(
    rounds: usize,
    content: Option<Seq<char>>,
    calls: Seq<ToolCallView>,
) -> ActionView {
    if rounds < MAX_ROUNDS && calls.len() > 0 {
        ActionView::CallTools(calls)
    } else {
        ActionView::Reply(
            match content {
                Some(c) => c,
                None => Seq::empty(),
            },
        )
    }
}

/// Decide what follows an answer of the planner.
pub fn next_action(rounds: usize, response: AssistantMessage) -> (action: ChatAction)
    ensures
        action@ == decided(
            rounds,
            match response.content {
                Some(c) => Some(c@),
                None => None,
            },
            calls_view(response.tool_calls@),
        ),
{
    if rounds < MAX_ROUNDS && response.tool_calls.len() > 0 {
        ChatAction::CallTools(response.tool_calls)
    } else {
        ChatAction::Reply(
            match response.content {
                Some(c) => c,
                None => String::new(),
            },
        )
    }
}

/// However the planner answers, no tools are called once [`MAX_ROUNDS`]
/// rounds were made.
pub proof fn lemma_rounds_are_bounded(
    rounds: usize,
    content: Option<Seq<char>>,
    calls: Seq<ToolCallView>,
)
    requires
        rounds >= MAX_ROUNDS,
    ensures
        decided(rounds, content, calls) is Reply,
{
}

/// The result of a tool call, tagged with the call's identifier.
#[derive(Debug, PartialEq, Eq)]
pub struct ToolResult {
    pub tool_call_id: String,
    pub content: String,
}

/// The messages that report results, in order.
pub open spec fn result_messages(results: Seq<ToolResult>) -> Seq<MessageView> {
    Seq::new(
        results.len(),
        |i: int|
            MessageView::Tool {
                content: results[i].content@,
                tool_call_id: results[i].tool_call_id@,
            },
    )
}

/// Take up the results of a round of tool calls: each result is appended as a
/// message tagged with its call's identifier; then the window is cut, and the
/// pin of the turn stays behind the leading message.
pub fn absorb_results(convo: &mut Vec<ChatMessage>, results: Vec<ToolResult>)
    ensures
        messages_view(final(convo)@) == continued(
            messages_view(old(convo)@),
            result_messages(results@),
        ),
{
    let guard = match take_pin(convo) {
        Some(pin) => pin,
        None => lang_guard(detect_lang_last_user(convo)),
    };
    assert(guard@ == turn_pin(messages_view(old(convo)@)));
    let ghost before = messages_view(convo@);
    let ghost all = result_messages(results@);
    let mut results = results;
    let n = results.len();
    let mut pending: Vec<ToolResult> = Vec::new();
    pending.append(&mut results);
    while pending.len() > 0
        invariant
            pending@.len() <= n,
            n == all.len(),
            messages_view(convo@) + result_messages(pending@) == before + all,
        decreases pending@.len(),
    {
        let ghost left = result_messages(pending@);
        let ghost have = messages_view(convo@);
        let r = pending.remove(0);
        convo.push(ChatMessage::Tool { content: r.content, tool_call_id: r.tool_call_id });
        proof {
            assert(result_messages(pending@) =~= left.skip(1));
            assert(messages_view(convo@) =~= have.push(left[0]));
            assert(have.push(left[0]) + left.skip(1) =~= have + left);
        }
    }
    assert(messages_view(convo@) =~= before + all);
    pin_window(convo, guard);
}

} // verus!
