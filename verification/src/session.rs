//! The interactive session: classifying typed input, composing the
//! augmented prompt from retrieved records, and keeping the chat
//! history that accompanies each question.

use vstd::prelude::*;

use crate::record::{spec_render, Record, RecordView};

verus! {

/// Who spoke a chat turn.
#[derive(Clone, Copy, Debug, PartialEq, Eq, Structural)]
pub enum Role {
    User,
    Assistant,
}

/// One message of the conversation history.
pub struct ChatTurn {
    pub role: Role,
    pub content: String,
}

/// The mathematical value of a [`ChatTurn`].
pub struct TurnView {
    pub role: Role,
    pub content: Seq<char>,
}

impl View for ChatTurn {
    type V = TurnView;

    open spec fn view(&self) -> TurnView {
        TurnView { role: self.role, content: self.content@ }
    }
}

impl DeepView for ChatTurn {
    type V = TurnView;

    open spec fn deep_view(&self) -> TurnView {
        self.view()
    }
}

impl ChatTurn {
    /// A user turn holding the given text.
    pub fn user(content: String) -> (t: ChatTurn)
        ensures
            t@ == (TurnView { role: Role::User, content: content@ }),
    {
        ChatTurn { role: Role::User, content }
    }

    /// An assistant turn holding the given text.
    pub fn assistant(content: String) -> (t: ChatTurn)
        ensures
            t@ == (TurnView { role: Role::Assistant, content: content@ }),
    {
        ChatTurn { role: Role::Assistant, content }
    }
}

/// What one line of input asks the session to do.
#[derive(Clone, Copy, Debug, PartialEq, Eq, Structural)]
pub enum Command {
    /// End the session; no further service call is made.
    Quit,
    /// Clear the conversation history and keep going.
    Reset,
    /// Treat the input as a question: retrieve records and ask the
    /// chat service.
    Ask,
}

/// The command a trimmed input line stands for: `quit` and `reset`
/// are commands, anything else (a blank line included) is a question.
pub open spec fn spec_classify(s: Seq<char>) -> Command {
    if s == "quit"@ {
        Command::Quit
    } else if s == "reset"@ {
        Command::Reset
    } else {
        Command::Ask
    }
}

fn str_eq(a: &str, b: &str) -> (r: bool)
    ensures
        r == (a@ == b@),
{
    let na = a.unicode_len();
    let nb = b.unicode_len();
    if na != nb {
        return false;
    }
    let mut i: usize = 0;
    while i < na
        invariant
            na == a@.len(),
            na == b@.len(),
            i <= na,
            forall|j: int| 0 <= j < i ==> a@[j] == b@[j],
        decreases na - i,
    {
        if a.get_char(i) != b.get_char(i) {
            proof {
                if a@ == b@ {
                    assert(a@[i as int] == b@[i as int]);
                }
            }
            return false;
        }
        i = i + 1;
    }
    proof {
        assert(a@ =~= b@);
    }
    true
}

/// Classifies one trimmed line of input.
pub fn classify(input: &str) -> (c: Command)
    ensures
        c == spec_classify(input@),
{
    if str_eq(input, "quit") {
        Command::Quit
    } else if str_eq(input, "reset") {
        Command::Reset
    } else {
        Command::Ask
    }
}

/// The canonical renderings of a sequence of records.
pub open spec fn render_all(docs: Seq<RecordView>) -> Seq<Seq<char>> {
    docs.map_values(|r: RecordView| spec_render(r))
}

/// The given texts joined by single newlines; empty for no texts.
pub open spec fn spec_join_lines(texts: Seq<Seq<char>>) -> Seq<char>
    decreases texts.len(),
{
    if texts.len() == 0 {
        Seq::empty()
    } else if texts.len() == 1 {
        texts[0]
    } else {
        spec_join_lines(texts.drop_last()) + seq!['\n'] + texts.last()
    }
}

/// The augmented prompt: a header labeling the retrieved records, the
/// rendering of each retrieved record in retrieval order joined by
/// newlines, a blank line, then the user's question.
pub open spec fn spec_augmented_prompt(docs: Seq<RecordView>, prompt: Seq<char>) -> Seq<char> {
    "Relevant employees:\n"@ + spec_join_lines(render_all(docs)) + "\n\n"@ + prompt
}

/// Composes the augmented prompt for a question from the retrieved
/// records, in the order the index returned them.
pub fn augmented_prompt(docs: &Vec<Record>, prompt: &str) -> (r: String)
    ensures
        r@ == spec_augmented_prompt(docs.deep_view(), prompt@),
{
    let mut joined = String::new();
    let mut i: usize = 0;
    while i < docs.len()
        invariant
            i <= docs.len(),
            joined@ == spec_join_lines(render_all(docs.deep_view().subrange(0, i as int))),
        decreases docs.len() - i,
    {
        if i > 0 {
            joined.append("\n");
        }
        let text = docs[i].render();
        joined.append(text.as_str());
        proof {
            reveal_strlit("\n");
            let prefix = docs.deep_view().subrange(0, (i + 1) as int);
            assert(render_all(prefix).drop_last() =~= render_all(
                docs.deep_view().subrange(0, i as int),
            ));
            assert(render_all(prefix).last() == spec_render(docs.deep_view()[i as int]));
            assert(joined@ =~= spec_join_lines(render_all(prefix)));
        }
        i = i + 1;
    }
    proof {
        assert(docs.deep_view().subrange(0, docs.len() as int) =~= docs.deep_view());
    }
    let mut s = String::from_str("Relevant employees:\n");
    s.append(joined.as_str());
    s.append("\n\n");
    s.append(prompt);
    proof {
        assert(s@ =~= spec_augmented_prompt(docs.deep_view(), prompt@));
    }
    s
}

/// The history after a reset: empty, whatever it held.
pub open spec fn history_after_reset(h: Seq<TurnView>) -> Seq<TurnView> {
    Seq::empty()
}

/// The history after one full exchange: the user's prompt as sent
/// (the augmented one) and the assistant's answer, appended in that
/// order.
pub open spec fn history_after_exchange(
    h: Seq<TurnView>,
    prompt: Seq<char>,
    answer: Seq<char>,
) -> Seq<TurnView> {
    h.push(TurnView { role: Role::User, content: prompt }).push(
        TurnView { role: Role::Assistant, content: answer },
    )
}

/// The history that accompanies a question to the chat service: the
/// turns recorded so far, the pending question not among them.
pub open spec fn history_sent(h: Seq<TurnView>) -> Seq<TurnView> {
    h
}

/// A question asked right after a reset is accompanied by an empty
/// history: the reset really cleared it.
pub proof fn lemma_reset_clears_history(h: Seq<TurnView>)
    ensures
        history_sent(history_after_reset(h)).len() == 0,
{
}

/// After one full exchange from an empty history, the next question
/// is accompanied by exactly two turns: the user's prompt as sent,
/// then the assistant's answer.
pub proof fn lemma_history_after_first_exchange(prompt: Seq<char>, answer: Seq<char>)
    ensures
        history_sent(history_after_exchange(Seq::empty(), prompt, answer)) =~= seq![
            TurnView { role: Role::User, content: prompt },
            TurnView { role: Role::Assistant, content: answer },
        ],
{
}

/// One interactive session: the conversation history, appended to by
/// each exchange and cleared by `reset`.
pub struct Session {
    history: Vec<ChatTurn>,
}

impl View for Session {
    type V = Seq<TurnView>;

    closed spec fn view(&self) -> Seq<TurnView> {
        self.history.deep_view()
    }
}

impl Session {
    /// A fresh session with an empty history.
    pub fn new() -> (s: Session)
        ensures
            s@ == Seq::<TurnView>::empty(),
    {
        let s = Session { history: Vec::new() };
        proof {
            assert(s@ =~= Seq::<TurnView>::empty());
        }
        s
    }

    /// How many turns the history holds.
    pub fn history_len(&self) -> (n: usize)
        ensures
            n == self@.len(),
    {
        self.history.len()
    }

    /// Clears the history in place; nothing else changes.
    pub fn reset(&mut self)
        ensures
            final(self)@ == history_after_reset(old(self)@),
    {
        self.history.clear();
        proof {
            assert(final(self)@ =~= history_after_reset(old(self)@));
        }
    }

    /// Records one finished exchange: the prompt as it was sent and
    /// the assistant's answer, appended in that order.
    pub fn record_exchange(&mut self, prompt: String, answer: String)
        ensures
            final(self)@ == history_after_exchange(old(self)@, prompt@, answer@),
    {
        let ghost p = prompt@;
        let ghost a = answer@;
        self.history.push(ChatTurn::user(prompt));
        self.history.push(ChatTurn::assistant(answer));
        proof {
            assert(final(self)@ =~= history_after_exchange(old(self)@, p, a));
        }
    }

    /// The history to accompany the next question: every turn
    /// recorded so far, in order.
    pub fn history_to_send(&self) -> (h: Vec<ChatTurn>)
        ensures
            h.deep_view() == history_sent(self@),
    {
        let mut out: Vec<ChatTurn> = Vec::new();
        let mut i: usize = 0;
        while i < self.history.len()
            invariant
                i <= self.history.len(),
                out@ == self.history@.subrange(0, i as int),
            decreases self.history.len() - i,
        {
            let content = self.history[i].content.clone();
            let role = self.history[i].role;
            out.push(ChatTurn { role, content });
            proof {
                assert(out@.last() == self.history@[i as int]);
                assert(out@ =~= self.history@.subrange(0, (i + 1) as int));
            }
            i = i + 1;
        }
        proof {
            assert(self.history@.subrange(0, self.history.len() as int) =~= self.history@);
            assert(out.deep_view() =~= history_sent(self@));
        }
        out
    }
}

} // verus!
