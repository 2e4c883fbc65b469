//! The rolling conversation context fed to the assistant: final transcript
//! segments mapped to roles, the oldest dropped once transcripts pass a
//! bound, and the whole rendered as a prompt.
use vstd::prelude::*;
use vstd::string::StringExecFns;

verus! {

/// Oldest items are dropped once the context holds more than this.
pub const MAX_CONTEXT_ITEMS: usize = 100;

/// One recognised stretch of speech.
pub struct TranscriptSegment {
    pub speaker: String,
    pub text: String,
    pub timestamp: u64,
    pub is_final: bool,
}

/// One entry of the conversation context.
pub struct ContextItem {
    /// "interviewer", "user" or "assistant".
    pub role: String,
    pub text: String,
    pub timestamp: u64,
}

/// Outcome of a front-end command.
pub struct ApiResponse {
    pub success: bool,
    pub error: Option<String>,
}

/// Instruction that opens every assistant prompt.
pub const PROMPT_PREAMBLE: &'static str = "You are an interview assistant. Based on the transcript below, suggest what the user (candidate) should say next.\n\nTRANSCRIPT:\n";

pub open spec fn prompt_preamble() -> Seq<char> {
    PROMPT_PREAMBLE@
}

/// The role a speaker label maps to.
pub open spec fn role_of(speaker: Seq<char>) -> Seq<char> {
    if speaker == "user"@ {
        "user"@
    } else {
        "interviewer"@
    }
}

/// Upper-case form of a string, as `str::to_uppercase` computes it.
pub uninterp spec fn upper_of(s: Seq<char>) -> Seq<char>;

/// Relies on `str::to_uppercase`: the result depends on the characters alone.
#[verifier::external_body]
fn uppercase(s: &str) -> (r: String)
    ensures
        r@ == upper_of(s@),
{
    s.to_uppercase()
}

/// Model of a context entry: (role, text, timestamp).
pub open spec fn item_view(c: ContextItem) -> (Seq<char>, Seq<char>, u64) {
    (c.role@, c.text@, c.timestamp)
}

/// One rendered context line: `ROLE: text` and a newline.
pub open spec fn line_of(role: Seq<char>, text: Seq<char>) -> Seq<char> {
    upper_of(role) + ": "@ + text + "\n"@
}

/// The rendered transcript of the first `n` entries.
pub open spec fn rendered(items: Seq<(Seq<char>, Seq<char>, u64)>, n: nat) -> Seq<char>
    decreases n,
{
    if n == 0 || n > items.len() {
        Seq::empty()
    } else {
        rendered(items, (n - 1) as nat) + line_of(items[n - 1].0, items[n - 1].1)
    }
}

pub struct ContextLog {
    items: Vec<ContextItem>,
}

impl ContextLog {
    pub closed spec fn view_items(&self) -> Seq<(Seq<char>, Seq<char>, u64)> {
        self.items@.map_values(|c: ContextItem| item_view(c))
    }

    pub fn new() -> (r: Self)
        ensures
            r.view_items() == Seq::<(Seq<char>, Seq<char>, u64)>::empty(),
    {
        ContextLog { items: Vec::new() }
    }

    pub fn len(&self) -> (r: usize)
        ensures
            r == self.view_items().len(),
    {
        self.items.len()
    }

    /// Adds a final segment under its speaker's role; interim segments are
    /// ignored. When the context then holds more than `MAX_CONTEXT_ITEMS`
    /// entries, its oldest entry is dropped (one entry, whatever the length).
    pub fn add_transcript(&mut self, segment: TranscriptSegment)
        ensures
            !segment.is_final ==> final(self).view_items() == old(self).view_items(),
            segment.is_final ==> {
                let grown = old(self).view_items().push(
                    (role_of(segment.speaker@), segment.text@, segment.timestamp),
                );
                final(self).view_items() == if grown.len() > MAX_CONTEXT_ITEMS {
                    grown.drop_first()
                } else {
                    grown
                }
            },
    {
        if !segment.is_final {
            return;
        }
        let user: String = "user".to_owned();
        let role: String = if segment.speaker.eq(&user) {
            user
        } else {
            "interviewer".to_owned()
        };
        let ghost before = self.items@;
        self.items.push(ContextItem { role, text: segment.text, timestamp: segment.timestamp });
        assert(self.items@.map_values(|c: ContextItem| item_view(c)) =~= before.map_values(
            |c: ContextItem| item_view(c),
        ).push(item_view(self.items@.last())));
        if self.items.len() > MAX_CONTEXT_ITEMS {
            let ghost grown = self.items@;
            self.items.remove(0);
            assert(self.items@.map_values(|c: ContextItem| item_view(c)) =~= grown.map_values(
                |c: ContextItem| item_view(c),
            ).drop_first());
        }
    }

    /// Appends the assistant's reply to the context; nothing is dropped.
    pub fn add_assistant_reply(&mut self, text: String, timestamp: u64)
        ensures
            final(self).view_items() == old(self).view_items().push(
                ("assistant"@, text@, timestamp),
            ),
    {
        let ghost before = self.items@;
        let role: String = "assistant".to_owned();
        self.items.push(ContextItem { role, text, timestamp });
        assert(self.items@.map_values(|c: ContextItem| item_view(c)) =~= before.map_values(
            |c: ContextItem| item_view(c),
        ).push(item_view(self.items@.last())));
    }

    /// The assistant prompt: a fixed instruction followed by the transcript.
    pub fn prompt(&self) -> (r: String)
        ensures
            r@ == prompt_preamble() + rendered(self.view_items(), self.view_items().len()),
    {
        let mut s: String = PROMPT_PREAMBLE.to_owned();
        let t = self.transcript();
        s.append(t.as_str());
        s
    }

    /// The context rendered one `ROLE: text` line per entry, oldest first.
    pub fn transcript(&self) -> (r: String)
        ensures
            r@ == rendered(self.view_items(), self.view_items().len()),
    {
        let mut s = String::new();
        let mut i: usize = 0;
        while i < self.items.len()
            invariant
                i <= self.items@.len(),
                s@ == rendered(self.view_items(), i as nat),
            decreases self.items@.len() - i,
        {
            let item = &self.items[i];
            let up = uppercase(item.role.as_str());
            s.append(up.as_str());
            s.append(": ");
            s.append(item.text.as_str());
            s.append("\n");
            proof {
                reveal_strlit(": ");
                reveal_strlit("\n");
                assert(s@ =~= rendered(self.view_items(), i as nat) + line_of(
                    self.view_items()[i as int].0,
                    self.view_items()[i as int].1,
                ));
            }
            i = i + 1;
        }
        s
    }
}

} // verus!
