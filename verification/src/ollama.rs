//! The chat-message shapes of the model endpoint and the pure parts of
//! talking to it: building the outgoing message list and assembling the
//! streamed answer. The request itself is the host's.
use vstd::prelude::*;

verus! {

/// One chat message: who speaks and what is said.
#[derive(Debug)]
pub struct ChatMessage {
    pub role: String,
    pub content: String,
}

/// One streamed response chunk: an optional message and whether the stream
/// is finished.
#[derive(Debug)]
pub struct ChatResponse {
    pub message: Option<ChatMessage>,
    pub done: bool,
}

/// The single-user-message request body for a plain prompt.
pub fn user_message(prompt: &str) -> (r: Vec<ChatMessage>)
    ensures
        r@.len() == 1,
        r@[0].role@ == "user"@,
        r@[0].content@ == prompt@,
{
    let mut messages: Vec<ChatMessage> = Vec::new();
    messages.push(ChatMessage { role: String::from_str("user"), content: String::from_str(prompt) });
    messages
}

/// The two-message request body opening with a system prompt.
pub fn system_and_user_messages(system_prompt: &str, prompt: &str) -> (r: Vec<ChatMessage>)
    ensures
        r@.len() == 2,
        r@[0].role@ == "system"@,
        r@[0].content@ == system_prompt@,
        r@[1].role@ == "user"@,
        r@[1].content@ == prompt@,
{
    let mut messages: Vec<ChatMessage> = Vec::new();
    messages.push(
        ChatMessage { role: String::from_str("system"), content: String::from_str(system_prompt) },
    );
    messages.push(ChatMessage { role: String::from_str("user"), content: String::from_str(prompt) });
    messages
}

/// The concatenated message contents of a run of response chunks, in order;
/// chunks without a message contribute nothing.
pub open spec fn contents_of(chunks: Seq<ChatResponse>) -> Seq<char>
    decreases chunks.len(),
{
    if chunks.len() == 0 {
        Seq::empty()
    } else {
        contents_of(chunks.drop_last()) + (match chunks.last().message {
            Some(m) => m.content@,
            None => Seq::<char>::empty(),
        })
    }
}

/// Assembles the full answer from the streamed chunks, in order.
pub fn collect_response_content(chunks: &Vec<ChatResponse>) -> (r: String)
    ensures
        r@ == contents_of(chunks@),
{
    let mut out = String::new();
    let mut i: usize = 0;
    while i < chunks.len()
        invariant
            i <= chunks@.len(),
            out@ == contents_of(chunks@.subrange(0, i as int)),
        decreases chunks@.len() - i,
    {
        proof {
            assert(chunks@.subrange(0, i + 1 as int).drop_last() =~= chunks@.subrange(0, i as int));
            assert(chunks@.subrange(0, i + 1 as int).last() == chunks@[i as int]);
        }
        match &chunks[i].message {
            Some(m) => {
                out.append(m.content.as_str());
            },
            None => {
                proof {
                    assert(out@ + Seq::<char>::empty() =~= out@);
                }
            },
        }
        i = i + 1;
    }
    proof {
        assert(chunks@.subrange(0, chunks@.len() as int) =~= chunks@);
    }
    out
}

/// The user query wrapped for the file-manager model.
pub fn full_prompt(prompt: &str) -> (r: String)
    ensures
        r@ == "User Query: "@ + prompt@,
{
    String::from_str("User Query: ").concat(prompt)
}

} // verus!
