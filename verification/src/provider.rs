//! Request handling of the mock completion provider: how many tokens a
//! request is granted and what text it gets back.

use vstd::prelude::*;
use vstd::string::StringSliceAdditionalSpecFns;
use vstd::utf8::*;

verus! {

/// The most tokens one completion uses.
pub const MAX_COMPLETION_TOKENS: u32 = 100;

/// The most bytes of the prompt echoed back in a mock reply.
pub const ECHO_BYTES: usize = 20;

/// A request for a completion of `prompt` using at most `max_tokens` tokens.
#[derive(Debug, Clone)]
pub struct CompletionRequest {
    pub prompt: String,
    pub max_tokens: u32,
}

/// The tokens a request is granted: what it asks for, at most 100.
pub open spec fn granted(max_tokens: u32) -> u32 {
    if max_tokens < MAX_COMPLETION_TOKENS {
        max_tokens
    } else {
        MAX_COMPLETION_TOKENS
    }
}

/// The number of prompt bytes echoed: the prompt's UTF-8 length, at most 20.
pub open spec fn echo_len(prompt: Seq<char>) -> int {
    let n = encode_utf8(prompt).len();
    if n < ECHO_BYTES {
        n as int
    } else {
        ECHO_BYTES as int
    }
}

/// The start of every mock reply.
pub open spec fn reply_prefix() -> Seq<char> {
    seq!['m', 'o', 'c', 'k', ':', ' ']
}

/// The mock reply to a prompt: `mock: ` and the text of the prompt's first
/// `echo_len` bytes.
pub open spec fn mock_reply(prompt: Seq<char>) -> Seq<char> {
    reply_prefix() + decode_utf8(encode_utf8(prompt).subrange(0, echo_len(prompt)))
}

/// Whether the echoed bytes end on a character boundary of the prompt, so
/// that they can be cut out of it.
pub open spec fn echo_fits(prompt: Seq<char>) -> bool {
    is_char_boundary(encode_utf8(prompt), echo_len(prompt))
}

/// A request is granted at most 100 tokens, and at least one whenever it
/// asks for any.
pub proof fn lemma_granted_bounds(max_tokens: u32)
    ensures
        granted(max_tokens) <= MAX_COMPLETION_TOKENS,
        granted(max_tokens) <= max_tokens,
        max_tokens > 0 ==> granted(max_tokens) > 0,
{
}

/// Every mock reply starts with `mock: `.
pub proof fn lemma_reply_starts_with_prefix(prompt: Seq<char>)
    ensures
        mock_reply(prompt).take(reply_prefix().len() as int) == reply_prefix(),
{
    assert(mock_reply(prompt).take(reply_prefix().len() as int) =~= reply_prefix());
}

/// The tokens granted are the smaller of the tokens asked for and 100.
pub proof fn lemma_granted_is_min(max_tokens: u32)
    ensures
        max_tokens <= 100 ==> granted(max_tokens) == max_tokens,
        max_tokens > 100 ==> granted(max_tokens) == 100,
{
}

/// The reply echoes the smaller of the prompt's byte length and 20 bytes;
/// a prompt of at most 20 bytes is echoed whole.
pub proof fn lemma_echo_is_min(prompt: Seq<char>)
    ensures
        encode_utf8(prompt).len() <= 20 ==> echo_len(prompt) == encode_utf8(prompt).len(),
        encode_utf8(prompt).len() > 20 ==> echo_len(prompt) == 20,
        encode_utf8(prompt).len() <= 20 ==> mock_reply(prompt) == seq!['m', 'o', 'c', 'k', ':', ' ']
            + prompt,
        mock_reply(prompt).subrange(0, 6) == seq!['m', 'o', 'c', 'k', ':', ' '],
{
    broadcast use encode_utf8_decode_utf8;

    if encode_utf8(prompt).len() <= 20 {
        assert(encode_utf8(prompt).subrange(0, echo_len(prompt)) =~= encode_utf8(prompt));
    }
    assert(mock_reply(prompt).subrange(0, 6) =~= seq!['m', 'o', 'c', 'k', ':', ' ']);
}

impl CompletionRequest {
    pub fn granted_tokens(&self) -> (n: u32)
        ensures
            n == granted(self.max_tokens),
            self.max_tokens <= 100 ==> n == self.max_tokens,
            self.max_tokens > 100 ==> n == 100,
    {
        if self.max_tokens < MAX_COMPLETION_TOKENS {
            self.max_tokens
        } else {
            MAX_COMPLETION_TOKENS
        }
    }

    /// The text of the mock reply. The cut after the echoed bytes must fall
    /// on a character boundary.
    pub fn reply_text(&self) -> (text: String)
        requires
            echo_fits(self.prompt@),
            encode_utf8(self.prompt@).len() <= usize::MAX,
        ensures
            text@ == mock_reply(self.prompt@),
            text@ == seq!['m', 'o', 'c', 'k', ':', ' '] + decode_utf8(
                encode_utf8(self.prompt@).subrange(
                    0,
                    if encode_utf8(self.prompt@).len() <= 20 {
                        encode_utf8(self.prompt@).len() as int
                    } else {
                        20
                    },
                ),
            ),
            encode_utf8(self.prompt@).len() <= 20 ==> text@ == seq!['m', 'o', 'c', 'k', ':', ' ']
                + self.prompt@,
    {
        broadcast use encode_utf8_decode_utf8;

        let prompt = self.prompt.as_str();
        let n = if prompt.len() < ECHO_BYTES {
            prompt.len()
        } else {
            ECHO_BYTES
        };
        assert(n as int == echo_len(self.prompt@));
        let (head, _tail) = prompt.split_at(n);
        proof {
            reveal_strlit("mock: ");
            assert(decode_utf8(head.spec_bytes()) == head@);
        }
        let mut text = "mock: ".to_owned();
        text.append(head);
        assert(text@ =~= mock_reply(self.prompt@));
        proof {
            lemma_echo_is_min(self.prompt@);
        }
        text
    }
}

} // verus!
