//! How a reply goes out: as one text message, or as speech in chunks of
//! bounded size with a per-chunk fallback to text.

use vstd::prelude::*;

use crate::text::{contains_text, has_char, has_infix, views};
use crate::user::User;

verus! {

/// Lines that start with this many spaces count as indented code.
pub const CODE_INDENT: usize = 4;

/// The width that speech chunks are wrapped to.
pub const VOICE_CHUNK_WIDTH: usize = 800;

/// Sent instead of a reply when the completion failed.
pub const APOLOGY: &'static str = "I broke down. I feel bad";

/// A line of `s` starts at `p`: the first character, or one after a line
/// feed. A line feed that ends the text starts no further line.
pub open spec fn is_line_start(s: Seq<char>, p: int) -> bool {
    0 <= p < s.len() && (p == 0 || s[p - 1] == '\n')
}

/// The line starting at `p` begins with `CODE_INDENT` spaces.
pub open spec fn is_indented_start(s: Seq<char>, p: int) -> bool {
    &&& is_line_start(s, p)
    &&& p + 4 <= s.len()
    &&& s[p] == ' ' && s[p + 1] == ' ' && s[p + 2] == ' ' && s[p + 3] == ' '
}

/// How many lines start before position `k`.
pub open spec fn lines_before(s: Seq<char>, k: int) -> nat
    decreases k,
{
    if k <= 0 {
        0
    } else {
        lines_before(s, k - 1) + if is_line_start(s, k - 1) {
            1nat
        } else {
            0nat
        }
    }
}

/// How many indented lines start before position `k`.
pub open spec fn indented_before(s: Seq<char>, k: int) -> nat
    decreases k,
{
    if k <= 0 {
        0
    } else {
        indented_before(s, k - 1) + if is_indented_start(s, k - 1) {
            1nat
        } else {
            0nat
        }
    }
}

/// The number of lines of `s`, as `str::lines` counts them.
pub open spec fn line_count(s: Seq<char>) -> nat {
    lines_before(s, s.len() as int)
}

/// The number of lines of `s` that start with `CODE_INDENT` spaces.
pub open spec fn indented_count(s: Seq<char>) -> nat {
    indented_before(s, s.len() as int)
}

/// The coarse code-listing test: more than half of the lines indented, or
/// the keyword `fn`, or any of `{ } ( ) `` ` ``.
pub open spec fn is_code(s: Seq<char>) -> bool {
    ||| 2 * indented_count(s) > line_count(s)
    ||| has_infix(s, "fn"@)
    ||| s.contains('{')
    ||| s.contains('}')
    ||| s.contains('(')
    ||| s.contains(')')
    ||| s.contains('`')
}

/// Whether `text` looks like a code listing, which is never spoken.
pub fn is_code_listing(text: &str) -> (r: bool)
    ensures
        r == is_code(text@),
{
    let n = text.unicode_len();
    let mut lines: usize = 0;
    let mut indented: usize = 0;
    let mut i: usize = 0;
    while i < n
        invariant
            n == text@.len(),
            i <= n,
            lines as nat == lines_before(text@, i as int),
            indented as nat == indented_before(text@, i as int),
            lines <= i,
            indented <= lines,
        decreases n - i,
    {
        let start = i == 0 || text.get_char(i - 1) == '\n';
        if start {
            lines = lines + 1;
            if 4 <= n - i && text.get_char(i) == ' ' && text.get_char(i + 1) == ' '
                && text.get_char(i + 2) == ' ' && text.get_char(i + 3) == ' ' {
                indented = indented + 1;
            }
        }
        i = i + 1;
    }
    if lines - indented < indented {
        return true;
    }
    contains_text(text, "fn") || has_char(text, '{') || has_char(text, '}') || has_char(text, '(')
        || has_char(text, ')') || has_char(text, '`')
}

/// Whether replies to `user` are spoken: a speech backend is configured
/// (`tts_path` is not empty) and the user asked for voice.
pub fn is_tts_enabled(tts_path: &str, user: &User) -> (r: bool)
    ensures
        r == (tts_path@.len() > 0 && user.is_voice),
{
    tts_path.unicode_len() > 0 && user.is_voice
}

/// The lines that `textwrap::wrap` makes of `text` at `width` columns.
pub uninterp spec fn wrapped(text: Seq<char>, width: usize) -> Seq<Seq<char>>;

/// Relies on `textwrap::wrap` with a plain width: its lines depend on the
/// text and the width alone. A text without a line feed and without a
/// trailing space whose UTF-8 length (at most four bytes a character) is
/// under the width comes back as its one line.
#[verifier::external_body]
fn wrap_lines(text: &str, width: usize) -> (r: Vec<String>)
    ensures
        views(r@) == wrapped(text@, width),
        !text@.contains('\n') && 4 * text@.len() < width && (text@.len() == 0
            || text@.last() != ' ') ==> views(r@) == seq![text@],
{
    textwrap::wrap(text, width).into_iter().map(|line| line.into_owned()).collect()
}

/// The chunks that a spoken reply is cut into, in order.
pub fn voice_chunks(content: &str) -> (r: Vec<String>)
    ensures
        views(r@) == wrapped(content@, VOICE_CHUNK_WIDTH),
        !content@.contains('\n') && 4 * content@.len() < VOICE_CHUNK_WIDTH && (
        content@.len() == 0 || content@.last() != ' ') ==> views(r@) == seq![content@],
{
    wrap_lines(content, VOICE_CHUNK_WIDTH)
}

/// How a reply goes out.
#[derive(Debug)]
pub enum Delivery {
    /// One text message.
    Text(String),
    /// Speech, chunk by chunk, in this order.
    Voice(Vec<String>),
}

/// Whether `content` is spoken, for a user whose replies are spoken when
/// `voice` holds.
pub open spec fn is_spoken(content: Seq<char>, voice: bool) -> bool {
    voice && !is_code(content)
}

/// `d` is how `content` goes out: as speech in wrapped chunks where it is
/// spoken, else as one text message.
pub open spec fn is_delivery_of(content: Seq<char>, voice: bool, d: Delivery) -> bool {
    if is_spoken(content, voice) {
        d matches Delivery::Voice(chunks) && views(chunks@) == wrapped(content, VOICE_CHUNK_WIDTH)
    } else {
        d matches Delivery::Text(t) && t@ == content
    }
}

/// Decides how `content` goes out: as speech where `voice` holds and it is
/// no code listing, else as one text message.
pub fn plan_delivery(content: &str, voice: bool) -> (r: Delivery)
    ensures
        is_delivery_of(content@, voice, r),
{
    if voice && !is_code_listing(content) {
        Delivery::Voice(voice_chunks(content))
    } else {
        Delivery::Text(String::from_str(content))
    }
}

/// What goes out for one chunk of a spoken reply.
#[derive(Debug)]
pub enum ChunkDelivery {
    /// The synthesized audio.
    Audio,
    /// The chunk as text, since synthesis failed.
    Text(String),
}

/// The chunk goes out as audio where synthesis succeeded, else as text;
/// later chunks go out either way.
pub fn deliver_chunk(chunk: &String, synthesized: bool) -> (r: ChunkDelivery)
    ensures
        synthesized ==> r is Audio,
        !synthesized ==> (r matches ChunkDelivery::Text(t) && t@ == chunk@),
{
    if synthesized {
        ChunkDelivery::Audio
    } else {
        ChunkDelivery::Text(chunk.clone())
    }
}

} // verus!
