//! What goes to and comes back from the language model: the prompts, the
//! messages of a request, the text taken from a reply, the messages of a
//! failed call, and the cleaning of a reply down to its JSON object.

use vstd::prelude::*;
use crate::cli::{opt_string_view, Provider};
use crate::text::{
    chars_of, find_in_range, is_white_space, join2, range_ends_with, range_starts_with, rfind_in_range,
    same_text, string_of_range, trim, trim_end, trim_range, trim_start,
};

verus! {

/// What one completion call sends: the user's prompt, the model, the key.
pub struct LlmRequest {
    pub prompt: String,
    pub model: String,
    pub api_key: String,
}

/// The JSON format asked of every section of a song.
pub const FORMAT_RULES: &'static str = r#"Output a JSON object with this exact schema — no markdown fences, no extra text:
{
  "bpm": <integer 60-160>,
  "bars": <integer>,
  "events": [
    {"t": <beat float>, "dur": <beat float>, "note": "<pitch or drum>", "wave": "<waveform>", "gain": <0.1-0.9>}
  ]
}

TIMING: 4/4 time. t=0 is bar 1 beat 1; t=4 is bar 2 beat 1. Beat = 1 unit.
NOTES: "C2"–"B5" (e.g. "C4", "Eb3", "F#5"). Bass in octaves 2–3, melody in 4–5.
DRUMS: "kick" (beats 1,3), "snare" (beats 2,4), "hat" (subdivisions), "clap"
WAVE (melodic only): "sine", "triangle", "square", "sawtooth"
GAIN: kick=0.85, snare=0.70, hat=0.45, melody=0.50, bass=0.60, pad=0.35
IMPORTANT: Generate a rich arrangement that fills ALL requested bars with varied events.
Return ONLY the JSON object."#;

/// The system prompt of every completion call: compose one self-contained
/// piece as a JSON pattern.
pub const STRUDEL_SYSTEM_PROMPT: &'static str = r#"You are a music composer for a CLI audio synthesizer. Generate a complete, self-contained musical piece.
Create a rich, layered arrangement with bass + melody + drums. Use 8–16 bars to give it musical shape.

ARRANGEMENT: kick on beats 1,3 · snare on beats 2,4 · hi-hat subdivisions · bass line · melodic phrases · optional pads.
The piece should feel complete on a single play — no looping. Let the melody develop and resolve within the bars.

Output a JSON object with this exact schema — no markdown fences, no extra text:
{
  "bpm": <integer 60-160>,
  "bars": <integer 8-16>,
  "events": [
    {"t": <beat float>, "dur": <beat float>, "note": "<pitch or drum>", "wave": "<waveform>", "gain": <0.1-0.9>}
  ]
}

TIMING: 4/4 time. t=0 = bar 1 beat 1; t=4 = bar 2 beat 1.
NOTES: "C2"–"B5". Bass: octaves 2–3. Melody: 4–5.
DRUMS: "kick", "snare", "hat", "clap"
WAVE: "sine", "triangle", "square", "sawtooth"
Return ONLY the JSON object."#;

/// One message of a chat completion request.
pub struct ChatMessage {
    pub role: String,
    pub content: String,
}

/// The messages of a completion call: the system prompt, then the user's
/// prompt.
pub fn chat_messages(req: &LlmRequest) -> (r: Vec<ChatMessage>)
    ensures
        r@.len() == 2,
        r@[0].role@ == "system"@,
        r@[0].content@ == STRUDEL_SYSTEM_PROMPT@,
        r@[1].role@ == "user"@,
        r@[1].content@ == req.prompt@,
{
    let mut r: Vec<ChatMessage> = Vec::new();
    r.push(ChatMessage {
        role: String::from_str("system"),
        content: String::from_str(STRUDEL_SYSTEM_PROMPT),
    });
    r.push(ChatMessage { role: String::from_str("user"), content: req.prompt.clone() });
    r
}

/// The text of a reply that offers a list of choices: the first choice's
/// message, if there is any choice.
pub fn first_choice(contents: Vec<String>) -> (r: Option<String>)
    ensures
        contents@.len() == 0 ==> r is None,
        contents@.len() > 0 ==> r == Some(contents@[0]),
{
    let mut contents = contents;
    if contents.len() == 0 {
        None
    } else {
        Some(contents.remove(0))
    }
}

/// One block of a reply's content: its kind ("text" for text) and its text.
pub struct ContentBlock {
    pub kind: String,
    pub text: String,
}

/// The text of a reply made of content blocks: that of the first block of
/// kind "text", if any.
pub fn first_text_block(blocks: Vec<ContentBlock>) -> (r: Option<String>)
    ensures
        r is None <==> forall|i: int| 0 <= i < blocks@.len() ==> (#[trigger] blocks@[i]).kind@
            != "text"@,
        r matches Some(t) ==> exists|i: int|
            0 <= i < blocks@.len() && (#[trigger] blocks@[i]).kind@ == "text"@ && t == blocks@[i].text
                && forall|j: int| 0 <= j < i ==> (#[trigger] blocks@[j]).kind@ != "text"@,
{
    let mut i: usize = 0;
    while i < blocks.len()
        invariant
            i <= blocks@.len(),
            forall|j: int| 0 <= j < i ==> (#[trigger] blocks@[j]).kind@ != "text"@,
        decreases blocks@.len() - i,
    {
        if same_text(blocks[i].kind.as_str(), "text") {
            let t = blocks[i].text.clone();
            return Some(t);
        }
        i += 1;
    }
    None
}

/// A markdown code fence.
pub open spec fn fence() -> Seq<char> {
    seq!['`', '`', '`']
}

/// A markdown code fence that opens a JSON block.
pub open spec fn json_fence() -> Seq<char> {
    seq!['`', '`', '`', 'j', 's', 'o', 'n']
}

/// `s` with a surrounding markdown code fence taken off and the inside
/// trimmed; `s` itself when it does not both open and close with a fence.
/// An opening "```json" is taken in preference to a bare "```".
pub open spec fn unfenced(s: Seq<char>) -> Seq<char> {
    let body = if json_fence().is_prefix_of(s) {
        s.skip(7)
    } else {
        s.skip(3)
    };
    if (json_fence().is_prefix_of(s) || fence().is_prefix_of(s)) && fence().is_suffix_of(body) {
        trim(body.take(body.len() - 3))
    } else {
        s
    }
}

/// From the first '{' to the last '}' of `s`, both kept; `s` itself when
/// either brace is missing.
pub open spec fn object_span(s: Seq<char>) -> Seq<char> {
    match (s.index_of_first('{'), s.index_of_last('}')) {
        (Some(i), Some(j)) => s.subrange(i, j + 1),
        _ => s,
    }
}

/// The braces of `s` can be cut out: the last '}' does not lie two or more
/// places before the first '{' (a string slice from after its end panics).
pub open spec fn braces_in_order(s: Seq<char>) -> bool {
    match (s.index_of_first('{'), s.index_of_last('}')) {
        (Some(i), Some(j)) => i <= j + 1,
        _ => true,
    }
}

/// The text a reply is reduced to: trimmed, unfenced, then cut to its
/// outermost braces.
pub open spec fn extracted_json(raw: Seq<char>) -> Seq<char> {
    object_span(unfenced(trim(raw)))
}

/// Whether `extract_json` can cut `raw` (see `braces_in_order`).
pub open spec fn extractable(raw: Seq<char>) -> bool {
    braces_in_order(unfenced(trim(raw)))
}

/// The bounds, within `cs`, of `unfenced(trim(cs))`.
fn unfenced_bounds(cs: &Vec<char>) -> (r: (usize, usize))
    ensures
        r.0 <= r.1 <= cs@.len(),
        cs@.subrange(r.0 as int, r.1 as int) == unfenced(trim(cs@)),
{
    let (a, b) = trim_range(cs.as_slice(), 0, cs.len());
    let ghost t = cs@.subrange(a as int, b as int);
    assert(cs@.subrange(0, cs@.len() as int) =~= cs@);
    let json_open = vec!['`', '`', '`', 'j', 's', 'o', 'n'];
    let open = vec!['`', '`', '`'];
    assert(json_open@ =~= json_fence());
    assert(open@ =~= fence());
    let body_lo = if range_starts_with(cs.as_slice(), a, b, json_open.as_slice()) {
        a + 7
    } else if range_starts_with(cs.as_slice(), a, b, open.as_slice()) {
        a + 3
    } else {
        return (a, b);
    };
    assert(cs@.subrange(body_lo as int, b as int) =~= t.skip(body_lo - a));
    if range_ends_with(cs.as_slice(), body_lo, b, open.as_slice()) {
        let (c, d) = trim_range(cs.as_slice(), body_lo, b - 3);
        proof {
            let body = t.skip(body_lo - a);
            assert(body.take(body.len() - 3) =~= cs@.subrange(body_lo as int, b - 3));
        }
        (c, d)
    } else {
        (a, b)
    }
}

/// Reduces a model's reply to its JSON object: trims it, takes off a
/// surrounding markdown code fence ("```json" or "```"), then keeps the text
/// from the first '{' to the last '}'; where either brace is missing, the
/// trimmed and unfenced text is returned.
pub fn extract_json(raw: String) -> (r: String)
    requires
        extractable(raw@),
    ensures
        r@ == extracted_json(raw@),
{
    let cs = chars_of(raw.as_str());
    let (c, d) = unfenced_bounds(&cs);
    let ghost s = cs@.subrange(c as int, d as int);
    match (find_in_range(cs.as_slice(), c, d, '{'), rfind_in_range(cs.as_slice(), c, d, '}')) {
        (Some(i), Some(j)) => {
            proof {
                s.index_of_first_ensures('{');
                s.index_of_last_ensures('}');
                assert(cs@.subrange(c + i, c + j + 1) =~= s.subrange(i as int, j + 1));
            }
            string_of_range(cs.as_slice(), c + i, c + j + 1)
        },
        _ => string_of_range(cs.as_slice(), c, d),
    }
}

/// Like `extract_json`, but `None` where the braces cannot be cut out
/// (where `extract_json`'s own requirement fails).
pub fn extract_json_checked(raw: String) -> (r: Option<String>)
    ensures
        r is Some <==> extractable(raw@),
        r matches Some(s) ==> s@ == extracted_json(raw@),
{
    let cs = chars_of(raw.as_str());
    let (c, d) = unfenced_bounds(&cs);
    let ghost s = cs@.subrange(c as int, d as int);
    match (find_in_range(cs.as_slice(), c, d, '{'), rfind_in_range(cs.as_slice(), c, d, '}')) {
        (Some(i), Some(j)) => {
            if i > j && i - j > 1 {
                None
            } else {
                Some(extract_json(raw))
            }
        },
        _ => Some(extract_json(raw)),
    }
}

/// The message of a call that the service refused: the provider's name,
/// the HTTP status, then the service's own error message where the body
/// carried one, else the whole body.
pub open spec fn api_error_message_of(
    provider: Provider,
    status: Seq<char>,
    detail: Option<Seq<char>>,
    body: Seq<char>,
) -> Seq<char> {
    provider.display_name_of() + " API error "@ + status + ": "@ + match detail {
        Some(d) => d,
        None => body,
    }
}

/// The message of a call that the service refused (see
/// `api_error_message_of`).
pub fn api_error_message(provider: Provider, status: &str, detail: Option<String>, body: &str) -> (r:
    String)
    ensures
        r@ == api_error_message_of(provider, status@, opt_string_view(detail), body@),
{
    let mut r = join2(provider.display_name(), " API error ");
    r.append(status);
    r.append(": ");
    match detail {
        Some(d) => r.append(d.as_str()),
        None => r.append(body),
    }
    r
}

/// The message of a reply that holds no text to use.
pub open spec fn empty_reply_message_of(provider: Provider) -> Seq<char> {
    match provider {
        Provider::Cerebras => "Cerebras returned no choices"@,
        Provider::Cohere => "Cohere returned no text content"@,
    }
}

/// The message of a reply that holds no text to use.
pub fn empty_reply_message(provider: Provider) -> (r: &'static str)
    ensures
        r@ == empty_reply_message_of(provider),
{
    match provider {
        Provider::Cerebras => "Cerebras returned no choices",
        Provider::Cohere => "Cohere returned no text content",
    }
}

/// What a completion call's HTTP status decides: nothing where it is a
/// success; otherwise the message of the refusal (see
/// `api_error_message_of`), built from the service's error detail where its
/// body carried one, else from the whole body.
pub fn refusal(provider: Provider, success: bool, status: &str, detail: Option<String>, body: &str) -> (r:
    Option<String>)
    ensures
        success ==> r is None,
        !success ==> (r matches Some(m) && m@ == api_error_message_of(
            provider,
            status@,
            opt_string_view(detail),
            body@,
        )),
{
    if success {
        None
    } else {
        Some(api_error_message(provider, status, detail, body))
    }
}

/// What a completion call returns once its reply is read: the text found in
/// it, or, where there is none, the message that says so.
pub fn reply_text(provider: Provider, found: Option<String>) -> (r: Result<String, String>)
    ensures
        match found {
            Some(t) => r == Ok::<String, String>(t),
            None => r matches Err(m) && m@ == empty_reply_message_of(provider),
        },
{
    match found {
        Some(t) => Ok(t),
        None => Err(String::from_str(empty_reply_message(provider))),
    }
}

/// The message of a successful call whose body is not the expected reply.
pub open spec fn parse_failure_message_of(provider: Provider, body: Seq<char>) -> Seq<char> {
    "Failed to parse "@ + provider.display_name_of() + " response: "@ + body
}

/// The message of a successful call whose body is not the expected reply
/// (see `parse_failure_message_of`).
pub fn parse_failure_message(provider: Provider, body: &str) -> (r: String)
    ensures
        r@ == parse_failure_message_of(provider, body@),
{
    let mut r = join2("Failed to parse ", provider.display_name());
    r.append(" response: ");
    r.append(body);
    r
}

/// `s` holds neither '{' nor '}'.
pub open spec fn brace_free(s: Seq<char>) -> bool {
    forall|i: int| 0 <= i < s.len() ==> #[trigger] s[i] != '{' && s[i] != '}'
}

/// `x` is a JSON object's text in outline: it opens with '{' and closes with '}'.
pub open spec fn braced(x: Seq<char>) -> bool {
    x.len() >= 1 && x[0] == '{' && x.last() == '}'
}

/// `x` stands in `s` at offset `k`, and everything around it is brace-free.
spec fn framed_at(s: Seq<char>, x: Seq<char>, k: int) -> bool {
    &&& 0 <= k
    &&& k + x.len() <= s.len()
    &&& s.subrange(k, k + x.len()) == x
    &&& brace_free(s.take(k))
    &&& brace_free(s.skip(k + x.len()))
}

proof fn lemma_framed_skip(s: Seq<char>, x: Seq<char>, k: int, n: int)
    requires
        framed_at(s, x, k),
        0 <= n <= k,
    ensures
        framed_at(s.skip(n), x, k - n),
{
    let t = s.skip(n);
    assert(t.subrange(k - n, k - n + x.len()) =~= s.subrange(k, k + x.len()));
    assert(t.skip(k - n + x.len()) =~= s.skip(k + x.len()));
    assert forall|i: int| 0 <= i < k - n implies #[trigger] t.take(k - n)[i] != '{' && t.take(
        k - n,
    )[i] != '}' by {
        assert(t.take(k - n)[i] == s.take(k)[i + n]);
    }
}

proof fn lemma_framed_take(s: Seq<char>, x: Seq<char>, k: int, m: int)
    requires
        framed_at(s, x, k),
        k + x.len() <= m <= s.len(),
    ensures
        framed_at(s.take(m), x, k),
{
    let t = s.take(m);
    assert(t.subrange(k, k + x.len()) =~= s.subrange(k, k + x.len()));
    assert(t.take(k) =~= s.take(k));
    assert forall|i: int| 0 <= i < t.skip(k + x.len()).len() implies #[trigger] t.skip(
        k + x.len(),
    )[i] != '{' && t.skip(k + x.len())[i] != '}' by {
        assert(t.skip(k + x.len())[i] == s.skip(k + x.len())[i]);
    }
}

proof fn lemma_framed_trim_start(s: Seq<char>, x: Seq<char>, k: int) -> (k2: int)
    requires
        framed_at(s, x, k),
        braced(x),
    ensures
        framed_at(trim_start(s), x, k2),
    decreases s.len(),
{
    if s.len() > 0 && is_white_space(s[0]) {
        if k == 0 {
            assert(s[0] == s.subrange(k, k + x.len())[0]);
        }
        lemma_framed_skip(s, x, k, 1);
        assert(s.skip(1) =~= s.drop_first());
        lemma_framed_trim_start(s.drop_first(), x, k - 1)
    } else {
        k
    }
}

proof fn lemma_framed_trim_end(s: Seq<char>, x: Seq<char>, k: int)
    requires
        framed_at(s, x, k),
        braced(x),
    ensures
        framed_at(trim_end(s), x, k),
    decreases s.len(),
{
    if s.len() > 0 && is_white_space(s.last()) {
        if k + x.len() == s.len() {
            assert(s.last() == s.subrange(k, k + x.len())[x.len() - 1]);
        }
        lemma_framed_take(s, x, k, s.len() - 1);
        assert(s.take(s.len() - 1) =~= s.drop_last());
        lemma_framed_trim_end(s.drop_last(), x, k);
    }
}

proof fn lemma_framed_trim(s: Seq<char>, x: Seq<char>, k: int) -> (k2: int)
    requires
        framed_at(s, x, k),
        braced(x),
    ensures
        framed_at(trim(s), x, k2),
{
    let k1 = lemma_framed_trim_start(s, x, k);
    lemma_framed_trim_end(trim_start(s), x, k1);
    k1
}

proof fn lemma_framed_unfenced(s: Seq<char>, x: Seq<char>, k: int) -> (k2: int)
    requires
        framed_at(s, x, k),
        braced(x),
    ensures
        framed_at(unfenced(s), x, k2),
{
    let json_open = json_fence().is_prefix_of(s);
    let open = json_open || fence().is_prefix_of(s);
    let n: int = if json_open { 7 } else { 3 };
    let body = s.skip(n);
    if open && fence().is_suffix_of(body) {
        // The opening fence lies before the object: its characters are not '{'.
        if k < n {
            assert(s[k] == s.subrange(k, k + x.len())[0]);
            if json_open {
                assert(s[k] == json_fence()[k]);
            } else {
                assert(s[k] == fence()[k]);
            }
        }
        lemma_framed_skip(s, x, k, n);
        let kb = k - n;
        // The closing fence lies after the object: its characters are not '}'.
        if kb + x.len() > body.len() - 3 {
            let e = kb + x.len() - 1;
            assert(body[e] == body.subrange(kb, kb + x.len())[x.len() - 1]);
            assert(body[e] == fence()[e - (body.len() - 3)]);
        }
        lemma_framed_take(body, x, kb, body.len() - 3);
        lemma_framed_trim(body.take(body.len() - 3), x, kb)
    } else {
        k
    }
}

proof fn lemma_framed_span(s: Seq<char>, x: Seq<char>, k: int)
    requires
        framed_at(s, x, k),
        braced(x),
    ensures
        s.index_of_first('{') == Some(k),
        s.index_of_last('}') == Some(k + x.len() - 1),
        braces_in_order(s),
        object_span(s) == x,
{
    s.index_of_first_ensures('{');
    s.index_of_last_ensures('}');
    let e = k + x.len() - 1;
    assert(s[k] == s.subrange(k, k + x.len())[0]);
    assert(s[e] == s.subrange(k, k + x.len())[x.len() - 1]);
    let f = s.index_of_first('{').unwrap();
    if f < k {
        assert(s[f] == s.take(k)[f]);
    }
    let l = s.index_of_last('}').unwrap();
    if l > e {
        assert(s[l] == s.skip(k + x.len())[l - (k + x.len())]);
    }
    assert(s.subrange(k, e + 1) == x);
}

/// Law: a reply made of prose, one JSON object, and more prose, where the
/// prose holds no braces, reduces to exactly that object, whatever white
/// space or markdown code fence stands around it; and such a reply can
/// always be cut.
pub proof fn law_extract_keeps_framed_object(p: Seq<char>, x: Seq<char>, q: Seq<char>)
    requires
        braced(x),
        brace_free(p),
        brace_free(q),
    ensures
        extractable(p + x + q),
        extracted_json(p + x + q) == x,
{
    let s = p + x + q;
    assert(s.subrange(p.len() as int, p.len() + x.len() as int) =~= x);
    assert(s.take(p.len() as int) =~= p);
    assert(s.skip(p.len() + x.len() as int) =~= q);
    let k1 = lemma_framed_trim(s, x, p.len() as int);
    let k2 = lemma_framed_unfenced(trim(s), x, k1);
    lemma_framed_span(unfenced(trim(s)), x, k2);
}

/// Law: a JSON object's text, trimmed, is left as it is.
pub proof fn law_extract_object_unchanged(x: Seq<char>)
    requires
        braced(x),
    ensures
        extractable(x),
        extracted_json(x) == x,
{
    let e = Seq::<char>::empty();
    assert(e + x + e =~= x);
    law_extract_keeps_framed_object(e, x, e);
}

/// Law: where a reply holds both braces, reducing it a second time changes
/// nothing.
pub proof fn law_extract_idempotent(raw: Seq<char>)
    requires
        extractable(raw),
        unfenced(trim(raw)).contains('{'),
        unfenced(trim(raw)).contains('}'),
    ensures
        extractable(extracted_json(raw)),
        extracted_json(extracted_json(raw)) == extracted_json(raw),
{
    let s = unfenced(trim(raw));
    s.index_of_first_ensures('{');
    s.index_of_last_ensures('}');
    let i = s.index_of_first('{').unwrap();
    let j = s.index_of_last('}').unwrap();
    let r = s.subrange(i, j + 1);
    if i <= j {
        assert(r[0] == s[i]);
        assert(r.last() == s[j]);
        law_extract_object_unchanged(r);
    } else {
        let e = Seq::<char>::empty();
        assert(r =~= e);
        assert(trim_start(e) == e);
        assert(trim_end(e) == e);
        assert(!fence().is_prefix_of(e));
        assert(!json_fence().is_prefix_of(e));
        e.index_of_first_ensures('{');
        e.index_of_last_ensures('}');
    }
}

} // verus!
