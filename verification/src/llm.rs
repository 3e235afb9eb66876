//! Rewriting text with a language model: what is asked and what is kept of the answer.

use vstd::prelude::*;
use vstd::string::*;

use crate::decimal::{decimal, digits};
use crate::split::{contains, contains_text, cut_once, split_once, strip_prefix};
use crate::text::{
    all_white_space, alphanumeric, blank, blank_means_white_space, chars_of, is_blank,
    is_letter_or_digit, is_white_space, same_text, text_of, trim, trim_end, trim_start, trimmed, trimmed_ends, untouched_by_trimming, white_space,
};

verus! {

broadcast use vstd::string::group_string_axioms;

#[derive(Clone, PartialEq, Eq, Debug)]
pub struct ProviderConfig {
    pub endpoint: String,
    pub model_id: String,
    pub api_key: Option<String>,
}

#[derive(Clone, PartialEq, Eq, Debug)]
pub enum LlmError {
    InvalidConfiguration(String),
    Request(String),
    Http { status: u16, body: String },
    EmptyResponse,
}

impl LlmError {
    /// What the error says to a reader.
    pub fn message(&self) -> (result: String)
        ensures
            result@ == match *self {
                LlmError::InvalidConfiguration(reason) => "LLM provider configuration is invalid: "@
                    + reason@,
                LlmError::Request(reason) => "LLM request failed: "@ + reason@,
                LlmError::Http { status, body } => "LLM provider returned HTTP "@ + digits(
                    status as nat,
                ) + ": "@ + body@,
                LlmError::EmptyResponse => "LLM provider returned no usable text"@,
            },
    {
        match self {
            LlmError::InvalidConfiguration(reason) => {
                let mut text = String::from_str("LLM provider configuration is invalid: ");
                text.append(reason.as_str());
                text
            },
            LlmError::Request(reason) => {
                let mut text = String::from_str("LLM request failed: ");
                text.append(reason.as_str());
                text
            },
            LlmError::Http { status, body } => {
                let mut text = String::from_str("LLM provider returned HTTP ");
                text.append(decimal(*status as u64).as_str());
                text.append(": ");
                text.append(body.as_str());
                text
            },
            LlmError::EmptyResponse => String::from_str("LLM provider returned no usable text"),
        }
    }
}

// ---------------------------------------------------------------------------
// The provider
// ---------------------------------------------------------------------------

/// What `reqwest::Url::parse` makes of a text: the host of the address (`host_str`), if it
/// has one, or what is wrong with the text.
pub uninterp spec fn parsed_url(text: Seq<char>) -> Result<Option<Seq<char>>, Seq<char>>;

/// Parses an address with `reqwest::Url::parse` and reads its host with `host_str`; an
/// error is handed on as its text. The outcome is a function of the text alone; nothing
/// more is claimed of the grammar of addresses.
#[verifier::external_body]
fn parse_url(text: &str) -> (result: Result<Option<String>, String>)
    ensures
        match result {
            Ok(Some(host)) => parsed_url(text@) == Ok::<Option<Seq<char>>, Seq<char>>(
                Some(host@),
            ),
            Ok(None) => parsed_url(text@) == Ok::<Option<Seq<char>>, Seq<char>>(None),
            Err(reason) => parsed_url(text@) == Err::<Option<Seq<char>>, Seq<char>>(reason@),
        },
{
    match reqwest::Url::parse(text) {
        Ok(url) => Ok(url.host_str().map(|host| host.to_owned())),
        Err(error) => Err(error.to_string()),
    }
}

/// The hosts of this machine.
pub open spec fn is_loopback(host: Seq<char>) -> bool {
    ||| host == "localhost"@
    ||| host == "127.0.0.1"@
    ||| host == "::1"@
    ||| host == "[::1]"@
}

/// What is wrong with a provider's configuration, given what its endpoint parses to.
pub open spec fn provider_fault(
    config: ProviderConfig,
    endpoint: Result<Option<Seq<char>>, Seq<char>>,
) -> Option<Seq<char>> {
    match endpoint {
        Err(reason) => Some(reason),
        Ok(host) => if is_blank(config.model_id@) {
            Some("model_id must not be empty"@)
        } else if !(host is Some && is_loopback(host->0)) && (config.api_key is None
            || config.api_key->0@.len() == 0) {
            Some("a credential is required for non-loopback endpoints"@)
        } else {
            None
        },
    }
}

/// Checks a provider's configuration, given what its endpoint parses to.
pub fn check_provider(
    config: &ProviderConfig,
    endpoint: Result<Option<String>, String>,
) -> (result: Result<(), LlmError>)
    ensures
        match (result, provider_fault(*config, endpoint_view(endpoint))) {
            (Ok(()), None) => true,
            (Err(LlmError::InvalidConfiguration(reason)), Some(fault)) => reason@ == fault,
            _ => false,
        },
{
    let host = match endpoint {
        Ok(host) => host,
        Err(reason) => {
            return Err(LlmError::InvalidConfiguration(reason));
        },
    };
    if blank(config.model_id.as_str()) {
        return Err(LlmError::InvalidConfiguration(String::from_str("model_id must not be empty")));
    }
    let loopback = match &host {
        Some(host) => {
            let host = host.as_str();
            same_text(host, "localhost") || same_text(host, "127.0.0.1") || same_text(host, "::1")
                || same_text(host, "[::1]")
        },
        None => false,
    };
    let has_key = match &config.api_key {
        Some(key) => chars_of(key.as_str()).len() > 0,
        None => false,
    };
    if !loopback && !has_key {
        return Err(
            LlmError::InvalidConfiguration(
                String::from_str("a credential is required for non-loopback endpoints"),
            ),
        );
    }
    Ok(())
}

/// The contents of a parsed endpoint.
pub open spec fn endpoint_view(endpoint: Result<Option<String>, String>) -> Result<
    Option<Seq<char>>,
    Seq<char>,
> {
    match endpoint {
        Ok(host) => Ok(crate::text::opt_view(host)),
        Err(reason) => Err(reason@),
    }
}

/// A provider that speaks the chat completion interface.
#[derive(Debug)]
pub struct OpenAiCompatibleProvider {
    pub config: ProviderConfig,
}

#[derive(Clone, PartialEq, Eq, Debug)]
pub struct ChatMessage {
    pub role: &'static str,
    pub content: String,
}

/// What a provider answered.
#[derive(Clone, PartialEq, Eq, Debug)]
pub enum ProviderReply {
    /// No answer, or one that could not be read, and why.
    Failed(String),
    /// An answer that reports a failure.
    Http { status: u16, body: String },
    /// The contents of the choices offered.
    Choices(Vec<String>),
}

impl OpenAiCompatibleProvider {
    /// A provider with a configuration that can work.
    pub fn new(config: ProviderConfig) -> (result: Result<Self, LlmError>)
        ensures
            match (result, provider_fault(config, parsed_url(config.endpoint@))) {
                (Ok(provider), None) => provider.config == config,
                (Err(LlmError::InvalidConfiguration(reason)), Some(fault)) => reason@ == fault,
                _ => false,
            },
    {
        let endpoint = parse_url(config.endpoint.as_str());
        match check_provider(&config, endpoint) {
            Ok(()) => Ok(Self { config }),
            Err(error) => Err(error),
        }
    }

    /// The credential that is sent along.
    pub fn bearer(&self) -> (result: String)
        ensures
            result@ == match self.config.api_key {
                Some(key) => key@,
                None => "local"@,
            },
    {
        match &self.config.api_key {
            Some(key) => key.clone(),
            None => String::from_str("local"),
        }
    }
}

/// Whether a status reports success.
pub fn is_success(status: u16) -> (result: bool)
    ensures
        result == (200 <= status <= 299),
{
    status >= 200 && status <= 299
}

/// An answer comes to this: the cleaned text of its first choice, or what went wrong.
pub open spec fn is_read_as(reply: ProviderReply, result: Result<String, LlmError>) -> bool {
    match reply {
        ProviderReply::Failed(reason) => result == Err::<String, LlmError>(
            LlmError::Request(reason),
        ),
        ProviderReply::Http { status, body } => result == Err::<String, LlmError>(
            LlmError::Http { status, body },
        ),
        ProviderReply::Choices(choices) => match result {
            Ok(text) => choices@.len() > 0 && text@ == cleaned(choices@[0]@) && text@.len() > 0,
            Err(error) => error is EmptyResponse && (choices@.len() == 0 || cleaned(
                choices@[0]@,
            ).len() == 0),
        },
    }
}

/// The first choice counts, whatever the others are; an answer that failed is never a text,
/// and one without a choice is empty.
pub proof fn the_first_choice_counts(
    choices: Vec<String>,
    others: Vec<String>,
    result: Result<String, LlmError>,
    other_result: Result<String, LlmError>,
)
    requires
        choices@.len() > 0,
        others@.len() > 0,
        choices@[0] == others@[0],
        is_read_as(ProviderReply::Choices(choices), result),
        is_read_as(ProviderReply::Choices(others), other_result),
    ensures
        result is Ok <==> other_result is Ok,
        result is Ok ==> result->Ok_0@ == other_result->Ok_0@,
        result is Ok ==> result->Ok_0@ == cleaned(choices@[0]@),
        result is Err ==> result->Err_0 is EmptyResponse,
        forall|reason: String, r: Result<String, LlmError>| #[trigger]
            is_read_as(ProviderReply::Failed(reason), r) ==> r is Err,
{
}

/// What is kept of an answer: the cleaned text of the first choice, where there is any.
pub fn interpret_reply(reply: ProviderReply) -> (result: Result<String, LlmError>)
    ensures
        match reply {
            ProviderReply::Failed(reason) => result == Err::<String, LlmError>(
                LlmError::Request(reason),
            ),
            ProviderReply::Http { status, body } => result == Err::<String, LlmError>(
                LlmError::Http { status, body },
            ),
            ProviderReply::Choices(choices) => match result {
                Ok(text) => choices@.len() > 0 && text@ == cleaned(choices@[0]@) && text@.len()
                    > 0,
                Err(error) => error is EmptyResponse && (choices@.len() == 0 || cleaned(
                    choices@[0]@,
                ).len() == 0),
            },
        },
        is_read_as(reply, result),
{
    match reply {
        ProviderReply::Failed(reason) => Err(LlmError::Request(reason)),
        ProviderReply::Http { status, body } => Err(LlmError::Http { status, body }),
        ProviderReply::Choices(choices) => {
            if choices.len() == 0 {
                return Err(LlmError::EmptyResponse);
            }
            let text = clean_llm_output(choices[0].as_str());
            let size: usize = chars_of(text.as_str()).len();
            if size == 0 {
                Err(LlmError::EmptyResponse)
            } else {
                Ok(text)
            }
        },
    }
}

// ---------------------------------------------------------------------------
// The request
// ---------------------------------------------------------------------------

/// The text and the instruction as they are put to the model.
pub open spec fn framed(text: Seq<char>, instruction: Seq<char>) -> Seq<char> {
    "Text:\n"@ + text + "\n\nInstruction: "@ + instruction
}

/// Frames a text and an instruction for the model.
pub fn frame_request(text: &str, instruction: &str) -> (result: String)
    ensures
        result@ == framed(text@, instruction@),
{
    let mut result = String::from_str("Text:\n");
    result.append(text);
    result.append("\n\nInstruction: ");
    result.append(instruction);
    result
}

/// A message says something in a role.
pub open spec fn says(message: ChatMessage, role: Seq<char>, content: Seq<char>) -> bool {
    message.role@ == role && message.content@ == content
}

/// The conversation put to the model: what it is for, three examples, and the request.
pub open spec fn is_conversation(
    messages: Seq<ChatMessage>,
    text: Seq<char>,
    instruction: Seq<char>,
) -> bool {
    &&& messages.len() == 8
    &&& says(messages[0], "system"@, system_prompt()@)
    &&& says(
        messages[1],
        "user"@,
        framed(
            "what is the command to install steam on arch linux"@,
            "Treat the following text as a request and output only what is asked."@,
        ),
    )
    &&& says(messages[2], "assistant"@, "sudo pacman -S steam"@)
    &&& says(
        messages[3],
        "user"@,
        framed(
            "Where is the train station?"@,
            "Translate the following text into German. Return only the translation."@,
        ),
    )
    &&& says(messages[4], "assistant"@, "Wo ist der Bahnhof?"@)
    &&& says(
        messages[5],
        "user"@,
        framed(
            "wht is teh comand to instal steam"@,
            "Fix the spelling and grammar. Return only the corrected text."@,
        ),
    )
    &&& says(messages[6], "assistant"@, "What is the command to install steam"@)
    &&& says(messages[7], "user"@, framed(text, instruction))
}

/// What the model is told it is for.
pub open spec fn system_prompt() -> &'static str {
    "You are a text editing assistant. Apply the instruction to the text and return ONLY the resulting text. Your reply is inserted directly into the focused application: no preamble, explanation, commentary, surrounding quotes, markdown formatting or code fences."
}

fn message(role: &'static str, content: String) -> (result: ChatMessage)
    ensures
        says(result, role@, content@),
{
    ChatMessage { role, content }
}

/// The conversation that asks the model to apply an instruction to a text.
pub fn rewrite_messages(text: &str, instruction: &str) -> (result: Vec<ChatMessage>)
    ensures
        is_conversation(result@, text@, instruction@),
{
    let mut messages: Vec<ChatMessage> = Vec::new();
    messages.push(
        message(
            "system",
            String::from_str(
                "You are a text editing assistant. Apply the instruction to the text and return ONLY the resulting text. Your reply is inserted directly into the focused application: no preamble, explanation, commentary, surrounding quotes, markdown formatting or code fences.",
            ),
        ),
    );
    messages.push(
        message(
            "user",
            frame_request(
                "what is the command to install steam on arch linux",
                "Treat the following text as a request and output only what is asked.",
            ),
        ),
    );
    messages.push(message("assistant", String::from_str("sudo pacman -S steam")));
    messages.push(
        message(
            "user",
            frame_request(
                "Where is the train station?",
                "Translate the following text into German. Return only the translation.",
            ),
        ),
    );
    messages.push(message("assistant", String::from_str("Wo ist der Bahnhof?")));
    messages.push(
        message(
            "user",
            frame_request(
                "wht is teh comand to instal steam",
                "Fix the spelling and grammar. Return only the corrected text.",
            ),
        ),
    );
    messages.push(message("assistant", String::from_str("What is the command to install steam")));
    messages.push(message("user", frame_request(text, instruction)));
    messages
}

// ---------------------------------------------------------------------------
// Cleaning the answer
// ---------------------------------------------------------------------------

/// The text with every line ending, `\r\n` or `\r`, as `\n`.
pub open spec fn unix_lines(s: Seq<char>) -> Seq<char>
    decreases s.len(),
{
    if s.len() == 0 {
        s
    } else {
        let before = unix_lines(s.drop_last());
        if s.last() == '\r' {
            before.push('\n')
        } else if s.last() == '\n' && s.len() >= 2 && s[s.len() - 2] == '\r' {
            before
        } else {
            before.push(s.last())
        }
    }
}

fn to_unix_lines(s: &str) -> (result: String)
    ensures
        result@ == unix_lines(s@),
{
    let chars = chars_of(s);
    let mut result = String::new();
    let mut i: usize = 0;
    assert(result@ =~= unix_lines(s@.take(0)));
    while i < chars.len()
        invariant
            i <= chars@.len(),
            chars@ == s@,
            result@ == unix_lines(s@.take(i as int)),
        decreases chars@.len() - i,
    {
        let c = chars[i];
        assert(s@.take(i + 1).drop_last() =~= s@.take(i as int));
        assert(s@.take(i + 1).last() == c);
        if c == '\r' {
            result.push('\n');
        } else if c == '\n' && i > 0 && chars[i - 1] == '\r' {
        } else {
            result.push(c);
        }
        i += 1;
    }
    assert(s@.take(i as int) =~= s@);
    result
}

/// What may follow an opening fence: the name of a language, or nothing.
pub open spec fn is_language_tag(info: Seq<char>) -> bool {
    let name = trimmed(info);
    forall|i: int|
        0 <= i < name.len() ==> is_letter_or_digit(#[trigger] name[i]) || name[i] == '+' || name[i]
            == '-' || name[i] == '_' || name[i] == '#' || name[i] == '.'
}

/// Whether a text names a language.
pub fn is_fence_language_tag(info: &str) -> (result: bool)
    ensures
        result == is_language_tag(info@),
{
    let name = trim(info);
    let chars = chars_of(name.as_str());
    let mut i: usize = 0;
    while i < chars.len()
        invariant
            i <= chars@.len(),
            chars@ == trimmed(info@),
            forall|k: int|
                0 <= k < i ==> is_letter_or_digit(#[trigger] chars@[k]) || chars@[k] == '+'
                    || chars@[k] == '-' || chars@[k] == '_' || chars@[k] == '#' || chars@[k] == '.',
        decreases chars@.len() - i,
    {
        let c = chars[i];
        if !(alphanumeric(c) || c == '+' || c == '-' || c == '_' || c == '#' || c == '.') {
            assert(chars@[i as int] == c);
            return false;
        }
        i += 1;
    }
    true
}

/// The body of a text that is one code block as a whole: an opening fence with at most the
/// name of a language, the body, and a closing fence, with no other fence anywhere.
pub open spec fn fenced_body(text: Seq<char>) -> Option<Seq<char>> {
    let t = trimmed(text);
    if !"```"@.is_prefix_of(t) {
        None
    } else {
        match cut_once(t.skip(3), '\n') {
            None => None,
            Some((info, body)) => {
                let b = trim_end(body);
                if contains_text(info, "```"@) || !is_language_tag(info) || !"```"@.is_suffix_of(b)
                    || contains_text(b.take(b.len() - 3), "```"@) {
                    None
                } else {
                    Some(b.take(b.len() - 3))
                }
            },
        }
    }
}

/// Removes white space from the end of a text.
fn trim_back(s: &str) -> (result: String)
    ensures
        result@ == trim_end(s@),
{
    let chars = chars_of(s);
    let mut to: usize = chars.len();
    assert(chars@.take(to as int) =~= s@);
    while to > 0 && white_space(chars[to - 1])
        invariant
            to <= chars@.len(),
            chars@ == s@,
            trim_end(s@) == trim_end(chars@.take(to as int)),
        decreases to,
    {
        assert(chars@.take(to as int).drop_last() =~= chars@.take(to - 1));
        to -= 1;
    }
    let result = text_of(&chars, 0, to);
    assert(result@ =~= chars@.take(to as int));
    result
}

/// Takes the fences off a text that is one code block as a whole; any other text stays as
/// it is.
pub fn strip_wrapping_code_fence(text: &str) -> (result: String)
    ensures
        result@ == match fenced_body(text@) {
            Some(body) => body,
            None => text@,
        },
{
    proof {
        reveal_strlit("```");
    }
    let whole = String::from_str(text);
    let inner = trim(text);
    let rest = match strip_prefix(inner.as_str(), "```") {
        Some(rest) => rest,
        None => {
            return whole;
        },
    };
    let (info, body) = match split_once(rest.as_str(), '\n') {
        Some(parts) => parts,
        None => {
            return whole;
        },
    };
    if contains(info.as_str(), "```") || !is_fence_language_tag(info.as_str()) {
        return whole;
    }
    let body = trim_back(body.as_str());
    if !crate::split::ends_with(body.as_str(), "```") {
        return whole;
    }
    let chars = chars_of(body.as_str());
    let body = text_of(&chars, 0, chars.len() - 3);
    assert(body@ =~= chars@.take(chars@.len() - 3));
    if contains(body.as_str(), "```") {
        whole
    } else {
        body
    }
}

/// What is kept of a model's answer: Unix line endings, no fences around the whole, no
/// white space at the ends.
pub open spec fn cleaned(text: Seq<char>) -> Seq<char> {
    let lines = unix_lines(text);
    trimmed(
        match fenced_body(lines) {
            Some(body) => body,
            None => lines,
        },
    )
}

/// Cleans a model's answer.
#[must_use]
pub fn clean_llm_output(text: &str) -> (result: String)
    ensures
        result@ == cleaned(text@),
{
    let normalized = to_unix_lines(text);
    let body = strip_wrapping_code_fence(normalized.as_str());
    trim(body.as_str())
}

/// A character that ends a line.
pub open spec fn is_line_break(c: char) -> bool {
    ||| c == '\n'
    ||| c == '\r'
    ||| c == '\u{b}'
    ||| c == '\u{c}'
    ||| c == '\u{85}'
    ||| c == '\u{2028}'
    ||| c == '\u{2029}'
}

/// The text has a line break.
pub open spec fn has_line_break(text: Seq<char>) -> bool {
    exists|i: int| 0 <= i < text.len() && is_line_break(#[trigger] text[i])
}

/// Whether a text has a line break.
#[must_use]
pub fn contains_line_break(text: &str) -> (result: bool)
    ensures
        result == has_line_break(text@),
{
    let chars = chars_of(text);
    let mut i: usize = 0;
    while i < chars.len()
        invariant
            i <= chars@.len(),
            chars@ == text@,
            forall|k: int| 0 <= k < i ==> !is_line_break(#[trigger] chars@[k]),
        decreases chars@.len() - i,
    {
        let c = chars[i];
        if c == '\n' || c == '\r' || c == '\u{b}' || c == '\u{c}' || c == '\u{85}' || c == '\u{2028}'
            || c == '\u{2029}' {
            assert(is_line_break(text@[i as int]));
            return true;
        }
        i += 1;
    }
    false
}

// ---------------------------------------------------------------------------
// What holds of a cleaned answer
// ---------------------------------------------------------------------------

/// The text holds no carriage return.
pub open spec fn no_carriage_return(s: Seq<char>) -> bool {
    forall|i: int| 0 <= i < s.len() ==> #[trigger] s[i] != '\r'
}

proof fn unix_lines_have_no_carriage_return(s: Seq<char>)
    ensures
        no_carriage_return(unix_lines(s)),
    decreases s.len(),
{
    if s.len() > 0 {
        unix_lines_have_no_carriage_return(s.drop_last());
    }
}

proof fn unix_lines_untouched(s: Seq<char>)
    requires
        no_carriage_return(s),
    ensures
        unix_lines(s) == s,
    decreases s.len(),
{
    if s.len() > 0 {
        assert(no_carriage_return(s.drop_last()));
        unix_lines_untouched(s.drop_last());
        assert(s.last() == s[s.len() - 1]);
        assert(s.drop_last().push(s.last()) =~= s);
    }
}

/// What is left after trimming is a stretch of the text.
pub proof fn trimmed_is_a_stretch(s: Seq<char>)
    ensures
        exists|from: int, to: int|
            0 <= from <= to <= s.len() && trimmed(s) == #[trigger] s.subrange(from, to),
{
    trim_start_is_a_stretch(s);
    let from = choose|from: int|
        0 <= from <= s.len() && trim_start(s) == #[trigger] s.subrange(from, s.len() as int);
    let rest = trim_start(s);
    trim_end_is_a_stretch(rest);
    let to = choose|to: int| 0 <= to <= rest.len() && trim_end(rest) == #[trigger] rest.subrange(0, to);
    assert(rest.subrange(0, to) =~= s.subrange(from, from + to));
}

proof fn trim_start_is_a_stretch(s: Seq<char>)
    ensures
        exists|from: int|
            0 <= from <= s.len() && trim_start(s) == #[trigger] s.subrange(from, s.len() as int),
    decreases s.len(),
{
    if s.len() > 0 && is_white_space(s[0]) {
        let rest = s.drop_first();
        trim_start_is_a_stretch(rest);
        let from = choose|from: int|
            0 <= from <= rest.len() && trim_start(rest) == #[trigger] rest.subrange(
                from,
                rest.len() as int,
            );
        assert(rest.subrange(from, rest.len() as int) =~= s.subrange(from + 1, s.len() as int));
    } else {
        assert(s.subrange(0, s.len() as int) =~= s);
    }
}

proof fn trim_end_is_a_stretch(s: Seq<char>)
    ensures
        exists|to: int| 0 <= to <= s.len() && trim_end(s) == #[trigger] s.subrange(0, to),
    decreases s.len(),
{
    if s.len() > 0 && is_white_space(s.last()) {
        let rest = s.drop_last();
        trim_end_is_a_stretch(rest);
        let to = choose|to: int|
            0 <= to <= rest.len() && trim_end(rest) == #[trigger] rest.subrange(0, to);
        assert(rest.subrange(0, to) =~= s.subrange(0, to));
    } else {
        assert(s.subrange(0, s.len() as int) =~= s);
    }
}

proof fn cut_once_is_made_of_the_text(s: Seq<char>, d: char)
    ensures
        cut_once(s, d) matches Some((left, right)) ==> s == left.push(d) + right,
    decreases s.len(),
{
    if s.len() > 0 && s[0] != d {
        cut_once_is_made_of_the_text(s.drop_first(), d);
        if let Some((left, right)) = cut_once(s.drop_first(), d) {
            assert(s.drop_first() == left.push(d) + right);
            assert(s =~= seq![s[0]] + s.drop_first());
            assert(seq![s[0]] + (left.push(d) + right) =~= (seq![s[0]] + left).push(d) + right);
        }
    } else if s.len() > 0 {
        assert(s =~= Seq::<char>::empty().push(d) + s.drop_first());
    }
}

/// The body of a fenced text is a stretch of the text.
proof fn fenced_body_is_a_stretch(s: Seq<char>)
    ensures
        fenced_body(s) matches Some(body) ==> exists|from: int, to: int|
            0 <= from <= to <= s.len() && body == #[trigger] s.subrange(from, to),
{
    reveal_strlit("```");
    if let Some(body) = fenced_body(s) {
        let t = trimmed(s);
        trimmed_is_a_stretch(s);
        let (from, to) = choose|from: int, to: int|
            0 <= from <= to <= s.len() && t == #[trigger] s.subrange(from, to);
        let rest = t.skip(3);
        cut_once_is_made_of_the_text(rest, '\n');
        let (info, after) = cut_once(rest, '\n')->0;
        trim_end_is_a_stretch(after);
        let b = trim_end(after);
        let end = choose|end: int| 0 <= end <= after.len() && b == #[trigger] after.subrange(0, end);
        let start = from + 3 + info.len() + 1;
        assert(after =~= rest.skip(info.len() as int + 1));
        assert(body =~= s.subrange(start, start + b.len() - 3));
    }
}

/// Cleaning an answer that is clean changes nothing.
pub proof fn cleaning_is_idempotent(text: Seq<char>)
    ensures
        cleaned(cleaned(text)) == cleaned(text),
        no_carriage_return(cleaned(text)),
        trimmed(cleaned(text)) == cleaned(text),
{
    let lines = unix_lines(text);
    unix_lines_have_no_carriage_return(text);
    let kept = match fenced_body(lines) {
        Some(body) => body,
        None => lines,
    };
    fenced_body_is_a_stretch(lines);
    assert(no_carriage_return(kept));
    let once = trimmed(kept);
    trimmed_is_a_stretch(kept);
    assert(no_carriage_return(once));
    unix_lines_untouched(once);
    trimmed_ends(kept);
    untouched_by_trimming(once);
    assert(fenced_body(once) is None) by {
        if fenced_body(lines) is None {
            assert(trimmed(once) == trimmed(lines));
        } else {
            reveal_strlit("```");
            if "```"@.is_prefix_of(once) {
                let (from, to) = choose|from: int, to: int|
                    0 <= from <= to <= kept.len() && once == #[trigger] kept.subrange(from, to);
                assert(kept.subrange(from, from + 3) =~= "```"@) by {
                    assert(once.take(3) =~= "```"@);
                }
                assert(crate::split::occurs_at(kept, "```"@, from));
            }
        }
    }
}

/// The text with every `\n` as another line ending.
pub open spec fn with_line_ending(s: Seq<char>, ending: Seq<char>) -> Seq<char>
    decreases s.len(),
{
    if s.len() == 0 {
        s
    } else if s.last() == '\n' {
        with_line_ending(s.drop_last(), ending) + ending
    } else {
        with_line_ending(s.drop_last(), ending).push(s.last())
    }
}

/// An answer is cleaned to the same text whether its lines end in `\n`, in `\r\n` or in
/// `\r`.
pub proof fn line_endings_make_no_difference(text: Seq<char>)
    requires
        no_carriage_return(text),
    ensures
        cleaned(with_line_ending(text, seq!['\r', '\n'])) == cleaned(text),
        cleaned(with_line_ending(text, seq!['\r'])) == cleaned(text),
{
    unix_lines_untouched(text);
    crlf_reads_as_lf(text);
    cr_reads_as_lf(text);
}

proof fn crlf_reads_as_lf(s: Seq<char>)
    requires
        no_carriage_return(s),
    ensures
        unix_lines(with_line_ending(s, seq!['\r', '\n'])) == s,
        with_line_ending(s, seq!['\r', '\n']).len() > 0 ==> with_line_ending(
            s,
            seq!['\r', '\n'],
        ).last() != '\r',
    decreases s.len(),
{
    if s.len() > 0 {
        let rest = s.drop_last();
        let ending = seq!['\r', '\n'];
        let before = with_line_ending(rest, ending);
        assert(s.last() == s[s.len() - 1]);
        crlf_reads_as_lf(rest);
        assert(rest.push(s.last()) =~= s);
        let all = with_line_ending(s, ending);
        if s.last() == '\n' {
            assert(all.drop_last() =~= before.push('\r'));
            assert(before.push('\r').drop_last() =~= before);
            assert(unix_lines(before.push('\r')) == unix_lines(before).push('\n'));
        } else {
            assert(all.drop_last() =~= before);
        }
    }
}

proof fn cr_reads_as_lf(s: Seq<char>)
    requires
        no_carriage_return(s),
    ensures
        unix_lines(with_line_ending(s, seq!['\r'])) == s,
        no_line_feed(with_line_ending(s, seq!['\r'])),
    decreases s.len(),
{
    if s.len() > 0 {
        let rest = s.drop_last();
        let ending = seq!['\r'];
        let before = with_line_ending(rest, ending);
        assert(s.last() == s[s.len() - 1]);
        cr_reads_as_lf(rest);
        assert(rest.push(s.last()) =~= s);
        let all = with_line_ending(s, ending);
        assert(all.drop_last() =~= before);
    }
}

/// The text holds no line feed.
pub open spec fn no_line_feed(s: Seq<char>) -> bool {
    forall|i: int| 0 <= i < s.len() ==> #[trigger] s[i] != '\n'
}

/// A provider can be used exactly when its address can be read, a model is named, and a key
/// is there or the address is the machine's own.
pub proof fn providers_need_a_model_and_a_key(
    config: ProviderConfig,
    endpoint: Result<Option<Seq<char>>, Seq<char>>,
)
    ensures
        provider_fault(config, endpoint) is None <==> {
            &&& endpoint is Ok
            &&& !all_white_space(config.model_id@)
            &&& (config.api_key matches Some(key) && key@.len() > 0) || (endpoint->Ok_0
                matches Some(host) && (host == "localhost"@ || host == "127.0.0.1"@ || host
                == "::1"@ || host == "[::1]"@))
        },
        endpoint is Err ==> provider_fault(config, endpoint) == Some(endpoint->Err_0),
{
    blank_means_white_space(config.model_id@);
}

/// The characters that end a line, by their numbers: line feed, vertical tab, form feed,
/// carriage return, next line, line separator and paragraph separator.
pub proof fn line_breaks_by_number(c: char)
    ensures
        is_line_break(c) <==> {
            let n = c as u32;
            10 <= n <= 13 || n == 0x85 || n == 0x2028 || n == 0x2029
        },
{
    assert('\n' as u32 == 10 && '\r' as u32 == 13);
}

/// An answer that does not start with a fence is only tidied: its line endings, and the white
/// space around it.
pub proof fn unfenced_answers_are_only_tidied(text: Seq<char>)
    ensures
        no_carriage_return(text) && !"```"@.is_prefix_of(trimmed(text)) ==> cleaned(text)
            == trimmed(text),
{
    if no_carriage_return(text) {
        unix_lines_untouched(text);
    }
}

/// A code block around the whole answer is taken off: what is left is what stands in it.
pub proof fn fences_around_the_whole_are_taken_off(tag: Seq<char>, body: Seq<char>)
    requires
        no_carriage_return(tag),
        no_carriage_return(body),
        !tag.contains('\n'),
        is_language_tag(tag),
        !contains_text(tag, "```"@),
        !contains_text(body, "```"@),
    ensures
        cleaned("```"@ + tag + seq!['\n'] + body + "```"@) == trimmed(body),
{
    reveal_strlit("```");
    let fence = "```"@;
    let text = fence + tag + seq!['\n'] + body + fence;
    assert forall|i: int| 0 <= i < text.len() implies #[trigger] text[i] != '\r' by {
        let n = fence.len() as int;
        let m = n + tag.len();
        if n <= i < m {
            assert(text[i] == tag[i - n]);
        } else if m < i < m + 1 + body.len() {
            assert(text[i] == body[i - m - 1]);
        }
    }
    unix_lines_untouched(text);
    assert(text[0] == '`' && text.last() == '`');
    untouched_by_trimming(text);
    assert(fence.is_prefix_of(text)) by {
        assert(text.take(3) =~= fence);
    }
    let rest = text.skip(3);
    let behind = body + fence;
    assert(rest =~= tag.push('\n') + behind);
    crate::split::texts_are_cut_at_the_first_occurrence(tag, behind, '\n');
    assert(behind.last() == '`');
    assert(trim_end(behind) == behind);
    assert(fence.is_suffix_of(behind)) by {
        assert(behind.skip(behind.len() - 3) =~= fence);
    }
    assert(behind.take(behind.len() - 3) =~= body);
}

/// An answer with a further fence inside is not unwrapped.
pub proof fn answers_with_inner_fences_are_kept(text: Seq<char>, at: int)
    requires
        no_carriage_return(text),
        3 <= at,
        at + 6 <= trimmed(text).len(),
        trimmed(text).subrange(at, at + 3) == "```"@,
    ensures
        cleaned(text) == trimmed(text),
{
    reveal_strlit("```");
    let fence = "```"@;
    unix_lines_untouched(text);
    let t = trimmed(text);
    trimmed_ends(text);
    if let Some(kept) = fenced_body(text) {
        let rest = t.skip(3);
        cut_once_is_made_of_the_text(rest, '\n');
        let (info, body) = cut_once(rest, '\n')->0;
        let b = trim_end(body);
        trim_end_is_a_stretch(body);
        assert(rest.last() == t.last());
        assert(body.len() > 0);
        assert(body.last() == rest.last());
        assert(b == body);
        let m = info.len() as int;
        assert(rest == info.push('\n') + body);
        if at - 3 + 3 <= m {
            assert forall|i: int| 0 <= i < 3 implies #[trigger] info.subrange(at - 3, at)[i]
                == t.subrange(at, at + 3)[i] by {
                assert(rest[at - 3 + i] == t[at + i]);
                assert(rest[at - 3 + i] == info[at - 3 + i]);
            }
            assert(info.subrange(at - 3, at) =~= t.subrange(at, at + 3));
            assert(crate::split::occurs_at(info, fence, at - 3));
        } else if at - 3 > m {
            let k = at - 3 - m - 1;
            assert(kept == body.take(body.len() - 3));
            assert forall|i: int| 0 <= i < 3 implies #[trigger] kept.subrange(k, k + 3)[i]
                == t.subrange(at, at + 3)[i] by {
                assert(rest[at - 3 + i] == t[at + i]);
                assert(rest[at - 3 + i] == body[k + i]);
            }
            assert(kept.subrange(k, k + 3) =~= t.subrange(at, at + 3));
            assert(crate::split::occurs_at(kept, fence, k));
        } else {
            assert(t.subrange(at, at + 3)[m - (at - 3)] == rest[m]);
            assert(rest[m] == '\n');
            assert(fence[m - (at - 3)] == '`');
        }
    }
}

/// The text to rewrite comes last, with what to do with it; before it the two sides take
/// turns, the user first, behind the one message that says what the assistant is.
pub proof fn the_request_comes_last(
    messages: Seq<ChatMessage>,
    text: Seq<char>,
    instruction: Seq<char>,
)
    requires
        is_conversation(messages, text, instruction),
    ensures
        messages.len() > 0,
        messages[0].role@ == "system"@,
        messages.last().role@ == "user"@,
        messages.last().content@ == "Text:\n"@ + text + "\n\nInstruction: "@ + instruction,
        forall|i: int|
            0 < i < messages.len() ==> (#[trigger] messages[i]).role@ == if i % 2 == 1 {
                "user"@
            } else {
                "assistant"@
            },
{
}

/// A fence with more behind it than the name of a language is not taken off.
pub proof fn fences_that_say_more_are_kept(info: Seq<char>, body: Seq<char>, at: int)
    requires
        no_carriage_return(info),
        no_carriage_return(body),
        !info.contains('\n'),
        0 <= at < info.len(),
        !crate::text::is_white_space(info[at]),
        !is_letter_or_digit(info[at]),
        info[at] != '+' && info[at] != '-' && info[at] != '_' && info[at] != '#' && info[at] != '.',
    ensures
        ({
            let text = "```"@ + info + seq!['\n'] + body + "```"@;
            cleaned(text) == text
        }),
{
    reveal_strlit("```");
    let fence = "```"@;
    let text = fence + info + seq!['\n'] + body + fence;
    assert forall|i: int| 0 <= i < text.len() implies #[trigger] text[i] != '\r' by {
        let n = fence.len() as int;
        let m = n + info.len();
        if n <= i < m {
            assert(text[i] == info[i - n]);
        } else if m < i < m + 1 + body.len() {
            assert(text[i] == body[i - m - 1]);
        }
    }
    unix_lines_untouched(text);
    assert(text[0] == '`' && text.last() == '`');
    untouched_by_trimming(text);
    assert(text.skip(3) =~= info.push('\n') + (body + fence));
    crate::split::texts_are_cut_at_the_first_occurrence(info, body + fence, '\n');
    what_is_not_white_stays(info, at);
    assert(!is_language_tag(info));
}

/// Trimming keeps every character that is not white space.
proof fn what_is_not_white_stays(s: Seq<char>, at: int)
    requires
        0 <= at < s.len(),
        !crate::text::is_white_space(s[at]),
    ensures
        exists|i: int| 0 <= i < trimmed(s).len() && #[trigger] trimmed(s)[i] == s[at],
{
    crate::text::trimming_leaves_a_stretch(s);
    let from = choose|from: int|
        0 <= from && from + trimmed(s).len() <= s.len() && trimmed(s) == #[trigger] s.subrange(
            from,
            from + trimmed(s).len(),
        ) && (forall|i: int| 0 <= i < from ==> crate::text::is_white_space(s[i])) && (forall|i: int|
            from + trimmed(s).len() <= i < s.len() ==> crate::text::is_white_space(s[i]));
    assert(from <= at < from + trimmed(s).len());
    assert(trimmed(s)[at - from] == s[at]);
}

/// The name of a language is made of letters, digits and a few signs, and may be missing.
pub proof fn languages_are_named_by_letters_and_signs(c: char)
    ensures
        is_language_tag(Seq::empty()),
        !crate::text::is_white_space(c) ==> (is_language_tag(seq![c]) <==> is_letter_or_digit(c)
            || c == '+' || c == '-' || c == '_' || c == '#' || c == '.'),
{
    assert(trimmed(Seq::<char>::empty()) =~= Seq::<char>::empty()) by {
        crate::text::trimming_keeps_what_stands_between(
            Seq::empty(),
            Seq::empty(),
            Seq::empty(),
        );
        assert(Seq::<char>::empty() + Seq::empty() + Seq::empty() =~= Seq::<char>::empty());
    }
    if !crate::text::is_white_space(c) {
        untouched_by_trimming(seq![c]);
        assert(trimmed(seq![c])[0] == c);
    }
}

} // verus!
