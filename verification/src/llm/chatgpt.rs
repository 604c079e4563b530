//! One exchange with the generative backend: what goes into the request,
//! and what is made of the response. Sending and receiving is the
//! caller's part; a failed exchange is not tried again.

use crate::error::{LexError, LexErrorView};
use crate::llm::chatgpt_structs::{ChatGPTRequest, ChatGPTResponse};
use crate::text::{trim, trimmed};
use vstd::prelude::*;
use vstd::string::*;

verus! {

/// The model that answers where the caller names none.
pub const DEFAULT_MODEL: &'static str = "gpt-4.1";

/// The address of the backend where the caller names none.
pub const DEFAULT_URL: &'static str = "https://api.openai.com/v1/responses";

/// The message for a response that lacks the text of the reply.
pub const MISSING_TEXT: &'static str = "missing `output[0].content[0].text` in upstream response";

/// The given text, or the default where none is given.
pub fn given_or<'a>(given: Option<&'a str>, default: &'a str) -> (r: &'a str)
    ensures
        r@ == match given {
            Some(s) => s@,
            None => default@,
        },
{
    match given {
        Some(s) => s,
        None => default,
    }
}

impl<'a> ChatGPTRequest<'a> {
    /// The request that puts `input` to `model`, or to [`DEFAULT_MODEL`]
    /// where no model is named.
    pub fn new(model: Option<&'a str>, input: &'a str) -> (r: ChatGPTRequest<'a>)
        ensures
            r.input@ == input@,
            r.model@ == match model {
                Some(m) => m@,
                None => DEFAULT_MODEL@,
            },
    {
        ChatGPTRequest { model: given_or(model, DEFAULT_MODEL), input }
    }
}

/// `s` with a space in the place of each line feed.
pub open spec fn one_line(s: Seq<char>) -> Seq<char> {
    s.map_values(
        |c: char|
            if c == '\n' {
                ' '
            } else {
                c
            },
    )
}

/// What of a prompt is sent: the prompt on one line, trimmed.
pub open spec fn input_of(prompt: Seq<char>) -> Seq<char> {
    trimmed(one_line(prompt))
}

/// `s` with a space in the place of each line feed.
fn to_one_line(s: &str) -> (r: String)
    ensures
        r@ == one_line(s@),
{
    let n: usize = s.unicode_len();
    let mut out = String::new();
    let mut from: usize = 0;
    let mut i: usize = 0;
    proof {
        reveal_strlit(" ");
        assert(one_line(s@.take(0)) =~= out@);
    }
    for c in it: s.chars()
        invariant
            it.seq() == s@,
            i == it.index(),
            n == s@.len(),
            from <= i,
            out@ == one_line(s@.take(from as int)),
            forall|k: int| from <= k < i ==> s@[k] != '\n',
    {
        if c == '\n' {
            let ghost before = out@;
            out.append(s.substring_char(from, i));
            out.append(" ");
            proof {
                reveal_strlit(" ");
                assert(out@ =~= before + s@.subrange(from as int, i as int) + seq![' ']);
                assert(out@ =~= one_line(s@.take(i + 1)));
            }
            from = i + 1;
        }
        i += 1;
    }
    let ghost before = out@;
    out.append(s.substring_char(from, n));
    proof {
        assert(out@ =~= before + s@.subrange(from as int, n as int));
        assert(out@ =~= one_line(s@));
    }
    out
}

/// What of a prompt is sent as the request's input.
pub fn prepare_input(prompt: &str) -> (r: String)
    ensures
        r@ == input_of(prompt@),
{
    let line = to_one_line(prompt);
    String::from_str(trim(line.as_str()))
}

/// Whether a status tells of success: the statuses from 200 to 299 do.
pub open spec fn success(status: u16) -> bool {
    200 <= status <= 299
}

/// Whether `status` tells of success.
pub fn is_success(status: u16) -> (r: bool)
    ensures
        r == success(status),
{
    200 <= status && status <= 299
}

/// What came of sending the request.
#[derive(Clone, Debug, PartialEq, Eq)]
pub enum Upstream {
    /// No response came; `detail` says why.
    Failed { detail: String },
    /// A response came, with this status and this body.
    Answered { status: u16, body: String },
}

/// What an [`Upstream`] says.
pub enum UpstreamView {
    Failed { detail: Seq<char> },
    Answered { status: u16, body: Seq<char> },
}

impl View for Upstream {
    type V = UpstreamView;

    open spec fn view(&self) -> UpstreamView {
        match self {
            Upstream::Failed { detail } => UpstreamView::Failed { detail: detail@ },
            Upstream::Answered { status, body } => UpstreamView::Answered {
                status: *status,
                body: body@,
            },
        }
    }
}

/// The body that is to be read, or the failure: no response is a failure
/// of transport that carries its detail, a response without success one of
/// format that carries its body.
pub open spec fn accepted(u: UpstreamView) -> Result<Seq<char>, LexErrorView> {
    match u {
        UpstreamView::Failed { detail } => Err(LexErrorView::UpstreamTransport { message: detail }),
        UpstreamView::Answered { status, body } => if success(status) {
            Ok(body)
        } else {
            Err(LexErrorView::UpstreamFormat { message: body, preview: None })
        },
    }
}

/// Decides what came of the exchange: the body to read, or the failure to
/// pass on.
pub fn accept(u: Upstream) -> (r: Result<String, LexError>)
    ensures
        match r {
            Ok(body) => Ok(body@),
            Err(e) => Err(e@),
        } == accepted(u@),
{
    match u {
        Upstream::Failed { detail } => Err(LexError::UpstreamTransport { message: detail }),
        Upstream::Answered { status, body } => {
            if is_success(status) {
                Ok(body)
            } else {
                Err(LexError::UpstreamFormat { message: body, preview: None })
            }
        },
    }
}

/// The failure for a body that is not the envelope of a reply; `detail`
/// says what the reader found.
pub fn unreadable(detail: String) -> (e: LexError)
    ensures
        e@ == (LexErrorView::UpstreamFormat { message: detail@, preview: None }),
{
    LexError::UpstreamFormat { message: detail, preview: None }
}

/// The text of the reply in a response: that of the first part of the
/// first message, if there is one.
pub open spec fn answer_in(response: ChatGPTResponse) -> Option<Seq<char>> {
    if response.output@.len() > 0 && response.output@[0].content@.len() > 0 {
        Some(response.output@[0].content@[0].text@)
    } else {
        None
    }
}

/// The text of the reply, or the failure for a response that has none.
pub fn first_answer(response: &ChatGPTResponse) -> (r: Result<String, LexError>)
    ensures
        match answer_in(*response) {
            Some(text) => r matches Ok(answer) && answer@ == text,
            None => r matches Err(e) && e@ == (LexErrorView::UpstreamFormat {
                message: MISSING_TEXT@,
                preview: None,
            }),
        },
{
    if response.output.len() > 0 && response.output[0].content.len() > 0 {
        Ok(response.output[0].content[0].text.clone())
    } else {
        Err(LexError::UpstreamFormat { message: String::from_str(MISSING_TEXT), preview: None })
    }
}

} // verus!
