//! What becomes of the text that a transcription request returned.

use vstd::prelude::*;

use crate::text::{trim, trimmed};

verus! {

/// What `prompt_echo::is_prompt_echo` answers for this response and prompt.
pub uninterp spec fn is_prompt_echo(response: Seq<char>, prompt: Seq<char>) -> bool;

/// The part of a response that enters the transcript: nothing if the model only
/// repeated the prompt, else the trimmed response.
pub open spec fn kept_text(response: Seq<char>, echo: bool) -> Seq<char> {
    if echo {
        Seq::empty()
    } else {
        trimmed(response)
    }
}

/// The part of a response that enters the transcript, given the prompt that was
/// sent along.
pub open spec fn accepted_text(response: Seq<char>, prompt: Option<Seq<char>>) -> Seq<char> {
    kept_text(
        response,
        match prompt {
            Some(p) => is_prompt_echo(response, p),
            None => false,
        },
    )
}

/// Calls `prompt_echo::is_prompt_echo`, whose answer depends on the two texts
/// alone. An empty response is no echo, and nothing echoes an empty prompt.
#[verifier::external_body]
fn prompt_echo(response: &str, prompt: &str) -> (echo: bool)
    ensures
        echo == is_prompt_echo(response@, prompt@),
        response@.len() == 0 || prompt@.len() == 0 ==> !echo,
{
    prompt_echo::is_prompt_echo(response, prompt)
}

/// The text to keep of a response, once it is known whether it is an echo.
pub fn keep_text(response: &str, echo: bool) -> (r: String)
    ensures
        r@ == kept_text(response@, echo),
{
    if echo {
        String::new()
    } else {
        trim(response)
    }
}

/// The text to keep of a response to a request that was sent with `prompt`.
pub fn accept_text(response: &str, prompt: Option<&str>) -> (r: String)
    ensures
        r@ == accepted_text(
            response@,
            match prompt {
                Some(p) => Some(p@),
                None => None,
            },
        ),
        prompt is None ==> r@ == trimmed(response@),
        prompt matches Some(p) && p@.len() == 0 ==> r@ == trimmed(response@),
        prompt matches Some(p) && is_prompt_echo(response@, p@) ==> r@.len() == 0,
        prompt matches Some(p) && !is_prompt_echo(response@, p@) ==> r@ == trimmed(response@),
{
    let echo: bool = match prompt {
        Some(p) => prompt_echo(response, p),
        None => false,
    };
    keep_text(response, echo)
}

/// Only a mere echo of the prompt is dropped: every other response is kept, but
/// for the white space around it, whatever the prompt says.
pub proof fn law_only_echoes_are_dropped(response: &str, prompt: Option<&str>, r: String)
    requires
        call_ensures(accept_text, (response, prompt), r),
    ensures
        call_requires(accept_text, (response, prompt)),
        prompt is None ==> r@ == trimmed(response@),
        prompt matches Some(p) ==> (if is_prompt_echo(response@, p@) {
            r@.len() == 0
        } else {
            r@ == trimmed(response@)
        }),
        accepted_text(
            response@,
            match prompt {
                Some(p) => Some(p@),
                None => None,
            },
        ) == r@,
{
}

/// Of an echo nothing is kept; of anything else, all but the white space around it.
pub proof fn law_keep_text(response: &str, r: String, none: String)
    requires
        call_ensures(keep_text, (response, false), r),
        call_ensures(keep_text, (response, true), none),
    ensures
        r@ == trimmed(response@),
        none@.len() == 0,
{
}

/// What enters the transcript depends on the prompt only through whether the
/// response echoes it.
pub proof fn law_accepted_text(response: Seq<char>, prompt: Seq<char>)
    ensures
        accepted_text(response, None) == trimmed(response),
        is_prompt_echo(response, prompt) ==> accepted_text(response, Some(prompt)).len() == 0,
        !is_prompt_echo(response, prompt) ==> accepted_text(response, Some(prompt)) == trimmed(
            response,
        ),
{
}

} // verus!
