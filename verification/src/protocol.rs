//! The model-invocation protocol: the fixed prompts, the request values the
//! surrounding program sends to the model servers, extraction of the JSON
//! object embedded in a model's reply, and reading a reply as a resume.

use vstd::prelude::*;

use crate::text::{chars_vec, string_from_chars};
use crate::trusted::resume_fields_of;
use crate::video::Resume;

verus! {

/// The narrative prompt of the two-step topology's vision stage.
pub open spec fn story_prompt() -> Seq<char> {
    "The following images are part of a video, they tell a story. Please describe that story focusing on the persons and their action and less on their environment."@
}

/// The condensation prompt of the two-step topology's text stage; the
/// video's story is appended to it.
pub open spec fn resume_prompt() -> Seq<char> {
    "You are a helpful assistant and expert in concise storytelling. The following text tells the story of a video. Please resume that story in 20 words focusing on the person and their action and less on their environment, from that resume please generate a title of maximum 8 words, and make a list of up to 5 keywords that resumes the story, the keywords will include the person on the video if any (e.g. woman, child...). Please format the answer in a json format: {\"title\": <<title>>, \"description\": <<description>>, \"keywords\": <<array of keywords>>}, with no other text at all, only the json result. The story is:"@
}

/// The combined prompt of the single-step topology.
pub open spec fn combined_prompt() -> Seq<char> {
    "The following images are part of a video, they tell a story. Please describe that story focusing on the persons and their action and less on their environment. Please resume that story in 20 words focusing on the person and their action and less on their environment, from that resume please generate a title of maximum 8 words, and make a list of up to 5 keywords that resumes the story, the keywords will include the person on the video if any (e.g. woman, child...). Please format the answer in a valid json format: {\"title\": <<title>>, \"description\": <<description>>, \"keywords\": <<array of keywords>>}, with no other text at all, only the json result."@
}

/// A typed subprocess invocation: the binary's name and its ordered
/// arguments.  The surrounding program runs it and reports what became of
/// it, so that a missing binary and a failed run stay distinguishable.
pub struct CommandSpec {
    pub program: String,
    pub args: Vec<String>,
}

/// One request to a model server: the model's name, the prompt text, the
/// base64-encoded images that go with it, and the sampling temperature in
/// tenths (the servers take a fraction; the caller divides by ten).
pub struct ModelRequest {
    pub model: String,
    pub prompt: String,
    pub images_base64: Vec<String>,
    pub temperature_tenths: u8,
}

/// The index of the first `'{'` in `s`, or `s.len()` if there is none.
pub open spec fn brace_start(s: Seq<char>) -> int
    decreases s.len(),
{
    if s.len() == 0 {
        0
    } else if s[0] == '{' {
        0
    } else {
        1 + brace_start(s.drop_first())
    }
}

/// The index of the closing brace that brings the depth back to zero,
/// scanning from `i` at depth `depth`.
pub open spec fn scan_close(s: Seq<char>, i: int, depth: int) -> Option<int>
    decreases s.len() - i,
{
    if i < 0 || i >= s.len() {
        None::<int>
    } else {
        let d = if s[i] == '{' {
            depth + 1
        } else if s[i] == '}' {
            depth - 1
        } else {
            depth
        };
        if s[i] == '}' && d == 0 {
            Some(i)
        } else {
            scan_close(s, i + 1, d)
        }
    }
}

/// The first outermost balanced-brace substring of `s`: from the first
/// `'{'` to the brace that closes it, both included; nothing when `s` has
/// no opening brace or the braces never balance.
pub open spec fn spec_extract_json(s: Seq<char>) -> Option<Seq<char>> {
    let b = brace_start(s);
    if b == s.len() {
        None::<Seq<char>>
    } else {
        match scan_close(s, b + 1, 1) {
            Some(e) => Some(s.subrange(b, e + 1)),
            None => None::<Seq<char>>,
        }
    }
}

proof fn lemma_brace_start(s: Seq<char>)
    ensures
        0 <= brace_start(s) <= s.len(),
        forall|j: int| 0 <= j < brace_start(s) ==> s[j] != '{',
        brace_start(s) < s.len() ==> s[brace_start(s)] == '{',
    decreases s.len(),
{
    if s.len() == 0 {
    } else if s[0] == '{' {
    } else {
        lemma_brace_start(s.drop_first());
        assert forall|j: int| 0 <= j < brace_start(s) implies s[j] != '{' by {
            if j > 0 {
                assert(s[j] == s.drop_first()[j - 1]);
            }
        }
        if brace_start(s) < s.len() {
            assert(s[brace_start(s)] == s.drop_first()[brace_start(s) - 1]);
        }
    }
}

/// Extracts the first outermost balanced-brace substring of `input`: the
/// text from the first `'{'` through the brace that closes it.  Returns
/// nothing when no opening brace stands in `input` or its braces never
/// balance.
#[verifier::loop_isolation(false)]
pub fn extract_json(input: &str) -> (r: Option<String>)
    ensures
        match r {
            Some(t) => spec_extract_json(input@) == Some(t@),
            None => spec_extract_json(input@) is None,
        },
{
    let s = chars_vec(input);
    proof {
        lemma_brace_start(s@);
    }
    let n = s.len();
    let mut b: usize = 0;
    while b < n && s[b] != '{'
        invariant
            0 <= b <= n,
            forall|j: int| 0 <= j < b ==> s@[j] != '{',
        decreases n - b,
    {
        b = b + 1;
    }
    proof {
        if b < n && brace_start(s@) < b {
            assert(s@[brace_start(s@)] != '{');
        }
        if b < n && brace_start(s@) > b {
            assert(s@[b as int] != '{');
        }
        assert(b == brace_start(s@));
    }
    if b == n {
        return None;
    }
    let mut j: usize = b + 1;
    let mut depth: usize = 1;
    while j < n
        invariant
            b + 1 <= j <= n,
            1 <= depth <= j,
            scan_close(s@, b + 1, 1) == scan_close(s@, j as int, depth as int),
        decreases n - j,
    {
        let c = s[j];
        if c == '{' {
            depth = depth + 1;
        } else if c == '}' {
            depth = depth - 1;
            if depth == 0 {
                // s[j] closes the first outermost brace region.
                let mut out: Vec<char> = Vec::new();
                let mut k: usize = b;
                while k <= j
                    invariant
                        b <= k <= j + 1 <= n,
                        out@ =~= s@.subrange(b as int, k as int),
                    decreases j + 1 - k,
                {
                    out.push(s[k]);
                    k = k + 1;
                }
                proof {
                    assert(scan_close(s@, j as int, 1) == Some(j as int));
                }
                return Some(string_from_chars(&out));
            }
        }
        j = j + 1;
    }
    proof {
        assert(scan_close(s@, n as int, depth as int) is None);
    }
    None
}

/// Reads a model reply as a resume: the text must be a JSON object with a
/// string under `title`, a string under `description`, and an array of
/// strings under `keywords`.  Exactly then a resume comes back, carrying
/// exactly those parsed fields; any other text yields nothing.
pub fn resume_from_json(s: &str) -> (r: Option<Resume>)
    ensures
        r is Some <==> resume_fields_of(s@) is Some,
        r matches Some(res) ==> Some(
            (res.title@, res.description@, res.keywords@.map_values(|k: String| k@)),
        ) == resume_fields_of(s@),
{
    match crate::trusted::parse_resume_fields(s) {
        Some((title, description, keywords)) => Some(Resume { title, description, keywords }),
        None => None,
    }
}

} // verus!
