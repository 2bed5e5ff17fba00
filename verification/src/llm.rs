//! What a language model is asked about the text of a package, and how its answer is read.
use vstd::prelude::*;

use crate::issue::copy_opt;
use crate::pieces::copy_texts;
use crate::text;
use crate::text::{cat5, chars_of, index_of_at, string_of, trimmed, without_prefix, without_suffix};

verus! {

/// What the model suggests. The confidence is kept as the bits of a single-precision number.
#[derive(Debug, Clone, PartialEq, Eq)]
pub struct TextSuggestion {
    pub summary: Option<String>,
    pub description: Option<String>,
    pub license_suggestion: Option<String>,
    pub confidence_bits: u32,
    pub notes: Vec<String>,
}

/// The model of a [`TextSuggestion`].
#[verifier::ext_equal]
pub struct SuggestionModel {
    pub summary: Option<Seq<char>>,
    pub description: Option<Seq<char>>,
    pub license_suggestion: Option<Seq<char>>,
    pub confidence_bits: u32,
    pub notes: Seq<Seq<char>>,
}

impl View for TextSuggestion {
    type V = SuggestionModel;

    open spec fn view(&self) -> SuggestionModel {
        SuggestionModel {
            summary: text::opt_text(self.summary),
            description: text::opt_text(self.description),
            license_suggestion: text::opt_text(self.license_suggestion),
            confidence_bits: self.confidence_bits,
            notes: text::texts(self.notes@),
        }
    }
}

/// What stands for an answer that did not come: nothing suggested, with no confidence.
pub open spec fn no_suggestion() -> SuggestionModel {
    SuggestionModel {
        summary: None,
        description: None,
        license_suggestion: None,
        confidence_bits: 0,
        notes: seq!["llm unavailable — skipped"@],
    }
}

impl Default for TextSuggestion {
    fn default() -> (r: Self)
        ensures
            r@ == no_suggestion(),
    {
        let r = TextSuggestion {
            summary: None,
            description: None,
            license_suggestion: None,
            confidence_bits: 0,
            notes: vec!["llm unavailable — skipped".to_owned()],
        };
        assert(r@.notes =~= seq!["llm unavailable — skipped"@]);
        r
    }
}

impl TextSuggestion {
    /// A second suggestion like this one.
    pub fn duplicate(&self) -> (r: Self)
        ensures
            r@ == self@,
    {
        TextSuggestion {
            summary: copy_opt(&self.summary),
            description: copy_opt(&self.description),
            license_suggestion: copy_opt(&self.license_suggestion),
            confidence_bits: self.confidence_bits,
            notes: copy_texts(&self.notes),
        }
    }
}

/// The suggestion that was parsed, or the one that stands for none.
pub fn summarize_spec_text_silent(parsed: Option<TextSuggestion>) -> (r: TextSuggestion)
    ensures
        r@ == match parsed {
            Some(suggestion) => suggestion@,
            None => no_suggestion(),
        },
{
    match parsed {
        Some(suggestion) => suggestion,
        None => TextSuggestion::default(),
    }
}

/// The question put to the model.
pub fn suggestion_prompt(metadata_text: &str, readme_text: &str) -> (r: String)
    ensures
        r@ == "You are helping clean Python RPM package metadata.\nReturn JSON only, with keys:\nsummary: string|null\ndescription: string|null\nlicense_suggestion: string|null\nconfidence: number\nnotes: string[]\n\nDo not propose build fixes. Do not mention BuildRequires.\nLicense is only a suggestion and will not be auto-applied.\n\nMETADATA:\n"@
            + metadata_text@ + "\n\nREADME:\n"@ + readme_text@ + "\n"@,
{
    cat5(
        "You are helping clean Python RPM package metadata.\nReturn JSON only, with keys:\nsummary: string|null\ndescription: string|null\nlicense_suggestion: string|null\nconfidence: number\nnotes: string[]\n\nDo not propose build fixes. Do not mention BuildRequires.\nLicense is only a suggestion and will not be auto-applied.\n\nMETADATA:\n",
        metadata_text,
        "\n\nREADME:\n",
        readme_text,
        "\n",
    )
}

/// How many braces are open in `s` between `from` and `to`.
pub open spec fn brace_depth(s: Seq<char>, from: int, to: int) -> int
    decreases to - from,
{
    if to <= from {
        0
    } else {
        brace_depth(s, from, to - 1) + if s[to - 1] == '{' {
            1int
        } else if s[to - 1] == '}' {
            -1int
        } else {
            0int
        }
    }
}

/// The braces that open between `from` and `to` are closed there, and not before.
pub open spec fn braces_close_at(s: Seq<char>, from: int, to: int) -> bool {
    &&& from < to <= s.len()
    &&& brace_depth(s, from, to) == 0
    &&& forall|k: int| from < k < to ==> #[trigger] brace_depth(s, from, k) != 0
}

/// The text from the first opening brace up to the brace that closes it.
pub open spec fn is_first_object(s: Seq<char>, object: Option<Seq<char>>) -> bool {
    let start = text::index_of(s, '{', 0);
    match object {
        Some(found) => exists|to: int| #[trigger]
            braces_close_at(s, start, to) && start < s.len() && found == s.subrange(start, to),
        None => start == s.len() || forall|to: int| !#[trigger] braces_close_at(s, start, to),
    }
}

/// A text has no two first objects.
pub proof fn law_first_object_is_unique(s: Seq<char>, a: Option<Seq<char>>, b: Option<Seq<char>>)
    requires
        is_first_object(s, a),
        is_first_object(s, b),
    ensures
        a == b,
{
    let start = text::index_of(s, '{', 0);
    text::lemma_index_of(s, '{', 0);
    if let Some(x) = a {
        if let Some(y) = b {
            let i = choose|to: int| #[trigger]
                braces_close_at(s, start, to) && start < s.len() && x == s.subrange(start, to);
            let j = choose|to: int| #[trigger]
                braces_close_at(s, start, to) && start < s.len() && y == s.subrange(start, to);
            if i < j {
                assert(brace_depth(s, start, i) != 0);
            }
            if j < i {
                assert(brace_depth(s, start, j) != 0);
            }
        }
    }
}

pub fn extract_first_json_object(s: &str) -> (r: Option<String>)
    ensures
        is_first_object(s@, text::opt_text(r)),
{
    let v = chars_of(s);
    let start: usize = index_of_at(&v, '{', 0);
    if start == v.len() {
        return None;
    }
    proof {
        text::lemma_index_of(v@, '{', 0);
    }
    let mut depth: usize = 0;
    let mut i: usize = start;
    while i < v.len()
        invariant
            v@ == s@,
            start <= i <= v@.len(),
            start < v@.len(),
            start == text::index_of(s@, '{', 0),
            v@[start as int] == '{',
            depth == brace_depth(v@, start as int, i as int),
            depth <= i - start,
            i > start ==> depth > 0,
            forall|k: int| start < k <= i ==> #[trigger] brace_depth(v@, start as int, k) != 0,
        decreases v@.len() - i,
    {
        if v[i] == '{' {
            depth += 1;
        } else if v[i] == '}' {
            depth -= 1;
            if depth == 0 {
                assert(braces_close_at(v@, start as int, i + 1));
                return Some(string_of(&v, start, i + 1));
            }
        }
        i += 1;
    }
    None
}

/// An answer without the fence of a code block and without the white space around it.
pub open spec fn unfenced(s: Seq<char>) -> Seq<char> {
    let t = text::trim(s);
    let inner = match text::strip_prefix(t, "```json"@) {
        Some(rest) => Some(rest),
        None => text::strip_prefix(t, "```"@),
    };
    match inner {
        Some(rest) => text::trim(
            match text::strip_suffix(rest, "```"@) {
                Some(body) => body,
                None => rest,
            },
        ),
        None => text::trim(t),
    }
}

/// The JSON object of an answer, an error where it holds none.
pub fn clean_llm_json(s: &str) -> (r: Result<String, String>)
    ensures
        match r {
            Ok(object) => is_first_object(unfenced(s@), Some(object@)),
            Err(message) => is_first_object(unfenced(s@), None) && message@
                == "no JSON object found in LLM response"@,
        },
{
    let t = trimmed(s);
    let inner = match without_prefix(t.as_str(), "```json") {
        Some(rest) => Some(rest),
        None => without_prefix(t.as_str(), "```"),
    };
    let body = match inner {
        Some(rest) => match without_suffix(rest.as_str(), "```") {
            Some(body) => body,
            None => rest,
        },
        None => t,
    };
    match extract_first_json_object(trimmed(body.as_str()).as_str()) {
        Some(object) => Ok(object),
        None => Err("no JSON object found in LLM response".to_owned()),
    }
}

} // verus!
