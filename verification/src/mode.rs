//! The mode record: one saved launch configuration, and its encoding as a
//! line of text.
//!
//! A stored mode is a text of segments with `|` between them:
//!
//! ```text
//! model_path|prompt_path|key=value|...|name|description
//! ```
//!
//! The first segment is the model path. The second is the prompt path unless
//! it holds `=`; then the mode uses the blank prompt. Segments that hold `=`
//! are parameters. The last two segments that hold no `=` are the name and
//! the description.

use vstd::prelude::*;
use crate::text::{views, chars_of, string_of, append_chars, has_char};
use crate::trim::{trim, trim_chars};
use crate::split::{split, join, split_chars, join_pieces};
use crate::number::{render_int, render_bool, render_i32, render_bool_chars};
use crate::path::{
    resolve_model_path,
    resolve_prompt_path,
    blank_prompt_path,
    resolve_model_chars,
    resolve_prompt_chars,
    blank_prompt_chars,
};
use crate::params::{LlamaCppParameters, Parameters, parse_parameters, parameters_of};
use crate::roundtrip::{
    is_base_dir,
    is_canonical,
    lemma_decode_is_canonical,
    lemma_single_segment_is_no_mode,
};

verus! {

/// One launch configuration: a model, a prompt file, the parameters, and the
/// name and description under which it was saved.
#[derive(Debug, Clone, PartialEq, Eq)]
pub struct ChatModeConfig {
    /// Short name of the mode.
    pub name: String,
    /// Free text that describes the mode.
    pub description: String,
    /// Absolute path of the model file.
    pub model_path: String,
    /// Absolute path of the prompt file.
    pub prompt_path: String,
    /// Sampling and runtime parameters.
    pub parameters: LlamaCppParameters,
}

/// A mode as plain values.
pub ghost struct Mode {
    pub name: Seq<char>,
    pub description: Seq<char>,
    pub model_path: Seq<char>,
    pub prompt_path: Seq<char>,
    pub parameters: Parameters,
}

impl View for ChatModeConfig {
    type V = Mode;

    open spec fn view(&self) -> Mode {
        Mode {
            name: self.name@,
            description: self.description@,
            model_path: self.model_path@,
            prompt_path: self.prompt_path@,
            parameters: self.parameters@,
        }
    }
}

/// The segments that hold no `=`, in order.
pub open spec fn plain_segments(parts: Seq<Seq<char>>) -> Seq<Seq<char>>
    decreases parts.len(),
{
    if parts.len() == 0 {
        Seq::<Seq<char>>::empty()
    } else if parts.last().contains('=') {
        plain_segments(parts.drop_last())
    } else {
        plain_segments(parts.drop_last()).push(parts.last())
    }
}

/// The name that the segments give: the last but one of those without `=`,
/// or nothing where there are fewer than two.
pub open spec fn segments_name(parts: Seq<Seq<char>>) -> Seq<char> {
    let plain = plain_segments(parts);
    if plain.len() >= 2 {
        plain[plain.len() - 2]
    } else {
        Seq::<char>::empty()
    }
}

/// The description that the segments give: the last of those without `=`,
/// or nothing where there are fewer than two.
pub open spec fn segments_description(parts: Seq<Seq<char>>) -> Seq<char> {
    let plain = plain_segments(parts);
    if plain.len() >= 2 {
        plain[plain.len() - 1]
    } else {
        Seq::<char>::empty()
    }
}

/// The mode that at least two segments give.
pub open spec fn decode_segments(
    parts: Seq<Seq<char>>,
    home: Seq<char>,
    prompts_dir: Seq<char>,
    default_threads: i32,
) -> Mode {
    Mode {
        name: segments_name(parts),
        description: segments_description(parts),
        model_path: resolve_model_path(parts[0], home),
        prompt_path: if parts[1].contains('=') {
            blank_prompt_path(prompts_dir)
        } else {
            resolve_prompt_path(parts[1], prompts_dir)
        },
        parameters: parse_parameters(parts, default_threads),
    }
}

/// The mode that a stored text gives, or nothing where the text has fewer
/// than two segments. A relative model path is placed below `home`, a
/// relative prompt path below `prompts_dir`.
pub open spec fn decode(
    text: Seq<char>,
    home: Seq<char>,
    prompts_dir: Seq<char>,
    default_threads: i32,
) -> Option<Mode> {
    let parts = split(text, '|');
    if parts.len() < 2 {
        None
    } else {
        Some(decode_segments(parts, home, prompts_dir, default_threads))
    }
}

/// How complete a stored text is.
#[derive(Debug, Clone, Copy, PartialEq, Eq)]
pub enum RecordState {
    /// Fewer than two segments: the text gives no mode.
    TooFewSegments,
    /// Fewer than two segments without `=`: the mode has neither name nor
    /// description.
    Unnamed,
    /// The text gives a mode with its name and description.
    Complete,
}

/// How complete a stored text is: whether it gives a mode at all, and
/// whether that mode has a name and a description.
pub open spec fn record_state_of(text: Seq<char>) -> RecordState {
    let parts = split(text, '|');
    if parts.len() < 2 {
        RecordState::TooFewSegments
    } else if plain_segments(parts).len() < 2 {
        RecordState::Unnamed
    } else {
        RecordState::Complete
    }
}

/// The segments of a mode's stored text: the two paths, the seven
/// parameters in a fixed order, the name and the description.
pub open spec fn encode_segments(m: Mode) -> Seq<Seq<char>> {
    seq![
        m.model_path,
        m.prompt_path,
        "temp="@ + m.parameters.temperature,
        "top_k="@ + render_int(m.parameters.top_k as int),
        "top_p="@ + m.parameters.top_p,
        "ctx_size="@ + render_int(m.parameters.context_size as int),
        "threads="@ + render_int(m.parameters.thread_count as int),
        "gpu_layers="@ + render_int(m.parameters.gpu_layers as int),
        "interactive_first="@ + render_bool(m.parameters.interactive_first),
        m.name,
        m.description,
    ]
}

/// The stored text of a mode.
pub open spec fn encode(m: Mode) -> Seq<char> {
    join(encode_segments(m), '|')
}

/// What the scan of the first segments knows of those without `=`.
pub open spec fn plain_tail(
    parts: Seq<Seq<char>>,
    count: int,
    previous: int,
    last: int,
) -> bool {
    let plain = plain_segments(parts);
    &&& plain.len() == count
    &&& count >= 1 ==> 0 <= last < parts.len() && plain[count - 1] == parts[last]
    &&& count >= 2 ==> 0 <= previous < parts.len() && plain[count - 2] == parts[previous]
}

/// What is launched: a model, a prompt file and the parameters.
#[derive(Debug, Clone, PartialEq, Eq)]
pub struct LaunchConfiguration {
    /// Absolute path of the model file.
    pub model_path: String,
    /// Absolute path of the prompt file.
    pub prompt_path: String,
    /// Sampling and runtime parameters.
    pub parameters: LlamaCppParameters,
}

impl ChatModeConfig {
    /// The mode that saves a launch configuration under the name and the
    /// description that the user entered, both trimmed. There is none where
    /// the name is empty.
    pub fn named(config: &LaunchConfiguration, name_entry: &str, description_entry: &str) -> (r:
        Option<ChatModeConfig>)
        ensures
            trim(name_entry@).len() == 0 ==> r is None,
            trim(name_entry@).len() > 0 ==> (r matches Some(m) && m@ == Mode {
                name: trim(name_entry@),
                description: trim(description_entry@),
                model_path: config.model_path@,
                prompt_path: config.prompt_path@,
                parameters: config.parameters@,
            }),
    {
        let name = trim_chars(&chars_of(name_entry));
        if name.len() == 0 {
            return None;
        }
        let description = trim_chars(&chars_of(description_entry));
        Some(
            ChatModeConfig {
                name: string_of(&name),
                description: string_of(&description),
                model_path: config.model_path.clone(),
                prompt_path: config.prompt_path.clone(),
                parameters: config.parameters.duplicate(),
            },
        )
    }

    /// A copy of the mode.
    pub fn duplicate(&self) -> (m: ChatModeConfig)
        ensures
            m@ == self@,
    {
        ChatModeConfig {
            name: self.name.clone(),
            description: self.description.clone(),
            model_path: self.model_path.clone(),
            prompt_path: self.prompt_path.clone(),
            parameters: self.parameters.duplicate(),
        }
    }
}

/// Finds the last two segments without `=`: how many segments hold no `=`,
/// and the indices of the last but one and the last of them.
pub fn plain_ends(parts: &Vec<Vec<char>>) -> (r: (usize, usize, usize))
    ensures
        plain_tail(views(parts@), r.0 as int, r.1 as int, r.2 as int),
{
    let mut count: usize = 0;
    let mut previous: usize = 0;
    let mut last: usize = 0;
    let mut i: usize = 0;
    assert(views(parts@).take(0) =~= Seq::<Seq<char>>::empty());
    while i < parts.len()
        invariant
            i <= parts@.len(),
            count <= i,
            plain_tail(views(parts@).take(i as int), count as int, previous as int, last as int),
            count >= 1 ==> last < i,
            count >= 2 ==> previous < i,
        decreases parts@.len() - i,
    {
        proof {
            assert(views(parts@).take(i + 1).drop_last() =~= views(parts@).take(i as int));
            assert(views(parts@).take(i + 1).last() == parts@[i as int]@);
            if count >= 1 {
                assert(views(parts@).take(i as int)[last as int] == views(parts@).take(
                    i + 1,
                )[last as int]);
            }
            if count >= 2 {
                assert(views(parts@).take(i as int)[previous as int] == views(parts@).take(
                    i + 1,
                )[previous as int]);
            }
        }
        if !has_char(&parts[i], '=') {
            previous = last;
            last = i;
            count += 1;
        }
        i += 1;
    }
    assert(views(parts@).take(parts@.len() as int) =~= views(parts@));
    (count, previous, last)
}

/// The mode that the segments of a stored text give.
pub fn decode_parts(
    parts: &Vec<Vec<char>>,
    home: &Vec<char>,
    prompts_dir: &Vec<char>,
    default_threads: i32,
) -> (m: ChatModeConfig)
    requires
        parts@.len() >= 2,
    ensures
        m@ == decode_segments(views(parts@), home@, prompts_dir@, default_threads),
{
    let model = resolve_model_chars(&parts[0], home);
    let prompt = if has_char(&parts[1], '=') {
        blank_prompt_chars(prompts_dir)
    } else {
        resolve_prompt_chars(&parts[1], prompts_dir)
    };
    let (count, previous, last) = plain_ends(parts);
    let (name, description) = if count >= 2 {
        (string_of(&parts[previous]), string_of(&parts[last]))
    } else {
        (String::new(), String::new())
    };
    ChatModeConfig {
        name,
        description,
        model_path: string_of(&model),
        prompt_path: string_of(&prompt),
        parameters: parameters_of(parts, default_threads),
    }
}

/// Reads how complete a stored text is, so that a caller can warn of a
/// record that is skipped and of one that is read without name and
/// description.
pub fn record_state(text: &str) -> (r: RecordState)
    ensures
        r == record_state_of(text@),
{
    let parts = split_chars(&chars_of(text), '|');
    if parts.len() < 2 {
        RecordState::TooFewSegments
    } else {
        let (count, _previous, _last) = plain_ends(&parts);
        if count < 2 {
            RecordState::Unnamed
        } else {
            RecordState::Complete
        }
    }
}

/// Decodes the stored text of a mode.
///
/// The text is cut at every `|`. With fewer than two segments there is no
/// mode. Otherwise the first segment is the model path, placed below
/// `home_dir` unless it is absolute. The second is the prompt path, placed
/// below `prompts_dir` unless it is absolute; where it holds `=` the mode
/// uses the blank prompt of `prompts_dir`. Every segment with `=` is read as
/// a parameter, and the last two without `=` are the name and the
/// description.
///
/// Where both directories are absolute paths without `|` and the prompt
/// directory holds no `=`, the mode is in canonical form: it can be encoded
/// and decoded again without change.
pub fn decode_mode(text: &str, home_dir: &str, prompts_dir: &str, default_threads: i32) -> (r:
    Option<ChatModeConfig>)
    ensures
        match decode(text@, home_dir@, prompts_dir@, default_threads) {
            Some(m) => r matches Some(c) && c@ == m,
            None => r is None,
        },
        r is None <==> !text@.contains('|'),
        is_base_dir(home_dir@) && is_base_dir(prompts_dir@) && !prompts_dir@.contains('=') ==> (
        r matches Some(c) ==> is_canonical(c@)),
{
    let parts = split_chars(&chars_of(text), '|');
    proof {
        lemma_single_segment_is_no_mode(text@, home_dir@, prompts_dir@, default_threads);
        if parts@.len() >= 2 && is_base_dir(home_dir@) && is_base_dir(prompts_dir@)
            && !prompts_dir@.contains('=') {
            lemma_decode_is_canonical(text@, home_dir@, prompts_dir@, default_threads);
        }
    }
    if parts.len() < 2 {
        None
    } else {
        Some(decode_parts(&parts, &chars_of(home_dir), &chars_of(prompts_dir), default_threads))
    }
}

/// A key with its `=`, followed by a value.
pub fn stored_parameter(key: &str, value: &Vec<char>) -> (r: Vec<char>)
    ensures
        r@ == key@ + value@,
{
    let mut r: Vec<char> = chars_of(key);
    append_chars(&mut r, value);
    r
}

/// The segments of a mode's stored text.
pub fn encode_parts(mode: &ChatModeConfig) -> (r: Vec<Vec<char>>)
    ensures
        views(r@) == encode_segments(mode@),
{
    let p = &mode.parameters;
    let mut r: Vec<Vec<char>> = Vec::new();
    r.push(chars_of(mode.model_path.as_str()));
    r.push(chars_of(mode.prompt_path.as_str()));
    r.push(stored_parameter("temp=", &chars_of(p.temperature_value.as_str())));
    r.push(stored_parameter("top_k=", &render_i32(p.top_k_sampling)));
    r.push(stored_parameter("top_p=", &chars_of(p.top_p_sampling.as_str())));
    r.push(stored_parameter("ctx_size=", &render_i32(p.context_size)));
    r.push(stored_parameter("threads=", &render_i32(p.thread_count)));
    r.push(stored_parameter("gpu_layers=", &render_i32(p.gpu_layers)));
    r.push(stored_parameter("interactive_first=", &render_bool_chars(p.interactive_first)));
    r.push(chars_of(mode.name.as_str()));
    r.push(chars_of(mode.description.as_str()));
    assert(views(r@) =~= encode_segments(mode@));
    r
}

/// The stored text of a mode, as characters.
pub fn encode_chars(mode: &ChatModeConfig) -> (r: Vec<char>)
    ensures
        r@ == encode(mode@),
{
    join_pieces(&encode_parts(mode), '|')
}

/// Encodes a mode as its stored text: the two paths, the seven parameters in
/// a fixed order, the name and the description, with `|` between them.
pub fn encode_mode(mode: &ChatModeConfig) -> (r: String)
    ensures
        r@ == encode(mode@),
{
    string_of(&encode_chars(mode))
}

} // verus!
